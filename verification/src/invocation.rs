//! Building the child's command line: the script path, the fixed `--config`
//! pair, and an optional `--project-path` pair, in exactly this order. The
//! order is significant only for the script's own argument parser and is
//! reproduced exactly.

use vstd::prelude::*;
use vstd::string::*;
use crate::text;

verus! {

/// The view of an optional owned string.
pub open spec fn option_view(o: Option<String>) -> Option<Seq<char>> {
    match o {
        Some(p) => Some(p@),
        None => None,
    }
}

/// The argument list handed to the interpreter for one run of the script.
pub open spec fn invocation_args(
    script: Seq<char>,
    config: Seq<char>,
    project: Option<Seq<char>>,
) -> Seq<Seq<char>> {
    let base = seq![script, "--config"@, config];
    match project {
        Some(p) => base + seq!["--project-path"@, p],
        None => base,
    }
}

/// Builds the interpreter's argument list for one run of the script.
pub fn build_args(script: &String, config_path: &String, project_path: &Option<String>) -> (args:
    Vec<String>)
    ensures
        args@.map_values(|a: String| a@) == invocation_args(
            script@,
            config_path@,
            option_view(*project_path),
        ),
{
    let mut args: Vec<String> = Vec::new();
    args.push(script.clone());
    args.push(String::from_str("--config"));
    args.push(config_path.clone());
    match project_path {
        Some(p) => {
            args.push(String::from_str("--project-path"));
            args.push(p.clone());
        },
        None => {},
    }
    proof {
        assert(args@.map_values(|a: String| a@) =~= invocation_args(
            script@,
            config_path@,
            option_view(*project_path),
        ));
    }
    args
}

/// One display line for the full invocation: the executable and every
/// argument, separated by single spaces.
pub open spec fn command_display_view(executable: Seq<char>, args: Seq<Seq<char>>) -> Seq<char> {
    text::joined(seq![executable] + args, " "@)
}

/// Renders the full invocation as one display line, for error messages and
/// local logging.
pub fn command_display(executable: &String, args: &Vec<String>) -> (s: String)
    ensures
        s@ == command_display_view(executable@, args@.map_values(|a: String| a@)),
{
    let mut parts: Vec<String> = Vec::new();
    parts.push(executable.clone());
    let mut i: usize = 0;
    while i < args.len()
        invariant
            i <= args.len(),
            parts@.len() == i + 1,
            parts@[0]@ == executable@,
            forall|j: int| 1 <= j < i + 1 ==> #[trigger] parts@[j]@ == args@[j - 1]@,
        decreases args.len() - i,
    {
        parts.push(args[i].clone());
        i = i + 1;
    }
    proof {
        assert(parts@.map_values(|p: String| p@) =~= seq![executable@] + args@.map_values(
            |a: String| a@,
        ));
    }
    text::join(&parts, " ")
}

} // verus!
