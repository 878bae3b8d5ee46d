//! Decimal rendering of process identifiers, and joining of command-line
//! pieces into one display string.

use vstd::prelude::*;
use vstd::string::*;

verus! {

/// The character for a single decimal digit.
pub open spec fn digit_char(d: nat) -> char {
    if d == 0 {
        '0'
    } else if d == 1 {
        '1'
    } else if d == 2 {
        '2'
    } else if d == 3 {
        '3'
    } else if d == 4 {
        '4'
    } else if d == 5 {
        '5'
    } else if d == 6 {
        '6'
    } else if d == 7 {
        '7'
    } else if d == 8 {
        '8'
    } else {
        '9'
    }
}

/// The usual decimal notation of `n`: no leading zeroes, most significant
/// digit first.
pub open spec fn decimal_digits(n: nat) -> Seq<char>
    decreases n,
{
    if n < 10 {
        seq![digit_char(n)]
    } else {
        decimal_digits(n / 10).push(digit_char(n % 10))
    }
}

fn digit_str(d: u32) -> (s: &'static str)
    requires
        d < 10,
    ensures
        s@ =~= seq![digit_char(d as nat)],
{
    proof {
        reveal_strlit("0");
        reveal_strlit("1");
        reveal_strlit("2");
        reveal_strlit("3");
        reveal_strlit("4");
        reveal_strlit("5");
        reveal_strlit("6");
        reveal_strlit("7");
        reveal_strlit("8");
        reveal_strlit("9");
    }
    if d == 0 {
        "0"
    } else if d == 1 {
        "1"
    } else if d == 2 {
        "2"
    } else if d == 3 {
        "3"
    } else if d == 4 {
        "4"
    } else if d == 5 {
        "5"
    } else if d == 6 {
        "6"
    } else if d == 7 {
        "7"
    } else if d == 8 {
        "8"
    } else {
        "9"
    }
}

/// `parts` glued together with `sep` between consecutive parts.
pub open spec fn joined(parts: Seq<Seq<char>>, sep: Seq<char>) -> Seq<char>
    decreases parts.len(),
{
    if parts.len() == 0 {
        Seq::empty()
    } else if parts.len() == 1 {
        parts[0]
    } else {
        parts[0] + sep + joined(parts.skip(1), sep)
    }
}

/// Appending one part extends the joined text by a separator and that part.
pub proof fn lemma_joined_push(parts: Seq<Seq<char>>, sep: Seq<char>, last: Seq<char>)
    ensures
        joined(parts.push(last), sep) == (if parts.len() == 0 {
            last
        } else {
            joined(parts, sep) + sep + last
        }),
    decreases parts.len(),
{
    let whole = parts.push(last);
    if parts.len() == 0 {
        assert(whole[0] == last);
    } else if parts.len() == 1 {
        assert(whole.len() == 2);
        assert(whole[0] == parts[0]);
        assert(whole.skip(1) =~= seq![last]);
        assert(joined(seq![last], sep) == last);
        assert(joined(whole, sep) == parts[0] + sep + last);
        assert(joined(parts, sep) == parts[0]);
    } else {
        assert(whole.skip(1) =~= parts.skip(1).push(last));
        lemma_joined_push(parts.skip(1), sep, last);
        assert(joined(whole, sep) == parts[0] + sep + (joined(parts.skip(1), sep) + sep + last));
        assert(parts[0] + sep + (joined(parts.skip(1), sep) + sep + last) =~= (parts[0] + sep
            + joined(parts.skip(1), sep)) + sep + last);
    }
}

/// `parts` glued together with `sep` between consecutive parts.
pub fn join(parts: &Vec<String>, sep: &str) -> (s: String)
    ensures
        s@ == joined(parts@.map_values(|p: String| p@), sep@),
{
    let ghost views = parts@.map_values(|p: String| p@);
    let mut s = String::new();
    let mut i: usize = 0;
    while i < parts.len()
        invariant
            i <= parts.len(),
            views == parts@.map_values(|p: String| p@),
            views.len() == parts@.len(),
            s@ == joined(views.take(i as int), sep@),
        decreases parts.len() - i,
    {
        if i > 0 {
            s.append(sep);
        }
        s.append(parts[i].as_str());
        proof {
            lemma_joined_push(views.take(i as int), sep@, views[i as int]);
            assert(views.take(i as int).push(views[i as int]) =~= views.take(i as int + 1));
        }
        i = i + 1;
    }
    proof {
        assert(views.take(parts@.len() as int) =~= views);
    }
    s
}

/// The decimal notation of `n`, as an owned string.
pub fn decimal_string(n: u32) -> (s: String)
    ensures
        s@ == decimal_digits(n as nat),
    decreases n,
{
    if n < 10 {
        String::from_str(digit_str(n))
    } else {
        let prefix = decimal_string(n / 10);
        let s = prefix.concat(digit_str(n % 10));
        proof {
            assert(s@ =~= decimal_digits((n / 10) as nat).push(digit_char((n % 10) as nat)));
        }
        s
    }
}

} // verus!
