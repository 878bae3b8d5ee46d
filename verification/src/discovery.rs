//! Interpreter discovery: probe an ordered list of candidate executable
//! names and select the first whose probe invocation the operating system
//! could run; when every probe fails, fall back to a conventional default
//! name (a last resort, not a verified-working interpreter).
//!
//! The embedding application performs each probe (a version-query invocation
//! with both output streams discarded) and reports only whether the launch
//! succeeded; which candidate is probed next and which name is selected is
//! decided here.

use vstd::prelude::*;
use vstd::string::*;

verus! {

/// The name that discovery selects from `candidates` under the probe
/// outcomes `ok`: the first candidate whose probe succeeded, else `fallback`.
pub open spec fn selection(candidates: Seq<Seq<char>>, ok: Seq<bool>, fallback: Seq<char>) -> Seq<
    char,
>
    recommends
        candidates.len() <= ok.len(),
    decreases candidates.len(),
{
    if candidates.len() == 0 {
        fallback
    } else if ok[0] {
        candidates[0]
    } else {
        selection(candidates.skip(1), ok.skip(1), fallback)
    }
}

/// While every probe up to `k` failed, the selection is decided by the
/// candidates from `k` on.
proof fn lemma_selection_after_misses(
    candidates: Seq<Seq<char>>,
    ok: Seq<bool>,
    fallback: Seq<char>,
    k: int,
)
    requires
        0 <= k <= candidates.len(),
        k <= ok.len(),
        forall|j: int| 0 <= j < k ==> !ok[j],
    ensures
        selection(candidates, ok, fallback) == selection(
            candidates.skip(k),
            ok.skip(k),
            fallback,
        ),
    decreases k,
{
    if k > 0 {
        assert(!ok[0]);
        assert(forall|j: int| 0 <= j < k - 1 ==> ok.skip(1)[j] == ok[j + 1]);
        lemma_selection_after_misses(candidates.skip(1), ok.skip(1), fallback, k - 1);
        assert(candidates.skip(1).skip(k - 1) =~= candidates.skip(k));
        assert(ok.skip(1).skip(k - 1) =~= ok.skip(k));
    } else {
        assert(candidates.skip(0) =~= candidates);
        assert(ok.skip(0) =~= ok);
    }
}

/// Discovery selects the first candidate, in list order, whose probe
/// succeeded, whatever the later outcomes are.
pub proof fn lemma_selection_first_success(
    candidates: Seq<Seq<char>>,
    ok: Seq<bool>,
    fallback: Seq<char>,
    i: int,
)
    requires
        0 <= i < candidates.len(),
        i < ok.len(),
        ok[i],
        forall|j: int| 0 <= j < i ==> !ok[j],
    ensures
        selection(candidates, ok, fallback) == candidates[i],
{
    lemma_selection_after_misses(candidates, ok, fallback, i);
    assert(candidates.skip(i)[0] == candidates[i]);
    assert(ok.skip(i)[0] == ok[i]);
}

/// When every candidate's probe failed, discovery selects the fallback name
/// rather than failing.
pub proof fn lemma_selection_all_fail(candidates: Seq<Seq<char>>, ok: Seq<bool>, fallback: Seq<
    char,
>)
    requires
        candidates.len() <= ok.len(),
        forall|j: int| 0 <= j < candidates.len() ==> !ok[j],
    ensures
        selection(candidates, ok, fallback) == fallback,
{
    lemma_selection_after_misses(candidates, ok, fallback, candidates.len() as int);
    assert(candidates.skip(candidates.len() as int) =~= Seq::<Seq<char>>::empty());
}

/// Selects the interpreter once every candidate's probe outcome is known:
/// the first candidate with a successful probe, or `fallback` when none had
/// one.
pub fn select_interpreter(candidates: &Vec<String>, probe_ok: &Vec<bool>, fallback: String) -> (r:
    String)
    requires
        candidates@.len() == probe_ok@.len(),
    ensures
        r@ == selection(candidates@.map_values(|c: String| c@), probe_ok@, fallback@),
{
    let ghost names = candidates@.map_values(|c: String| c@);
    let mut i: usize = 0;
    while i < candidates.len()
        invariant
            i <= candidates.len(),
            names == candidates@.map_values(|c: String| c@),
            names.len() == candidates@.len(),
            candidates@.len() == probe_ok@.len(),
            forall|j: int| 0 <= j < i ==> !probe_ok@[j],
        decreases candidates.len() - i,
    {
        if probe_ok[i] {
            proof {
                lemma_selection_first_success(names, probe_ok@, fallback@, i as int);
            }
            return candidates[i].clone();
        }
        i = i + 1;
    }
    proof {
        lemma_selection_all_fail(names, probe_ok@, fallback@);
    }
    fallback
}

/// The candidate interpreter names probed on Windows, in preference order:
/// the launcher first, then the plain and the versioned executable.
pub fn windows_candidates() -> (r: Vec<String>)
    ensures
        r@.len() == 3,
        r@[0]@ == "py.exe"@,
        r@[1]@ == "python.exe"@,
        r@[2]@ == "python3.exe"@,
{
    let mut r: Vec<String> = Vec::new();
    r.push(String::from_str("py.exe"));
    r.push(String::from_str("python.exe"));
    r.push(String::from_str("python3.exe"));
    r
}

/// The candidate interpreter names probed on Unix-like systems, in
/// preference order.
pub fn unix_candidates() -> (r: Vec<String>)
    ensures
        r@.len() == 2,
        r@[0]@ == "python3"@,
        r@[1]@ == "python"@,
{
    let mut r: Vec<String> = Vec::new();
    r.push(String::from_str("python3"));
    r.push(String::from_str("python"));
    r
}

/// The conventional last-resort interpreter name, used when every probe
/// fails.
pub fn default_interpreter() -> (r: String)
    ensures
        r@ == "python"@,
{
    String::from_str("python")
}

/// One in-progress discovery over an ordered candidate list. The embedding
/// application probes one pending candidate at a time and reports each
/// outcome, so probing stops at the first success.
pub struct Discovery {
    /// The ordered candidate names still subject to probing.
    pub candidates: Vec<String>,
    /// The name selected when every candidate fails.
    pub fallback: String,
    /// How many candidates have been probed so far, all without success.
    pub tried: usize,
    /// The outcomes reported so far, in probe order.
    pub outcomes: Ghost<Seq<bool>>,
}

impl Discovery {
    /// Every outcome reported so far was a failure, one per tried candidate.
    pub open spec fn wf(self) -> bool {
        &&& self.tried <= self.candidates@.len()
        &&& self.outcomes@.len() == self.tried
        &&& forall|j: int| 0 <= j < self.tried ==> !self.outcomes@[j]
    }

    /// The candidate names, as sequences of characters.
    pub open spec fn names(self) -> Seq<Seq<char>> {
        self.candidates@.map_values(|c: String| c@)
    }

    /// Starts a discovery over `candidates`, in the given preference order.
    pub fn new(candidates: Vec<String>, fallback: String) -> (d: Discovery)
        ensures
            d.wf(),
            d.candidates@ == candidates@,
            d.fallback@ == fallback@,
            d.tried == 0,
    {
        Discovery { candidates, fallback, tried: 0, outcomes: Ghost(Seq::empty()) }
    }

    /// The next candidate to probe, or `None` once all have been tried.
    pub fn pending(&self) -> (r: Option<String>)
        requires
            self.wf(),
        ensures
            r is Some <==> self.tried < self.candidates@.len(),
            (r matches Some(c) ==> c@ == self.names()[self.tried as int]),
    {
        if self.tried < self.candidates.len() {
            proof {
                assert(self.names()[self.tried as int] == self.candidates@[self.tried as int]@);
            }
            Some(self.candidates[self.tried].clone())
        } else {
            None
        }
    }

    /// Records the outcome of probing the pending candidate. On a successful
    /// probe, returns the selected name: the one that discovery selects under
    /// the recorded outcomes however the remaining candidates would have
    /// fared. On a failed probe, moves on to the next candidate.
    pub fn record(&mut self, ok: bool) -> (r: Option<String>)
        requires
            old(self).wf(),
            old(self).tried < old(self).candidates@.len(),
        ensures
            final(self).candidates@ == old(self).candidates@,
            final(self).fallback@ == old(self).fallback@,
            final(self).outcomes@ == old(self).outcomes@.push(ok),
            !ok ==> final(self).wf() && final(self).tried == old(self).tried + 1 && r is None,
            ok ==> final(self).tried == old(self).tried && (r matches Some(c) && c@
                == old(self).names()[old(self).tried as int] && (forall|rest: Seq<bool>|
            selection(old(self).names(), final(self).outcomes@ + rest, old(self).fallback@)
                == c@)),
    {
        let ghost prior = self.outcomes@;
        self.outcomes = Ghost(prior.push(ok));
        if ok {
            let chosen = self.candidates[self.tried].clone();
            proof {
                assert forall|rest: Seq<bool>|
                    selection(self.names(), prior.push(true) + rest, self.fallback@)
                        == chosen@ by {
                    let full = prior.push(true) + rest;
                    assert(full[self.tried as int]);
                    assert(forall|j: int| 0 <= j < self.tried ==> !full[j]);
                    lemma_selection_first_success(
                        self.names(),
                        full,
                        self.fallback@,
                        self.tried as int,
                    );
                    assert(self.names()[self.tried as int]
                        == self.candidates@[self.tried as int]@);
                }
            }
            Some(chosen)
        } else {
            // the candidate count bounds `tried`, so the increment fits
            let _candidate_count = self.candidates.len();
            self.tried = self.tried + 1;
            None
        }
    }

    /// The fallback name, once every candidate has been probed without
    /// success; it equals the discovery selection for the recorded outcomes.
    pub fn exhausted_fallback(&self) -> (r: String)
        requires
            self.wf(),
            self.tried == self.candidates@.len(),
        ensures
            r@ == self.fallback@,
            r@ == selection(self.names(), self.outcomes@, self.fallback@),
    {
        proof {
            lemma_selection_all_fail(self.names(), self.outcomes@, self.fallback@);
        }
        self.fallback.clone()
    }
}

} // verus!
