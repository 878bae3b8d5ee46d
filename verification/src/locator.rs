//! Resource location: the first existing match among an ordered list of
//! candidate locations, or a typed failure that enumerates every location
//! checked.
//!
//! The embedding application determines each location's candidate path and
//! runs the plain filesystem existence test; the search decision itself is
//! made here, over those probe outcomes.

use vstd::prelude::*;
use vstd::string::*;
use crate::text;

verus! {

/// What the application found when it probed one candidate location.
#[derive(Debug)]
pub enum ProbedLocation {
    /// The location's directory could be determined: `path` is the candidate
    /// path of the resource there, and `exists` is the outcome of a direct
    /// filesystem existence test on that path.
    Known { path: String, exists: bool },
    /// The location's directory could not be determined at all, so no path
    /// was tested there.
    Undetermined,
}

/// The ghost image of a probed location.
pub enum ProbeView {
    Known { path: Seq<char>, exists: bool },
    Undetermined,
}

impl View for ProbedLocation {
    type V = ProbeView;

    open spec fn view(&self) -> ProbeView {
        if self is Known {
            ProbeView::Known { path: self->path@, exists: self->exists }
        } else {
            ProbeView::Undetermined
        }
    }
}

/// One entry of the diagnostic list carried by a `NotFound` failure.
#[derive(Debug)]
pub enum CheckedLocation {
    /// The location was checked at this concrete path and held no file.
    At { path: String },
    /// The location could not be determined; only its slot in the search
    /// order is recorded.
    Undetermined,
}

/// The ghost image of a checked location.
pub enum CheckedView {
    At { path: Seq<char> },
    Undetermined,
}

impl View for CheckedLocation {
    type V = CheckedView;

    open spec fn view(&self) -> CheckedView {
        if self is At {
            CheckedView::At { path: self->path@ }
        } else {
            CheckedView::Undetermined
        }
    }
}

/// Failure of resolution: the resource was in none of the probed locations.
#[derive(Debug)]
pub struct NotFound {
    /// One entry per location the search went through, in search order.
    pub checked: Vec<CheckedLocation>,
}

/// The display text of one checked entry: its path, or a marker for a
/// location that could not be determined.
pub open spec fn checked_text(c: CheckedView) -> Seq<char> {
    match c {
        CheckedView::At { path } => path,
        CheckedView::Undetermined => "unknown"@,
    }
}

/// The diagnostic message of a `NotFound` failure: the resource's name and
/// every checked location, in search order.
pub open spec fn not_found_text(resource: Seq<char>, checked: Seq<CheckedView>) -> Seq<char> {
    "Resource '"@ + resource + "' not found. Checked: "@ + text::joined(
        checked.map_values(|c: CheckedView| checked_text(c)),
        ", "@,
    )
}

impl NotFound {
    /// Renders the failure for diagnostic display.
    pub fn description(&self, resource: &str) -> (s: String)
        ensures
            s@ == not_found_text(resource@, checked_views(self.checked@)),
    {
        let mut entries: Vec<String> = Vec::new();
        let mut i: usize = 0;
        while i < self.checked.len()
            invariant
                i <= self.checked.len(),
                entries@.len() == i,
                forall|j: int|
                    0 <= j < i ==> #[trigger] entries@[j]@ == checked_text(self.checked@[j]@),
            decreases self.checked.len() - i,
        {
            match &self.checked[i] {
                CheckedLocation::At { path } => entries.push(path.clone()),
                CheckedLocation::Undetermined => entries.push(String::from_str("unknown")),
            }
            i = i + 1;
        }
        proof {
            assert(entries@.map_values(|p: String| p@) =~= checked_views(
                self.checked@,
            ).map_values(|c: CheckedView| checked_text(c)));
        }
        let listed = text::join(&entries, ", ");
        String::from_str("Resource '").concat(resource).concat("' not found. Checked: ").concat(
            listed.as_str(),
        )
    }
}

/// Whether a probe found the resource.
pub open spec fn probe_hit(p: ProbeView) -> bool {
    p matches ProbeView::Known { exists: true, .. }
}

/// The diagnostic entry recorded for a probe that did not end the search.
pub open spec fn checked_of(p: ProbeView) -> CheckedView {
    match p {
        ProbeView::Known { path, exists } => CheckedView::At { path: path },
        ProbeView::Undetermined => CheckedView::Undetermined,
    }
}

/// The path of the first probe that found the resource, if any.
pub open spec fn resolved_path(probes: Seq<ProbeView>) -> Option<Seq<char>>
    decreases probes.len(),
{
    if probes.len() == 0 {
        None
    } else if probe_hit(probes[0]) {
        Some(probes[0]->Known_path)
    } else {
        resolved_path(probes.skip(1))
    }
}

/// The views of a sequence of probed locations.
pub open spec fn probe_views(probes: Seq<ProbedLocation>) -> Seq<ProbeView> {
    probes.map_values(|p: ProbedLocation| p@)
}

/// The views of a checked-location list.
pub open spec fn checked_views(checked: Seq<CheckedLocation>) -> Seq<CheckedView> {
    checked.map_values(|c: CheckedLocation| c@)
}

/// While every probe up to `k` missed, the search outcome is decided by the
/// probes from `k` on.
proof fn lemma_resolved_after_misses(pv: Seq<ProbeView>, k: int)
    requires
        0 <= k <= pv.len(),
        forall|j: int| 0 <= j < k ==> !probe_hit(pv[j]),
    ensures
        resolved_path(pv) == resolved_path(pv.skip(k)),
    decreases k,
{
    if k > 0 {
        assert(!probe_hit(pv[0]));
        assert(forall|j: int| 0 <= j < k - 1 ==> pv.skip(1)[j] == pv[j + 1]);
        lemma_resolved_after_misses(pv.skip(1), k - 1);
        assert(pv.skip(1).skip(k - 1) =~= pv.skip(k));
    } else {
        assert(pv.skip(0) =~= pv);
    }
}

/// Searches the probed locations in order and returns the path of the first
/// that holds the resource; when none does, fails with a list that records
/// every location checked, in search order.
pub fn resolve(probes: Vec<ProbedLocation>) -> (r: Result<String, NotFound>)
    ensures
        r is Ok <==> resolved_path(probe_views(probes@)) is Some,
        (r matches Ok(path) ==> resolved_path(probe_views(probes@)) == Some(path@)),
        (r matches Err(nf) ==> checked_views(nf.checked@) == probe_views(probes@).map_values(
            |p: ProbeView| checked_of(p),
        )),
        (r matches Err(nf) ==> nf.checked@.len() == probes@.len()),
{
    let ghost pv = probe_views(probes@);
    let mut checked: Vec<CheckedLocation> = Vec::new();
    let mut i: usize = 0;
    while i < probes.len()
        invariant
            i <= probes.len(),
            pv == probe_views(probes@),
            pv.len() == probes@.len(),
            forall|j: int| 0 <= j < i ==> !probe_hit(pv[j]),
            forall|j: int| 0 <= j < i ==> #[trigger] checked@[j]@ == checked_of(pv[j]),
            checked@.len() == i,
        decreases probes.len() - i,
    {
        match &probes[i] {
            ProbedLocation::Known { path, exists } => {
                if *exists {
                    proof {
                        lemma_resolved_after_misses(pv, i as int);
                        assert(pv.skip(i as int)[0] == pv[i as int]);
                    }
                    return Ok(path.clone());
                } else {
                    checked.push(CheckedLocation::At { path: path.clone() });
                }
            },
            ProbedLocation::Undetermined => {
                checked.push(CheckedLocation::Undetermined);
            },
        }
        proof {
            assert(pv[i as int] == probes@[i as int]@);
            assert(checked@[i as int]@ == checked_of(pv[i as int]));
        }
        i = i + 1;
    }
    proof {
        lemma_resolved_after_misses(pv, pv.len() as int);
        assert(pv.skip(pv.len() as int) =~= Seq::<ProbeView>::empty());
        assert(checked_views(checked@) =~= pv.map_values(|p: ProbeView| checked_of(p)));
    }
    Err(NotFound { checked })
}

/// When the resource exists in exactly one probed location, resolution
/// returns that location's path, whichever location in the order it is.
pub proof fn lemma_resolve_unique_hit(pv: Seq<ProbeView>, i: int)
    requires
        0 <= i < pv.len(),
        probe_hit(pv[i]),
        forall|j: int| 0 <= j < pv.len() && j != i ==> !probe_hit(pv[j]),
    ensures
        resolved_path(pv) == Some(pv[i]->Known_path),
{
    lemma_resolved_after_misses(pv, i);
    assert(pv.skip(i)[0] == pv[i]);
}

/// When the resource exists in no probed location, resolution fails; by
/// `resolve`'s contract the failure then lists exactly one checked entry per
/// probed location.
pub proof fn lemma_resolve_no_hit(pv: Seq<ProbeView>)
    requires
        forall|j: int| 0 <= j < pv.len() ==> !probe_hit(pv[j]),
    ensures
        resolved_path(pv) is None,
{
    lemma_resolved_after_misses(pv, pv.len() as int);
    assert(pv.skip(pv.len() as int) =~= Seq::<ProbeView>::empty());
}

} // verus!
