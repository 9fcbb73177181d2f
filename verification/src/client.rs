use vstd::prelude::*;

use crate::daemon::SinkInfo;
use crate::text::{contains_str, contains_text, find_from, fold_case, fold_case_chars, occurs_at};

verus! {

/// Why no single sink answers a search.
#[derive(Debug)]
pub enum FindSinkError {
    /// No sink's name or description holds the input.
    NoMatch { input: String },
    /// Several do; their descriptions, in the order the sinks came.
    Ambiguous { input: String, descriptions: Vec<String> },
}

/// Why a sink cannot be toggled.
#[derive(Debug)]
pub enum ToggleError {
    /// It is the current default sink, the source of the routing.
    IsDefault { description: String },
}

/// The positions of `hits` that hold `true`, in order.
pub open spec fn hit_indices(hits: Seq<bool>) -> Seq<int>
    decreases hits.len(),
{
    if hits.len() == 0 {
        Seq::empty()
    } else {
        let before = hit_indices(hits.drop_last());
        if hits.last() {
            before.push(hits.len() - 1)
        } else {
            before
        }
    }
}

/// Whether a sink answers a search, case aside: its name or its description
/// holds the input, all three lowercased.
pub open spec fn sink_answers(s: SinkInfo, input: Seq<char>) -> bool {
    contains_text(fold_case(s.name@), fold_case(input)) || contains_text(fold_case(s.description@), fold_case(input))
}

/// For each sink, whether it answers the search.
pub open spec fn search_hits(sinks: Seq<SinkInfo>, input: Seq<char>) -> Seq<bool> {
    Seq::new(sinks.len(), |i: int| sink_answers(sinks[i], input))
}

/// What a search ends in, given which sinks answer it: the one sink where
/// exactly one answers, and otherwise the error that says so.
pub open spec fn picked(sinks: Seq<SinkInfo>, hits: Seq<bool>, input: Seq<char>, r: Result<&SinkInfo, FindSinkError>) -> bool {
    let idx = hit_indices(hits);
    match r {
        Ok(s) => idx.len() == 1 && *s == sinks[idx[0]],
        Err(FindSinkError::NoMatch { input: i }) => idx.len() == 0 && i@ == input,
        Err(FindSinkError::Ambiguous { input: i, descriptions }) => {
            &&& idx.len() >= 2
            &&& i@ == input
            &&& descriptions.len() == idx.len()
            &&& forall|j: int| 0 <= j < idx.len() ==> #[trigger] descriptions[j]@ == sinks[idx[j]].description@
        },
    }
}

proof fn lemma_hit_indices_bounds(hits: Seq<bool>)
    ensures
        forall|j: int| 0 <= j < hit_indices(hits).len() ==> 0 <= #[trigger] hit_indices(hits)[j] < hits.len(),
        hit_indices(hits).len() <= hits.len(),
    decreases hits.len(),
{
    if hits.len() > 0 {
        lemma_hit_indices_bounds(hits.drop_last());
    }
}

/// Whether a sink, given its lowercased name and description, answers the
/// lowercased input.
pub fn answers_lowered(name_lower: &str, description_lower: &str, input_lower: &str) -> (r: bool)
    ensures
        r == (contains_text(name_lower@, input_lower@) || contains_text(description_lower@, input_lower@)),
{
    contains_str(name_lower, input_lower) || contains_str(description_lower, input_lower)
}

/// The one sink that answers a search, given for each sink whether it
/// answers.
pub fn pick_sink<'a>(sinks: &'a [SinkInfo], hits: &Vec<bool>, input: &str) -> (r: Result<&'a SinkInfo, FindSinkError>)
    requires
        hits.len() == sinks.len(),
    ensures
        picked(sinks@, hits@, input@, r),
{
    let mut idx: Vec<usize> = Vec::new();
    let mut i: usize = 0;
    while i < hits.len()
        invariant
            i <= hits.len(),
            idx.len() == hit_indices(hits@.take(i as int)).len(),
            forall|j: int| 0 <= j < idx.len() ==> #[trigger] idx[j] as int == hit_indices(hits@.take(i as int))[j],
        decreases hits.len() - i,
    {
        proof {
            assert(hits@.take(i + 1).drop_last() =~= hits@.take(i as int));
        }
        if hits[i] {
            idx.push(i);
        }
        i = i + 1;
    }
    proof {
        assert(hits@.take(hits.len() as int) =~= hits@);
        lemma_hit_indices_bounds(hits@);
    }
    if idx.len() == 0 {
        Err(FindSinkError::NoMatch { input: input.to_owned() })
    } else if idx.len() == 1 {
        Ok(&sinks[idx[0]])
    } else {
        let mut descriptions: Vec<String> = Vec::new();
        let mut j: usize = 0;
        while j < idx.len()
            invariant
                j <= idx.len(),
                idx.len() == hit_indices(hits@).len(),
                forall|q: int| 0 <= q < idx.len() ==> #[trigger] idx[q] as int == hit_indices(hits@)[q],
                forall|q: int| 0 <= q < idx.len() ==> #[trigger] idx[q] < sinks.len(),
                descriptions.len() == j,
                forall|q: int| 0 <= q < j ==> #[trigger] descriptions[q]@ == sinks@[idx[q] as int].description@,
            decreases idx.len() - j,
        {
            descriptions.push(sinks[idx[j]].description.clone());
            j = j + 1;
        }
        Err(FindSinkError::Ambiguous { input: input.to_owned(), descriptions })
    }
}

/// Whether `n` stands anywhere in `h`.
fn holds_chars(h: &Vec<char>, n: &Vec<char>) -> (r: bool)
    ensures
        r == contains_text(h@, n@),
{
    match find_from(h, n, 0) {
        Some(_) => true,
        None => {
            assert forall|j: int| !occurs_at(h@, n@, j) by {
                if j >= 0 {
                    assert(!occurs_at(h@, n@, j));
                }
            }
            false
        },
    }
}

/// Finds a sink by a case-insensitive piece of its name or description:
/// the one sink that answers, or the error that no sink or several do.
pub fn find_sink<'a>(sinks: &'a [SinkInfo], input: &str) -> (r: Result<&'a SinkInfo, FindSinkError>)
    ensures
        picked(sinks@, search_hits(sinks@, input@), input@, r),
{
    let input_folded = fold_case_chars(input);
    let mut hits: Vec<bool> = Vec::new();
    let mut i: usize = 0;
    while i < sinks.len()
        invariant
            i <= sinks.len(),
            input_folded@ == fold_case(input@),
            hits.len() == i,
            forall|j: int| 0 <= j < i ==> #[trigger] hits[j] == sink_answers(sinks@[j], input@),
        decreases sinks.len() - i,
    {
        let name_folded = fold_case_chars(sinks[i].name.as_str());
        let description_folded = fold_case_chars(sinks[i].description.as_str());
        let hit = holds_chars(&name_folded, &input_folded) || holds_chars(&description_folded, &input_folded);
        hits.push(hit);
        i = i + 1;
    }
    assert(hits@ =~= search_hits(sinks@, input@));
    pick_sink(sinks, &hits, input)
}

/// What toggling a sink switches it to: the opposite of its switch, unless
/// it is the default sink.
pub fn toggle_target(target: &SinkInfo) -> (r: Result<bool, ToggleError>)
    ensures
        match r {
            Ok(b) => !target.is_default && b == !target.is_enabled,
            Err(ToggleError::IsDefault { description }) => target.is_default && description@
                == target.description@,
        },
{
    if target.is_default {
        Err(ToggleError::IsDefault { description: target.description.clone() })
    } else {
        Ok(!target.is_enabled)
    }
}

/// The link, default and enabled columns of a sink's line in the listing.
pub fn sink_row_labels(sink: &SinkInfo) -> (r: (&'static str, &'static str, &'static str))
    ensures
        r.0@ == (if sink.is_linked { "linked"@ } else { "-"@ }),
        r.1@ == (if sink.is_default { "default"@ } else { "-"@ }),
        r.2@ == (if sink.is_default { "(source)"@ } else if sink.is_enabled { "yes"@ } else { "no"@ }),
{
    let linked = if sink.is_linked { "linked" } else { "-" };
    let default = if sink.is_default { "default" } else { "-" };
    let enabled = if sink.is_default {
        "(source)"
    } else if sink.is_enabled {
        "yes"
    } else {
        "no"
    };
    (linked, default, enabled)
}

/// How the sink list is laid out in the window: the default sink heads the
/// list, every other sink gets a row of its own.
#[derive(Debug)]
pub struct SinkLayout {
    /// The default sink (the last one marked default, where several are).
    pub default_index: Option<usize>,
    /// The other sinks, in the order they came.
    pub rows: Vec<usize>,
}

/// Lays the sink list out for the window.
pub fn sink_layout(sinks: &[SinkInfo]) -> (r: SinkLayout)
    ensures
        match r.default_index {
            Some(d) => d < sinks.len() && sinks@[d as int].is_default && forall|j: int|
                d < j < sinks.len() ==> !(#[trigger] sinks@[j]).is_default,
            None => forall|j: int| 0 <= j < sinks.len() ==> !(#[trigger] sinks@[j]).is_default,
        },
        r.rows@.map_values(|i: usize| i as int) == hit_indices(
            Seq::new(sinks@.len(), |j: int| !sinks@[j].is_default),
        ),
{
    let ghost wanted = Seq::new(sinks@.len(), |j: int| !sinks@[j].is_default);
    let mut default_index: Option<usize> = None;
    let mut rows: Vec<usize> = Vec::new();
    let mut i: usize = 0;
    while i < sinks.len()
        invariant
            i <= sinks.len(),
            wanted == Seq::new(sinks@.len(), |j: int| !sinks@[j].is_default),
            match default_index {
                Some(d) => d < i && sinks@[d as int].is_default && forall|j: int|
                    d < j < i ==> !(#[trigger] sinks@[j]).is_default,
                None => forall|j: int| 0 <= j < i ==> !(#[trigger] sinks@[j]).is_default,
            },
            rows@.map_values(|q: usize| q as int) == hit_indices(wanted.take(i as int)),
        decreases sinks.len() - i,
    {
        proof {
            assert(wanted.take(i + 1).drop_last() =~= wanted.take(i as int));
        }
        if sinks[i].is_default {
            default_index = Some(i);
        } else {
            rows.push(i);
            proof {
                assert(rows@.map_values(|q: usize| q as int) =~= hit_indices(wanted.take(i as int)).push(i as int));
            }
        }
        i = i + 1;
    }
    assert(wanted.take(sinks.len() as int) =~= wanted);
    SinkLayout { default_index, rows }
}

/// Whether any sink other than the default is switched on: the window's
/// quick action then starts as "All Off".
pub fn any_secondary_enabled(sinks: &[SinkInfo]) -> (r: bool)
    ensures
        r == exists|j: int| 0 <= j < sinks.len() && !(#[trigger] sinks@[j]).is_default && sinks@[j].is_enabled,
{
    let mut i: usize = 0;
    while i < sinks.len()
        invariant
            i <= sinks.len(),
            forall|j: int| 0 <= j < i ==> !(!(#[trigger] sinks@[j]).is_default && sinks@[j].is_enabled),
        decreases sinks.len() - i,
    {
        if !sinks[i].is_default && sinks[i].is_enabled {
            return true;
        }
        i = i + 1;
    }
    false
}

/// How many times the window asks for the sink list when it opens.
pub const FETCH_ATTEMPTS: u32 = 10;

/// What the window does after asking for the sink list when it opens.
#[derive(Debug, Clone, Copy, PartialEq, Eq, Structural)]
pub enum FetchDecision {
    /// Some sinks came back: show them.
    Accept,
    /// None yet: wait and ask again.
    Retry,
    /// None after every attempt: wait once more and show an empty list.
    GiveUp,
}

/// The decision after `attempts_done` requests, the last of which found
/// sinks or not.
pub fn fetch_decision(attempts_done: u32, found_sinks: bool) -> (r: FetchDecision)
    ensures
        r == if found_sinks {
            FetchDecision::Accept
        } else if attempts_done < FETCH_ATTEMPTS {
            FetchDecision::Retry
        } else {
            FetchDecision::GiveUp
        },
{
    if found_sinks {
        FetchDecision::Accept
    } else if attempts_done < FETCH_ATTEMPTS {
        FetchDecision::Retry
    } else {
        FetchDecision::GiveUp
    }
}

/// The window's quick action: whether a press switches every secondary sink
/// on, given whether they were all switched on by the last press.
pub fn quick_action_press(all_on: bool) -> (r: bool)
    ensures
        r == !all_on,
{
    !all_on
}

/// The quick action's button: its label, the style it shows and the style it
/// drops, given whether the secondary sinks are all switched on.
pub fn quick_action_look(all_on: bool) -> (r: (&'static str, &'static str, &'static str))
    ensures
        r.0@ == (if all_on { "All Off"@ } else { "All On"@ }),
        r.1@ == (if all_on { "destructive-action"@ } else { "suggested-action"@ }),
        r.2@ == (if all_on { "suggested-action"@ } else { "destructive-action"@ }),
{
    if all_on {
        ("All Off", "destructive-action", "suggested-action")
    } else {
        ("All On", "suggested-action", "destructive-action")
    }
}

/// `hit_indices` lists exactly the positions that hold `true`, in increasing
/// order.
pub proof fn law_hit_indices(hits: Seq<bool>)
    ensures
        forall|j: int| 0 <= j < hits.len() ==> (hits[j] <==> #[trigger] hit_indices(hits).contains(j)),
        forall|a: int| 0 <= a < hit_indices(hits).len() ==> 0 <= #[trigger] hit_indices(hits)[a] < hits.len(),
        forall|a: int, b: int|
            0 <= a < b < hit_indices(hits).len() ==> #[trigger] hit_indices(hits)[a] < #[trigger] hit_indices(hits)[b],
    decreases hits.len(),
{
    if hits.len() > 0 {
        let p = hits.drop_last();
        law_hit_indices(p);
        let idx = hit_indices(hits);
        let pidx = hit_indices(p);
        assert forall|j: int| 0 <= j < hits.len() implies (hits[j] <==> #[trigger] idx.contains(j)) by {
            if j < hits.len() - 1 {
                assert(hits[j] == p[j]);
                if pidx.contains(j) {
                    let a: int = choose|a: int| 0 <= a < pidx.len() && pidx[a] == j;
                    assert(idx[a] == j);
                }
                if idx.contains(j) {
                    let a: int = choose|a: int| 0 <= a < idx.len() && idx[a] == j;
                    if a < pidx.len() {
                        assert(pidx[a] == j);
                    }
                }
            } else {
                if hits.last() {
                    assert(idx[pidx.len() as int] == j);
                }
                if idx.contains(j) {
                    let a: int = choose|a: int| 0 <= a < idx.len() && idx[a] == j;
                    if a < pidx.len() {
                        assert(pidx[a] == j);
                    }
                }
            }
        }
    }
}

/// A search ends in the sink that answers where exactly one does, in
/// `NoMatch` where none does, and otherwise in `Ambiguous` with the
/// descriptions of every answering sink, in the order the sinks came.
pub proof fn law_search_outcome(sinks: Seq<SinkInfo>, hits: Seq<bool>, input: Seq<char>, r: Result<&SinkInfo, FindSinkError>)
    requires
        hits.len() == sinks.len(),
        picked(sinks, hits, input, r),
    ensures
        r matches Ok(s) ==> exists|j: int|
            0 <= j < sinks.len() && hits[j] && *s == sinks[j] && forall|k: int| 0 <= k < sinks.len() && k != j ==> !#[trigger] hits[k],
        r matches Err(FindSinkError::NoMatch { input: i }) ==> i@ == input && forall|k: int| 0 <= k < sinks.len() ==> !#[trigger] hits[k],
        r matches Err(FindSinkError::Ambiguous { descriptions, .. }) ==> {
            &&& exists|a: int, b: int| 0 <= a < b < sinks.len() && hits[a] && hits[b]
            &&& forall|k: int| 0 <= k < sinks.len() && #[trigger] hits[k] ==> exists|q: int|
                0 <= q < descriptions.len() && descriptions[q]@ == sinks[k].description@
        },
{
    law_hit_indices(hits);
    let idx = hit_indices(hits);
    if r is Ok {
        let j = idx[0];
        assert(idx.contains(j));
        assert forall|k: int| 0 <= k < sinks.len() && k != j implies !#[trigger] hits[k] by {
            if hits[k] {
                assert(idx.contains(k));
                let a: int = choose|a: int| 0 <= a < idx.len() && idx[a] == k;
            }
        }
    }
    if r matches Err(FindSinkError::NoMatch { .. }) {
        assert forall|k: int| 0 <= k < sinks.len() implies !#[trigger] hits[k] by {
            if hits[k] {
                assert(idx.contains(k));
            }
        }
    }
    match r {
        Err(FindSinkError::Ambiguous { descriptions, .. }) => {
            assert(idx.contains(idx[0]) && idx.contains(idx[1]));
            assert(hits[idx[0]] && hits[idx[1]]);
            assert forall|k: int| 0 <= k < sinks.len() && #[trigger] hits[k] implies exists|q: int|
                0 <= q < descriptions.len() && descriptions[q]@ == sinks[k].description@ by {
                assert(idx.contains(k));
                let a: int = choose|a: int| 0 <= a < idx.len() && idx[a] == k;
                assert(descriptions[a]@ == sinks[idx[a]].description@);
            }
        },
        _ => {},
    }
}

/// A sink answers a search exactly when the lowercased input stands, at some
/// position, in its lowercased name or in its lowercased description.
pub proof fn law_sink_answers(s: SinkInfo, input: Seq<char>)
    ensures
        sink_answers(s, input) <==> (exists|i: int|
            0 <= i && i + fold_case(input).len() <= fold_case(s.name@).len() && #[trigger] fold_case(s.name@).subrange(
                i,
                i + fold_case(input).len(),
            ) == fold_case(input)) || (exists|i: int|
            0 <= i && i + fold_case(input).len() <= fold_case(s.description@).len()
                && #[trigger] fold_case(s.description@).subrange(i, i + fold_case(input).len()) == fold_case(input)),
{
    crate::text::law_contains_anywhere(fold_case(s.name@), fold_case(input), 0);
    crate::text::law_contains_anywhere(fold_case(s.description@), fold_case(input), 0);
}

} // verus!
