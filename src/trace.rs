//! The whole run of a search against a world in which a given set of sockets
//! accepts connections and the hint's directory lists as given, and the laws
//! that hold of every such run.

use vstd::prelude::*;
use crate::classify::looks_like_endpoint;
use crate::resolve::{
    after_hint, first_candidate, next, parent_of, scan_from, start, ActionView, EventView,
    SearchView, Stage,
};

verus! {

/// What the world answers to an action: a connection to a live socket works and
/// any other fails; the directory lists as `listing` says, or cannot be listed.
pub open spec fn reply(
    a: ActionView,
    live: Set<Seq<char>>,
    listing: Option<Seq<Seq<char>>>,
) -> EventView {
    match a {
        ActionView::Connect(p) => if live.contains(p) {
            EventView::Connected
        } else {
            EventView::Refused
        },
        ActionView::ReadDir(_) => match listing {
            Some(v) => EventView::Listed(v),
            None => EventView::ListFailed,
        },
        _ => EventView::Removed,
    }
}

/// The actions of a search from `a` on, each answered by the world, up to the
/// final one, taking at most `fuel` steps.
pub open spec fn run(
    s: SearchView,
    a: ActionView,
    live: Set<Seq<char>>,
    listing: Option<Seq<Seq<char>>>,
    fuel: nat,
) -> Seq<ActionView>
    decreases fuel,
{
    if a.is_final() || fuel == 0 {
        seq![a]
    } else {
        let (s2, a2) = next(s, reply(a, live, listing));
        seq![a].add(run(s2, a2, live, listing, (fuel - 1) as nat))
    }
}

/// Enough steps for any search whose directory lists as `listing` says.
pub open spec fn steps_for(listing: Option<Seq<Seq<char>>>) -> nat {
    match listing {
        Some(v) => 2 * v.len() + 4,
        None => 4,
    }
}

/// Every action of a search begun at `hint`, in order, the final one last.
pub open spec fn resolution(
    hint: Seq<char>,
    live: Set<Seq<char>>,
    listing: Option<Seq<Seq<char>>>,
) -> Seq<ActionView> {
    run(start(hint).0, start(hint).1, live, listing, steps_for(listing))
}

/// The actions over the entries from index `i` on: each entry that follows the
/// naming convention is connected to; the first live one ends the scan, each
/// dead one is removed.
pub open spec fn scan_trace(v: Seq<Seq<char>>, i: int, live: Set<Seq<char>>) -> Seq<ActionView>
    decreases v.len() - i,
{
    if i >= v.len() || i < 0 {
        seq![ActionView::NotFound]
    } else if !looks_like_endpoint(v[i]) {
        scan_trace(v, i + 1, live)
    } else if live.contains(v[i]) {
        seq![ActionView::Connect(v[i]), ActionView::Found(v[i])]
    } else {
        seq![ActionView::Connect(v[i]), ActionView::Remove(v[i])].add(scan_trace(v, i + 1, live))
    }
}

/// The actions once the hint is ruled out.
pub open spec fn directory_trace(
    hint: Seq<char>,
    live: Set<Seq<char>>,
    listing: Option<Seq<Seq<char>>>,
) -> Seq<ActionView> {
    match parent_of(hint) {
        None => seq![ActionView::NotFound],
        Some(dir) => seq![ActionView::ReadDir(dir)].add(
            match listing {
                Some(v) => scan_trace(v, 0, live),
                None => seq![ActionView::Failed],
            },
        ),
    }
}

/// The actions of a search, written out: the hint first, then its directory.
pub open spec fn expected_trace(
    hint: Seq<char>,
    live: Set<Seq<char>>,
    listing: Option<Seq<Seq<char>>>,
) -> Seq<ActionView> {
    if looks_like_endpoint(hint) {
        if live.contains(hint) {
            seq![ActionView::Connect(hint), ActionView::Found(hint)]
        } else {
            seq![ActionView::Connect(hint), ActionView::Remove(hint)].add(
                directory_trace(hint, live, listing),
            )
        }
    } else {
        directory_trace(hint, live, listing)
    }
}

/// The index of the first live entry at or after `i` that follows the naming
/// convention, or the number of entries where there is none.
pub open spec fn first_live(v: Seq<Seq<char>>, i: int, live: Set<Seq<char>>) -> int
    decreases v.len() - i,
{
    if i >= v.len() || i < 0 {
        v.len() as int
    } else if looks_like_endpoint(v[i]) && live.contains(v[i]) {
        i
    } else {
        first_live(v, i + 1, live)
    }
}

/// How a search ends: on the hint if it is live and follows the convention;
/// else on the first live entry of its directory that follows the convention;
/// else without a socket, or with a failure where the directory cannot be listed.
pub open spec fn outcome(
    hint: Seq<char>,
    live: Set<Seq<char>>,
    listing: Option<Seq<Seq<char>>>,
) -> ActionView {
    if looks_like_endpoint(hint) && live.contains(hint) {
        ActionView::Found(hint)
    } else {
        match parent_of(hint) {
            None => ActionView::NotFound,
            Some(_) => match listing {
                None => ActionView::Failed,
                Some(v) => {
                    let j = first_live(v, 0, live);
                    if j < v.len() {
                        ActionView::Found(v[j])
                    } else {
                        ActionView::NotFound
                    }
                },
            },
        }
    }
}

/// Whether a sequence of actions removes the file at `p`.
pub open spec fn removes(t: Seq<ActionView>, p: Seq<char>) -> bool {
    t.contains(ActionView::Remove(p))
}

/// Whether a sequence of actions connects to the socket at `p`.
pub open spec fn connects(t: Seq<ActionView>, p: Seq<char>) -> bool {
    t.contains(ActionView::Connect(p))
}

proof fn lemma_run_scan(
    s: SearchView,
    i: int,
    live: Set<Seq<char>>,
    listing: Option<Seq<Seq<char>>>,
    fuel: nat,
)
    requires
        0 <= i <= s.entries.len() <= usize::MAX,
        fuel >= 2 * (s.entries.len() - i) + 1,
    ensures
        run(scan_from(s, i).0, scan_from(s, i).1, live, listing, fuel) == scan_trace(
            s.entries,
            i,
            live,
        ),
    decreases s.entries.len() - i,
{
    let v = s.entries;
    if i < v.len() {
        if !looks_like_endpoint(v[i]) {
            assert(first_candidate(v, i) == first_candidate(v, i + 1));
            lemma_run_scan(s, i + 1, live, listing, fuel);
        } else {
            assert(first_candidate(v, i) == i);
            let (s1, a1) = scan_from(s, i);
            assert(a1 == ActionView::Connect(v[i]));
            if live.contains(v[i]) {
                let (s2, a2) = next(s1, reply(a1, live, listing));
                assert(a2 == ActionView::Found(v[i]));
                assert(run(s2, a2, live, listing, (fuel - 1) as nat) == seq![a2]);
                assert(run(s1, a1, live, listing, fuel) =~= scan_trace(v, i, live));
            } else {
                let (s2, a2) = next(s1, reply(a1, live, listing));
                assert(a2 == ActionView::Remove(v[i]));
                let (s3, a3) = next(s2, reply(a2, live, listing));
                assert(s2.entries == v);
                assert((s3, a3) == scan_from(s2, i + 1));
                lemma_run_scan(s2, i + 1, live, listing, (fuel - 2) as nat);
                assert(run(s2, a2, live, listing, (fuel - 1) as nat) == seq![a2].add(
                    scan_trace(v, i + 1, live),
                ));
                assert(run(s1, a1, live, listing, fuel) =~= scan_trace(v, i, live));
            }
        }
    }
}

proof fn lemma_run_directory(
    s: SearchView,
    live: Set<Seq<char>>,
    listing: Option<Seq<Seq<char>>>,
    fuel: nat,
)
    requires
        fuel >= steps_for(listing) - 2,
        fits(listing),
    ensures
        run(after_hint(s).0, after_hint(s).1, live, listing, fuel) == directory_trace(
            s.hint,
            live,
            listing,
        ),
{
    let (s1, a1) = after_hint(s);
    match parent_of(s.hint) {
        None => {},
        Some(dir) => {
            assert(s1.stage == Stage::Listing);
            let (s2, a2) = next(s1, reply(a1, live, listing));
            match listing {
                Some(v) => {
                    let t = SearchView { entries: v, ..s1 };
                    assert((s2, a2) == scan_from(t, 0));
                    lemma_run_scan(t, 0, live, listing, (fuel - 1) as nat);
                    assert(run(s1, a1, live, listing, fuel) =~= directory_trace(s.hint, live, listing));
                },
                None => {
                    assert(a2 == ActionView::Failed);
                    assert(run(s2, a2, live, listing, (fuel - 1) as nat) == seq![a2]);
                    assert(run(s1, a1, live, listing, fuel) =~= directory_trace(s.hint, live, listing));
                },
            }
        },
    }
}

/// A listing that a `Vec` can hold.
pub open spec fn fits(listing: Option<Seq<Seq<char>>>) -> bool {
    match listing {
        Some(v) => v.len() <= usize::MAX,
        None => true,
    }
}

/// A search does exactly what `expected_trace` writes out: it probes the hint
/// if it follows the naming convention, ends there if it is live, removes it
/// if not, then lists the hint's directory and probes its entries in the
/// listing's order, removing each dead one, until one is live.
pub proof fn law_resolution_trace(
    hint: Seq<char>,
    live: Set<Seq<char>>,
    listing: Option<Seq<Seq<char>>>,
)
    requires
        fits(listing),
    ensures
        resolution(hint, live, listing) == expected_trace(hint, live, listing),
{
    let (s0, a0) = start(hint);
    let fuel = steps_for(listing);
    if looks_like_endpoint(hint) {
        assert(s0.stage == Stage::Hint);
        let (s1, a1) = next(s0, reply(a0, live, listing));
        if live.contains(hint) {
            assert(a1 == ActionView::Found(hint));
            assert(run(s1, a1, live, listing, (fuel - 1) as nat) == seq![a1]);
            assert(run(s0, a0, live, listing, fuel) =~= expected_trace(hint, live, listing));
        } else {
            assert(a1 == ActionView::Remove(hint));
            assert(s1.stage == Stage::HintDead);
            let (s2, a2) = next(s1, reply(a1, live, listing));
            assert((s2, a2) == after_hint(s1));
            lemma_run_directory(s1, live, listing, (fuel - 2) as nat);
            assert(run(s1, a1, live, listing, (fuel - 1) as nat) == seq![a1].add(
                directory_trace(hint, live, listing),
            ));
            assert(run(s0, a0, live, listing, fuel) =~= expected_trace(hint, live, listing));
        }
    } else {
        lemma_run_directory(s0, live, listing, fuel);
    }
}

proof fn lemma_contains_add(a: Seq<ActionView>, b: Seq<ActionView>, x: ActionView)
    ensures
        a.add(b).contains(x) <==> a.contains(x) || b.contains(x),
{
    if a.contains(x) {
        let k = choose|k: int| 0 <= k < a.len() && a[k] == x;
        assert(a.add(b)[k] == x);
    }
    if b.contains(x) {
        let k = choose|k: int| 0 <= k < b.len() && b[k] == x;
        assert(a.add(b)[a.len() + k] == x);
    }
    if a.add(b).contains(x) {
        let k = choose|k: int| 0 <= k < a.add(b).len() && a.add(b)[k] == x;
        if k < a.len() {
            assert(a[k] == x);
        } else {
            assert(b[k - a.len()] == x);
        }
    }
}

/// The end of a scan from index `i`.
pub open spec fn scan_outcome(v: Seq<Seq<char>>, i: int, live: Set<Seq<char>>) -> ActionView {
    let j = first_live(v, i, live);
    if j < v.len() {
        ActionView::Found(v[j])
    } else {
        ActionView::NotFound
    }
}

proof fn lemma_scan_facts(v: Seq<Seq<char>>, i: int, live: Set<Seq<char>>)
    requires
        0 <= i <= v.len(),
    ensures
        scan_trace(v, i, live).len() > 0,
        scan_trace(v, i, live).last() == scan_outcome(v, i, live),
        i <= first_live(v, i, live) <= v.len(),
        forall|p: Seq<char>|
            removes(scan_trace(v, i, live), p) ==> looks_like_endpoint(p) && !live.contains(p),
        forall|p: Seq<char>| connects(scan_trace(v, i, live), p) ==> looks_like_endpoint(p),
        forall|j: int|
            i <= j < first_live(v, i, live) && looks_like_endpoint(v[j]) ==> removes(
                scan_trace(v, i, live),
                #[trigger] v[j],
            ),
    decreases v.len() - i,
{
    if i < v.len() {
        lemma_scan_facts(v, i + 1, live);
        let rest = scan_trace(v, i + 1, live);
        let t = scan_trace(v, i, live);
        if looks_like_endpoint(v[i]) {
            let head = seq![ActionView::Connect(v[i]), ActionView::Remove(v[i])];
            if live.contains(v[i]) {
                assert forall|p: Seq<char>| removes(t, p) implies false by {
                    let k = choose|k: int| 0 <= k < t.len() && t[k] == ActionView::Remove(p);
                }
                assert forall|p: Seq<char>| connects(t, p) implies looks_like_endpoint(p) by {
                    let k = choose|k: int| 0 <= k < t.len() && t[k] == ActionView::Connect(p);
                }
            } else {
                assert(t == head.add(rest));
                assert(head[1] == ActionView::Remove(v[i]));
                lemma_contains_add(head, rest, ActionView::Remove(v[i]));
                assert forall|p: Seq<char>| removes(t, p) implies looks_like_endpoint(p)
                    && !live.contains(p) by {
                    lemma_contains_add(head, rest, ActionView::Remove(p));
                    if head.contains(ActionView::Remove(p)) {
                        let k = choose|k: int|
                            0 <= k < head.len() && head[k] == ActionView::Remove(p);
                    }
                }
                assert forall|p: Seq<char>| connects(t, p) implies looks_like_endpoint(p) by {
                    lemma_contains_add(head, rest, ActionView::Connect(p));
                    if head.contains(ActionView::Connect(p)) {
                        let k = choose|k: int|
                            0 <= k < head.len() && head[k] == ActionView::Connect(p);
                    }
                }
                assert forall|j: int|
                    i <= j < first_live(v, i, live) && looks_like_endpoint(v[j]) implies removes(
                    t,
                    #[trigger] v[j],
                ) by {
                    lemma_contains_add(head, rest, ActionView::Remove(v[j]));
                }
            }
        }
    }
}

/// How every search ends, in words of `outcome`: the hint where it is live,
/// else the first live socket of its directory, else nothing; and a failure
/// exactly where the directory is needed and cannot be listed.
pub proof fn law_outcome(hint: Seq<char>, live: Set<Seq<char>>, listing: Option<Seq<Seq<char>>>)
    requires
        fits(listing),
    ensures
        resolution(hint, live, listing).last() == outcome(hint, live, listing),
        resolution(hint, live, listing).last().is_final(),
{
    law_resolution_trace(hint, live, listing);
    if let Some(v) = listing {
        lemma_scan_facts(v, 0, live);
    }
}

/// A search connects only to paths that follow the naming convention, and
/// removes only those that follow it and refused the connection: a live
/// socket is never removed, nor any file with another name.
pub proof fn law_removes_only_dead_candidates(
    hint: Seq<char>,
    live: Set<Seq<char>>,
    listing: Option<Seq<Seq<char>>>,
    p: Seq<char>,
)
    requires
        fits(listing),
    ensures
        connects(resolution(hint, live, listing), p) ==> looks_like_endpoint(p),
        removes(resolution(hint, live, listing), p) ==> looks_like_endpoint(p) && !live.contains(p),
{
    law_resolution_trace(hint, live, listing);
    let d = directory_trace(hint, live, listing);
    let t = expected_trace(hint, live, listing);
    if let Some(dir) = parent_of(hint) {
        let tail = match listing {
            Some(v) => scan_trace(v, 0, live),
            None => seq![ActionView::Failed],
        };
        if let Some(v) = listing {
            lemma_scan_facts(v, 0, live);
        }
        lemma_contains_add(seq![ActionView::ReadDir(dir)], tail, ActionView::Remove(p));
        lemma_contains_add(seq![ActionView::ReadDir(dir)], tail, ActionView::Connect(p));
        if tail.contains(ActionView::Remove(p)) || tail.contains(ActionView::Connect(p)) {
            if listing is None {
                let k = choose|k: int| 0 <= k < tail.len() && (tail[k] == ActionView::Remove(p) || tail[k] == ActionView::Connect(p));
            }
        }
        assert(!seq![ActionView::ReadDir(dir)].contains(ActionView::Remove(p)));
        assert(!seq![ActionView::ReadDir(dir)].contains(ActionView::Connect(p)));
    }
    if d.contains(ActionView::Remove(p)) || d.contains(ActionView::Connect(p)) {
        if parent_of(hint) is None {
            let k = choose|k: int| 0 <= k < d.len() && (d[k] == ActionView::Remove(p) || d[k] == ActionView::Connect(p));
        }
    }
    if looks_like_endpoint(hint) {
        let head = seq![ActionView::Connect(hint), ActionView::Remove(hint)];
        if live.contains(hint) {
            if t.contains(ActionView::Remove(p)) {
                let k = choose|k: int| 0 <= k < t.len() && t[k] == ActionView::Remove(p);
            }
            if t.contains(ActionView::Connect(p)) {
                let k = choose|k: int| 0 <= k < t.len() && t[k] == ActionView::Connect(p);
            }
        } else {
            lemma_contains_add(head, d, ActionView::Remove(p));
            lemma_contains_add(head, d, ActionView::Connect(p));
            if head.contains(ActionView::Remove(p)) {
                let k = choose|k: int| 0 <= k < head.len() && head[k] == ActionView::Remove(p);
            }
            if head.contains(ActionView::Connect(p)) {
                let k = choose|k: int| 0 <= k < head.len() && head[k] == ActionView::Connect(p);
            }
        }
    }
}

/// Every dead socket that a search comes across is removed: the hint, where it
/// follows the naming convention and is dead, and each entry that follows it
/// and comes before the first live one in the listing.
pub proof fn law_dead_candidates_removed(
    hint: Seq<char>,
    live: Set<Seq<char>>,
    listing: Option<Seq<Seq<char>>>,
)
    requires
        fits(listing),
    ensures
        looks_like_endpoint(hint) && !live.contains(hint) ==> removes(
            resolution(hint, live, listing),
            hint,
        ),
        forall|v: Seq<Seq<char>>, j: int|
            listing == Some(v) && parent_of(hint) is Some && !(looks_like_endpoint(hint)
                && live.contains(hint)) && 0 <= j < first_live(v, 0, live) && looks_like_endpoint(
                v[j],
            ) ==> removes(resolution(hint, live, listing), #[trigger] v[j]),
{
    law_resolution_trace(hint, live, listing);
    let d = directory_trace(hint, live, listing);
    let head = seq![ActionView::Connect(hint), ActionView::Remove(hint)];
    if looks_like_endpoint(hint) && !live.contains(hint) {
        lemma_contains_add(head, d, ActionView::Remove(hint));
        assert(head[1] == ActionView::Remove(hint));
    }
    assert forall|v: Seq<Seq<char>>, j: int|
        listing == Some(v) && parent_of(hint) is Some && !(looks_like_endpoint(hint)
            && live.contains(hint)) && 0 <= j < first_live(v, 0, live) && looks_like_endpoint(
            v[j],
        ) implies removes(resolution(hint, live, listing), #[trigger] v[j]) by {
        let dir = parent_of(hint)->Some_0;
        lemma_scan_facts(v, 0, live);
        let tail = scan_trace(v, 0, live);
        assert(removes(tail, v[j]));
        lemma_contains_add(seq![ActionView::ReadDir(dir)], tail, ActionView::Remove(v[j]));
        assert(d == seq![ActionView::ReadDir(dir)].add(tail));
        if looks_like_endpoint(hint) {
            lemma_contains_add(head, d, ActionView::Remove(v[j]));
        }
    }
}

proof fn lemma_scan_without_candidates(v: Seq<Seq<char>>, i: int, live: Set<Seq<char>>)
    requires
        0 <= i <= v.len(),
        forall|j: int| i <= j < v.len() ==> !looks_like_endpoint(#[trigger] v[j]),
    ensures
        scan_trace(v, i, live) == seq![ActionView::NotFound],
    decreases v.len() - i,
{
    if i < v.len() {
        lemma_scan_without_candidates(v, i + 1, live);
    }
}

/// Searching again right after a search that found nothing finds nothing
/// again and removes nothing that the first search left: given the same live
/// sockets, and a directory that now lists only entries that it listed before
/// and that the first search did not remove.
pub proof fn law_search_again_removes_nothing_new(
    hint: Seq<char>,
    live: Set<Seq<char>>,
    first: Seq<Seq<char>>,
    again: Seq<Seq<char>>,
)
    requires
        first.len() <= usize::MAX,
        again.len() <= usize::MAX,
        resolution(hint, live, Some(first)).last() == ActionView::NotFound,
        forall|j: int|
            0 <= j < again.len() ==> first.contains(#[trigger] again[j]) && !removes(
                resolution(hint, live, Some(first)),
                again[j],
            ),
    ensures
        resolution(hint, live, Some(again)).last() == ActionView::NotFound,
        forall|p: Seq<char>|
            removes(resolution(hint, live, Some(again)), p) ==> removes(
                resolution(hint, live, Some(first)),
                p,
            ),
{
    let t1 = resolution(hint, live, Some(first));
    let t2 = resolution(hint, live, Some(again));
    law_outcome(hint, live, Some(first));
    law_dead_candidates_removed(hint, live, Some(first));
    law_resolution_trace(hint, live, Some(again));
    lemma_scan_facts(first, 0, live);
    if let Some(dir) = parent_of(hint) {
        assert forall|j: int| 0 <= j < again.len() implies !looks_like_endpoint(
            #[trigger] again[j],
        ) by {
            let m = choose|m: int| 0 <= m < first.len() && first[m] == again[j];
            if looks_like_endpoint(again[j]) {
                assert(removes(t1, first[m]));
            }
        }
        lemma_scan_without_candidates(again, 0, live);
    }
    let d2 = directory_trace(hint, live, Some(again));
    assert forall|p: Seq<char>| !removes(d2, p) by {
        if d2.contains(ActionView::Remove(p)) {
            let k = choose|k: int| 0 <= k < d2.len() && d2[k] == ActionView::Remove(p);
        }
    }
    assert forall|p: Seq<char>| removes(t2, p) implies removes(t1, p) by {
        if looks_like_endpoint(hint) {
            let head = seq![ActionView::Connect(hint), ActionView::Remove(hint)];
            lemma_contains_add(head, d2, ActionView::Remove(p));
            if head.contains(ActionView::Remove(p)) {
                let k = choose|k: int| 0 <= k < head.len() && head[k] == ActionView::Remove(p);
            }
        }
    }
    law_outcome(hint, live, Some(again));
}

/// A live hint that follows the naming convention is the result, and is not
/// removed.
pub proof fn law_live_hint_kept(hint: Seq<char>, live: Set<Seq<char>>, listing: Option<Seq<Seq<char>>>)
    requires
        fits(listing),
        looks_like_endpoint(hint),
        live.contains(hint),
    ensures
        resolution(hint, live, listing).last() == ActionView::Found(hint),
        !removes(resolution(hint, live, listing), hint),
{
    law_outcome(hint, live, listing);
    law_removes_only_dead_candidates(hint, live, listing, hint);
}

/// A dead hint that follows the naming convention, in a directory that lists
/// no live socket that follows it, gives no result and is removed.
pub proof fn law_dead_hint_alone_removed(hint: Seq<char>, live: Set<Seq<char>>, v: Seq<Seq<char>>)
    requires
        v.len() <= usize::MAX,
        looks_like_endpoint(hint),
        !live.contains(hint),
        parent_of(hint) is Some,
        forall|j: int| 0 <= j < v.len() && looks_like_endpoint(#[trigger] v[j]) ==> !live.contains(v[j]),
    ensures
        resolution(hint, live, Some(v)).last() == ActionView::NotFound,
        removes(resolution(hint, live, Some(v)), hint),
{
    law_outcome(hint, live, Some(v));
    law_dead_candidates_removed(hint, live, Some(v));
    lemma_no_live_entry(v, 0, live);
}

/// A dead hint beside one live socket that follows the naming convention: the
/// live one is the result and stays, the hint is removed.
pub proof fn law_dead_hint_live_sibling(
    hint: Seq<char>,
    sibling: Seq<char>,
    live: Set<Seq<char>>,
    v: Seq<Seq<char>>,
)
    requires
        v.len() <= usize::MAX,
        looks_like_endpoint(hint),
        !live.contains(hint),
        parent_of(hint) is Some,
        looks_like_endpoint(sibling),
        live.contains(sibling),
        v.contains(sibling),
        forall|j: int|
            0 <= j < v.len() && looks_like_endpoint(#[trigger] v[j]) && live.contains(v[j])
                ==> v[j] == sibling,
    ensures
        resolution(hint, live, Some(v)).last() == ActionView::Found(sibling),
        removes(resolution(hint, live, Some(v)), hint),
        !removes(resolution(hint, live, Some(v)), sibling),
{
    law_outcome(hint, live, Some(v));
    law_dead_candidates_removed(hint, live, Some(v));
    law_removes_only_dead_candidates(hint, live, Some(v), sibling);
    let m = choose|m: int| 0 <= m < v.len() && v[m] == sibling;
    lemma_first_live_found(v, 0, m, live);
}

/// Where the hint is not a live socket that follows the naming convention and
/// its directory cannot be listed, the search fails rather than ending empty.
pub proof fn law_unlistable_directory_fails(hint: Seq<char>, live: Set<Seq<char>>)
    requires
        !(looks_like_endpoint(hint) && live.contains(hint)),
        parent_of(hint) is Some,
    ensures
        resolution(hint, live, None).last() == ActionView::Failed,
{
    law_outcome(hint, live, None);
}

proof fn lemma_no_live_entry(v: Seq<Seq<char>>, i: int, live: Set<Seq<char>>)
    requires
        0 <= i <= v.len(),
        forall|j: int| 0 <= j < v.len() && looks_like_endpoint(#[trigger] v[j]) ==> !live.contains(v[j]),
    ensures
        first_live(v, i, live) == v.len(),
    decreases v.len() - i,
{
    if i < v.len() {
        lemma_no_live_entry(v, i + 1, live);
    }
}

proof fn lemma_first_live_found(v: Seq<Seq<char>>, i: int, m: int, live: Set<Seq<char>>)
    requires
        0 <= i <= m < v.len(),
        looks_like_endpoint(v[m]),
        live.contains(v[m]),
    ensures
        i <= first_live(v, i, live) <= m,
        looks_like_endpoint(v[first_live(v, i, live)]),
        live.contains(v[first_live(v, i, live)]),
    decreases m - i,
{
    if i < m {
        lemma_first_live_found(v, i + 1, m, live);
    }
}

} // verus!
