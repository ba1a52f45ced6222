//! The pairwise conflict index: for every word, the list of conflicts it
//! takes part in, each conflict recorded under both of its words.

use vstd::prelude::*;

use crate::compatibility::ConflictKind;
use crate::compatibility::WordCompatibilitySettings;
use crate::compatibility::compatibility_issue;
use crate::compatibility::kind_reported;
use crate::compatibility::lemma_accepted_kind_not_reported;
use crate::compatibility::lemma_issue_symmetric;
use crate::word::PlacedWord;

verus! {

/// The conflict list of word `i` against the words with index below `m`:
/// one entry `(kind, j)` for every `j < m`, in ascending order, whose pair
/// with `i` the predicate reports.
pub open spec fn conflicts_upto(
    ws: Seq<PlacedWord>,
    s: WordCompatibilitySettings,
    i: int,
    m: int,
) -> Seq<(ConflictKind, usize)>
    decreases m,
{
    if m <= 0 {
        Seq::empty()
    } else if m - 1 == i {
        conflicts_upto(ws, s, i, m - 1)
    } else {
        match compatibility_issue(s, ws[i], ws[m - 1]) {
            Some(k) => conflicts_upto(ws, s, i, m - 1).push((k, (m - 1) as usize)),
            None => conflicts_upto(ws, s, i, m - 1),
        }
    }
}

/// The full conflict list of word `i` over a word set.
pub open spec fn conflict_list(
    ws: Seq<PlacedWord>,
    s: WordCompatibilitySettings,
    i: int,
) -> Seq<(ConflictKind, usize)> {
    conflicts_upto(ws, s, i, ws.len() as int)
}

/// Every entry of a conflict list names a distinct other word on which the
/// predicate reports exactly that kind.
pub proof fn lemma_conflicts_upto_entry(
    ws: Seq<PlacedWord>,
    s: WordCompatibilitySettings,
    i: int,
    m: int,
    e: (ConflictKind, usize),
)
    requires
        m <= usize::MAX,
        conflicts_upto(ws, s, i, m).contains(e),
    ensures
        e.1 < m,
        e.1 != i,
        compatibility_issue(s, ws[i], ws[e.1 as int]) == Some(e.0),
    decreases m,
{
    if m <= 0 {
    } else if m - 1 == i {
        lemma_conflicts_upto_entry(ws, s, i, m - 1, e);
    } else {
        match compatibility_issue(s, ws[i], ws[m - 1]) {
            Some(k) => {
                let pre = conflicts_upto(ws, s, i, m - 1);
                if e == (k, (m - 1) as usize) {
                } else {
                    let pushed = pre.push((k, (m - 1) as usize));
                    assert(pushed.contains(e));
                    assert(pre.contains(e)) by {
                        let t = choose|t: int| 0 <= t < pushed.len() && #[trigger] pushed[t] == e;
                        assert(pre[t] == e);
                    }
                    lemma_conflicts_upto_entry(ws, s, i, m - 1, e);
                }
            },
            None => {
                lemma_conflicts_upto_entry(ws, s, i, m - 1, e);
            },
        }
    }
}

/// Conversely, every reported pair below the bound appears in the list.
pub proof fn lemma_conflicts_upto_complete(
    ws: Seq<PlacedWord>,
    s: WordCompatibilitySettings,
    i: int,
    m: int,
    j: int,
    k: ConflictKind,
)
    requires
        m <= usize::MAX,
        0 <= j < m,
        j != i,
        compatibility_issue(s, ws[i], ws[j]) == Some(k),
    ensures
        conflicts_upto(ws, s, i, m).contains((k, j as usize)),
    decreases m,
{
    if j == m - 1 {
        let pre = conflicts_upto(ws, s, i, m - 1);
        assert(conflicts_upto(ws, s, i, m) == pre.push((k, j as usize)));
        assert(conflicts_upto(ws, s, i, m)[pre.len() as int] == (k, j as usize));
    } else {
        lemma_conflicts_upto_complete(ws, s, i, m - 1, j, k);
        let pre = conflicts_upto(ws, s, i, m - 1);
        let t = choose|t: int| 0 <= t < pre.len() && pre[t] == (k, j as usize);
        if m - 1 == i {
        } else {
            match compatibility_issue(s, ws[i], ws[m - 1]) {
                Some(k2) => {
                    assert(conflicts_upto(ws, s, i, m)[t] == (k, j as usize));
                },
                None => {},
            }
        }
    }
}

/// A conflict list names its partners in strictly ascending order, below
/// the bound: in particular, no partner is recorded twice.
pub proof fn lemma_conflicts_upto_ascending(
    ws: Seq<PlacedWord>,
    s: WordCompatibilitySettings,
    i: int,
    m: int,
)
    requires
        m <= usize::MAX,
    ensures
        forall|t: int|
            0 <= t < conflicts_upto(ws, s, i, m).len() ==> (#[trigger] conflicts_upto(
                ws,
                s,
                i,
                m,
            )[t]).1 < m,
        forall|t1: int, t2: int|
            0 <= t1 < t2 < conflicts_upto(ws, s, i, m).len() ==> (conflicts_upto(ws, s, i, m)[t1]).1
                < (conflicts_upto(ws, s, i, m)[t2]).1,
    decreases m,
{
    if m <= 0 {
    } else {
        lemma_conflicts_upto_ascending(ws, s, i, m - 1);
        let pre = conflicts_upto(ws, s, i, m - 1);
        let cur = conflicts_upto(ws, s, i, m);
        assert forall|t: int| 0 <= t < cur.len() implies (#[trigger] cur[t]).1 < m by {
            if t < pre.len() {
                assert(cur[t] == pre[t]);
            }
        }
        assert forall|t1: int, t2: int| 0 <= t1 < t2 < cur.len() implies (cur[t1]).1 < (
        cur[t2]).1 by {
            if t2 < pre.len() {
                assert(cur[t1] == pre[t1] && cur[t2] == pre[t2]);
            } else if t2 == pre.len() && cur.len() > pre.len() {
                assert(cur[t1] == pre[t1]);
                assert(pre[t1].1 < m - 1);
                assert(cur[t2].1 == m - 1);
            }
        }
    }
}

/// Every conflict is recorded under both of its words: word `i` lists a
/// conflict of kind `k` with word `j` exactly when word `j` lists one of
/// the same kind with word `i`.
pub proof fn lemma_index_symmetric(
    ws: Seq<PlacedWord>,
    s: WordCompatibilitySettings,
    i: int,
    j: int,
    k: ConflictKind,
)
    requires
        ws.len() <= usize::MAX,
        0 <= i < ws.len(),
        0 <= j < ws.len(),
    ensures
        conflict_list(ws, s, i).contains((k, j as usize)) <==> conflict_list(ws, s, j).contains(
            (k, i as usize),
        ),
{
    lemma_issue_symmetric(s, ws[i], ws[j]);
    if conflict_list(ws, s, i).contains((k, j as usize)) {
        lemma_conflicts_upto_entry(ws, s, i, ws.len() as int, (k, j as usize));
        lemma_conflicts_upto_complete(ws, s, j, ws.len() as int, i, k);
    }
    if conflict_list(ws, s, j).contains((k, i as usize)) {
        lemma_conflicts_upto_entry(ws, s, j, ws.len() as int, (k, i as usize));
        lemma_conflicts_upto_complete(ws, s, i, ws.len() as int, j, k);
    }
}

/// A kind whose placement the settings accept never appears in the index:
/// accepting a placement removes all conflicts of its kind, for any input.
pub proof fn lemma_accepted_kind_absent(
    ws: Seq<PlacedWord>,
    s: WordCompatibilitySettings,
    i: int,
    k: ConflictKind,
)
    requires
        ws.len() <= usize::MAX,
        !kind_reported(s, k),
    ensures
        forall|t: int|
            0 <= t < conflict_list(ws, s, i).len() ==> (#[trigger] conflict_list(ws, s, i)[t]).0
                != k,
{
    let cl = conflict_list(ws, s, i);
    assert forall|t: int| 0 <= t < cl.len() implies (#[trigger] cl[t]).0 != k by {
        let e = cl[t];
        assert(cl.contains(e));
        lemma_conflicts_upto_entry(ws, s, i, ws.len() as int, e);
        lemma_accepted_kind_not_reported(s, ws[i], ws[e.1 as int], k);
    }
}

/// Builds the pairwise conflict index: entry `i` of the result lists the
/// conflicts of word `i`, one `(kind, other)` pair per conflicting partner in
/// ascending partner order. Every word has an entry, possibly empty. Each
/// unordered pair of words is evaluated once; the partner's entry supplies
/// the verdict for pairs already seen.
pub fn build_conflict_index(
    words: &Vec<PlacedWord>,
    settings: &WordCompatibilitySettings,
) -> (index: Vec<Vec<(ConflictKind, usize)>>)
    requires
        forall|i: int| 0 <= i < words@.len() ==> (#[trigger] words@[i]).valid(),
    ensures
        index@.len() == words@.len(),
        forall|i: int|
            0 <= i < words@.len() ==> (#[trigger] index@[i])@ == conflict_list(
                words@,
                *settings,
                i,
            ),
{
    let ghost ws = words@;
    let ghost s = *settings;
    let n = words.len();
    let mut index: Vec<Vec<(ConflictKind, usize)>> = Vec::new();
    let mut i: usize = 0;
    while i < n
        invariant
            n == ws.len(),
            ws == words@,
            s == *settings,
            forall|w: int| 0 <= w < ws.len() ==> (#[trigger] ws[w]).valid(),
            i <= n,
            index@.len() == i,
            forall|w: int| 0 <= w < i ==> (#[trigger] index@[w])@ == conflict_list(ws, s, w),
        decreases n - i,
    {
        let mut row: Vec<(ConflictKind, usize)> = Vec::new();
        let mut j: usize = 0;
        // pairs with earlier words were already evaluated: read their entries
        while j < i
            invariant
                n == ws.len(),
                ws == words@,
                s == *settings,
                forall|w: int| 0 <= w < ws.len() ==> (#[trigger] ws[w]).valid(),
                j <= i < n,
                index@.len() == i,
                forall|w: int| 0 <= w < i ==> (#[trigger] index@[w])@ == conflict_list(ws, s, w),
                row@ == conflicts_upto(ws, s, i as int, j as int),
            decreases i - j,
        {
            let rj = &index[j];
            let mut t: usize = 0;
            let mut found: Option<ConflictKind> = None;
            while t < rj.len()
                invariant
                    t <= rj@.len(),
                    match found {
                        Some(k) => rj@.contains((k, i)),
                        None => forall|u: int| 0 <= u < t ==> (#[trigger] rj@[u]).1 != i,
                    },
                decreases rj@.len() - t,
            {
                if found.is_none() && rj[t].1 == i {
                    found = Some(rj[t].0);
                }
                t += 1;
            }
            proof {
                lemma_issue_symmetric(s, ws[i as int], ws[j as int]);
                match found {
                    Some(k) => {
                        lemma_conflicts_upto_entry(ws, s, j as int, ws.len() as int, (k, i));
                    },
                    None => {
                        if compatibility_issue(s, ws[i as int], ws[j as int]) is Some {
                            let k0 = compatibility_issue(s, ws[i as int], ws[j as int])->Some_0;
                            lemma_conflicts_upto_complete(
                                ws,
                                s,
                                j as int,
                                ws.len() as int,
                                i as int,
                                k0,
                            );
                            let u = choose|u: int|
                                0 <= u < rj@.len() && rj@[u] == (k0, i as usize);
                            assert(rj@[u].1 == i);
                            assert(false);
                        }
                    },
                }
            }
            match found {
                Some(k) => row.push((k, j)),
                None => {},
            }
            j += 1;
        }
        let mut j2: usize = i + 1;
        proof {
            assert(conflicts_upto(ws, s, i as int, i + 1 as int) == conflicts_upto(
                ws,
                s,
                i as int,
                i as int,
            ));
        }
        while j2 < n
            invariant
                n == ws.len(),
                ws == words@,
                s == *settings,
                forall|w: int| 0 <= w < ws.len() ==> (#[trigger] ws[w]).valid(),
                i < n,
                i < j2 <= n,
                row@ == conflicts_upto(ws, s, i as int, j2 as int),
            decreases n - j2,
        {
            match settings.word_compatibility_issue(&words[i], &words[j2]) {
                Some(k) => row.push((k, j2)),
                None => {},
            }
            j2 += 1;
        }
        index.push(row);
        i += 1;
    }
    index
}

} // verus!
