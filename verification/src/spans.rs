//! The conflict span resolver: for each adjacency conflict, the interval of
//! perimeter offsets along a word's bounding outline where the conflict is
//! highlighted.
//!
//! Perimeter offsets walk clockwise around the word's bounding rectangle.
//! For a word of length `L` pointing `Right`, offsets `0..=L-1` cover the
//! top edge, `L` the right edge, `L+1..=2L` the bottom edge (right to left)
//! and `2L+1` the left edge. For a `Down` word, offset `0` covers the top
//! edge, `1..=L` the right edge, `L+1` the bottom edge and `L+2..=2L+1` the
//! left edge (bottom to top). The perimeter has `2L+2` offsets in total, and
//! a span may wrap around offset `0`.

use vstd::prelude::*;

use crate::compatibility::ConflictKind;
use crate::compatibility::WordCompatibilitySettings;
use crate::compatibility::compatibility_issue;
use crate::compatibility::raw_issue;
use crate::conflict_index::conflict_list;
use crate::conflict_index::lemma_conflicts_upto_entry;
use crate::occupancy::rows_view;
use crate::word::Direction;
use crate::word::PlacedWord;
use vstd::math::max;
use vstd::math::min;

verus! {

/// An interval of perimeter offsets around a word's outline, possibly
/// wrapping past offset zero.
#[derive(Clone, Copy, Debug, PartialEq, Eq, Structural)]
pub struct PerimeterSpan {
    pub start: usize,
    pub end: usize,
}

/// One resolved conflict highlight: the perimeter span on `word`'s outline
/// facing `other`.
#[derive(Clone, Copy, Debug, PartialEq, Eq, Structural)]
pub struct ConflictSpan {
    pub kind: ConflictKind,
    pub word: usize,
    pub span: PerimeterSpan,
    pub other: usize,
}

/// The perimeter span on `a`'s outline for a conflict of kind `k` with `b`,
/// as a pair `(start, end)` of offsets modulo `2 * a.len() + 2`.
///
/// Only the four adjacency kinds carry spans; for the two cell-level kinds
/// the result is the empty placeholder `(0, 0)`.
pub open spec fn spec_span(k: ConflictKind, a: PlacedWord, b: PlacedWord) -> (int, int) {
    let l = a.spec_len();
    let ol = b.spec_len();
    let ax = a.box_x();
    let ay = a.box_y();
    let bx = b.box_x();
    let by = b.box_y();
    let wrap = 2 * l + 2;
    match k {
        ConflictKind::CornerByCorner => {
            if bx < ax {
                if by < ay {
                    (2 * l + 1, 0)
                } else {
                    if a.direction == Direction::Down {
                        (l + 1, l + 2)
                    } else {
                        (2 * l, 2 * l + 1)
                    }
                }
            } else {
                if by < ay {
                    if a.direction == Direction::Down {
                        (0, 1)
                    } else {
                        (l - 1, l)
                    }
                } else {
                    (l, l + 1)
                }
            }
        },
        ConflictKind::HeadByHead => {
            if a.direction == Direction::Right {
                if bx + by < ax + ay {
                    (2 * l, 0)
                } else {
                    (l - 1, l + 1)
                }
            } else {
                if bx + by < ax + ay {
                    (2 * l + 1, 1)
                } else {
                    (l, l + 2)
                }
            }
        },
        ConflictKind::SideBySide => {
            if a.direction == Direction::Right {
                if by < ay {
                    ((max(-1, bx - ax - 1) + wrap) % wrap, min(bx + ol - ax - l + l, l))
                } else {
                    (max(l, ax + l - (bx + ol) + l), min(ax - bx + 2 * l + 1, 2 * l + 1))
                }
            } else {
                if bx < ax {
                    (max(l + 1, ay + l - (by + ol) + l + 1), min(ay - by + wrap, wrap) % wrap)
                } else {
                    (max(0, by - ay), min(by + ol - (ay + l) + l + 1, l + 1))
                }
            }
        },
        ConflictKind::SideByHead => {
            let aw = a.box_w();
            let ah = a.box_h();
            let bw = b.box_w();
            let bh = b.box_h();
            if ax >= bx + bw {
                // the other word lies to the left
                if a.direction == Direction::Right {
                    (2 * l, 0)
                } else {
                    (ay - by + 2 * l, (ay - by + wrap) % wrap)
                }
            } else if ay + ah <= by {
                // the other word lies below
                if a.direction == Direction::Right {
                    (ax - bx + 2 * l - 1, ax - bx + 2 * l + 1)
                } else {
                    (l, l + 2)
                }
            } else if ay >= by + bh {
                // the other word lies above
                if a.direction == Direction::Right {
                    ((bx - ax + 2 * l + 1) % wrap, bx - ax + 1)
                } else {
                    (2 * l + 1, 1)
                }
            } else {
                // the other word lies to the right
                if a.direction == Direction::Right {
                    (l - 1, l + 1)
                } else {
                    (by - ay, by - ay + 2)
                }
            }
        },
        _ => (0, 0),
    }
}

/// Resolves the perimeter span on `a`'s outline for its conflict of kind
/// `k` with `b`. Both offsets lie below `2 * a.len() + 2`.
pub fn resolve_span(k: ConflictKind, a: &PlacedWord, b: &PlacedWord) -> (r: PerimeterSpan)
    requires
        a.valid(),
        b.valid(),
        raw_issue(*a, *b) == Some(k),
        k != ConflictKind::InvalidIntersection,
        k != ConflictKind::DirectOverlap,
    ensures
        r.start == spec_span(k, *a, *b).0,
        r.end == spec_span(k, *a, *b).1,
        r.start < 2 * a.spec_len() + 2,
        r.end < 2 * a.spec_len() + 2,
{
    assert(a.value@.len() <= 65536);
    assert(b.value@.len() <= 65536);
    let l = a.value.len() as i32;
    let ol = b.value.len() as i32;
    let ax = a.position.x as i32;
    let ay = a.position.y as i32;
    let bx = b.position.x as i32;
    let by = b.position.y as i32;
    let wrap = 2 * l + 2;
    let (s, e): (i32, i32) = match k {
        ConflictKind::CornerByCorner => {
            if bx < ax {
                if by < ay {
                    (2 * l + 1, 0)
                } else {
                    if matches!(a.direction, Direction::Down) {
                        (l + 1, l + 2)
                    } else {
                        (2 * l, 2 * l + 1)
                    }
                }
            } else {
                if by < ay {
                    if matches!(a.direction, Direction::Down) {
                        (0, 1)
                    } else {
                        (l - 1, l)
                    }
                } else {
                    (l, l + 1)
                }
            }
        },
        ConflictKind::HeadByHead => {
            if matches!(a.direction, Direction::Right) {
                if bx + by < ax + ay {
                    (2 * l, 0)
                } else {
                    (l - 1, l + 1)
                }
            } else {
                if bx + by < ax + ay {
                    (2 * l + 1, 1)
                } else {
                    (l, l + 2)
                }
            }
        },
        ConflictKind::SideBySide => {
            if matches!(a.direction, Direction::Right) {
                if by < ay {
                    let s0 = if -1 >= bx - ax - 1 {
                        -1i32
                    } else {
                        bx - ax - 1
                    };
                    let e0 = if bx + ol - ax <= l {
                        bx + ol - ax
                    } else {
                        l
                    };
                    ((s0 + wrap) % wrap, e0)
                } else {
                    let s0 = if l >= ax + l - (bx + ol) + l {
                        l
                    } else {
                        ax + l - (bx + ol) + l
                    };
                    let e0 = if ax - bx + 2 * l + 1 <= 2 * l + 1 {
                        ax - bx + 2 * l + 1
                    } else {
                        2 * l + 1
                    };
                    (s0, e0)
                }
            } else {
                if bx < ax {
                    let s0 = if l + 1 >= ay + l - (by + ol) + l + 1 {
                        l + 1
                    } else {
                        ay + l - (by + ol) + l + 1
                    };
                    let e0 = if ay - by + wrap <= wrap {
                        ay - by + wrap
                    } else {
                        wrap
                    };
                    (s0, e0 % wrap)
                } else {
                    let s0 = if 0 >= by - ay {
                        0i32
                    } else {
                        by - ay
                    };
                    let e0 = if by + ol - (ay + l) + l + 1 <= l + 1 {
                        by + ol - (ay + l) + l + 1
                    } else {
                        l + 1
                    };
                    (s0, e0)
                }
            }
        },
        ConflictKind::SideByHead => {
            let (aw, ah): (i32, i32) = match a.direction {
                Direction::Right => (l, 1),
                Direction::Down => (1, l),
            };
            let (bw, bh): (i32, i32) = match b.direction {
                Direction::Right => (ol, 1),
                Direction::Down => (1, ol),
            };
            if ax >= bx + bw {
                if matches!(a.direction, Direction::Right) {
                    (2 * l, 0)
                } else {
                    (ay - by + 2 * l, (ay - by + wrap) % wrap)
                }
            } else if ay + ah <= by {
                if matches!(a.direction, Direction::Right) {
                    (ax - bx + 2 * l - 1, ax - bx + 2 * l + 1)
                } else {
                    (l, l + 2)
                }
            } else if ay >= by + bh {
                if matches!(a.direction, Direction::Right) {
                    ((bx - ax + 2 * l + 1) % wrap, bx - ax + 1)
                } else {
                    (2 * l + 1, 1)
                }
            } else {
                if matches!(a.direction, Direction::Right) {
                    (l - 1, l + 1)
                } else {
                    (by - ay, by - ay + 2)
                }
            }
        },
        _ => (0, 0),
    };
    assert(0 <= s < 2 * a.spec_len() + 2);
    assert(0 <= e < 2 * a.spec_len() + 2);
    PerimeterSpan { start: s as usize, end: e as usize }
}

/// Whether an index entry of word `w` can be resolved to a span: its
/// partner exists and, for the adjacency kinds, the recorded kind is the
/// pair's geometric relation.
pub open spec fn entry_resolvable(ws: Seq<PlacedWord>, w: int, e: (ConflictKind, usize)) -> bool {
    &&& e.1 < ws.len()
    &&& (e.0 != ConflictKind::InvalidIntersection && e.0 != ConflictKind::DirectOverlap)
        ==> raw_issue(ws[w], ws[e.1 as int]) == Some(e.0)
}

/// Whether every entry of a conflict index can be resolved to a span.
pub open spec fn index_resolvable(ws: Seq<PlacedWord>, idx: Seq<Seq<(ConflictKind, usize)>>) -> bool {
    forall|w: int, t: int|
        0 <= w < idx.len() && 0 <= t < idx[w].len() ==> entry_resolvable(ws, w, #[trigger] idx[w][t])
}

/// A conflict index built for a word set is resolvable: the predicate
/// reports an adjacency kind only for pairs in that geometric relation.
pub proof fn lemma_conflict_lists_resolvable(
    ws: Seq<PlacedWord>,
    s: WordCompatibilitySettings,
    idx: Seq<Seq<(ConflictKind, usize)>>,
)
    requires
        ws.len() <= usize::MAX,
        idx.len() == ws.len(),
        forall|i: int|
            0 <= i < ws.len() ==> #[trigger] idx[i] == conflict_list(ws, s, i),
    ensures
        index_resolvable(ws, idx),
{
    assert forall|w: int, t: int|
        0 <= w < idx.len() && 0 <= t < idx[w].len() implies entry_resolvable(
        ws,
        w,
        #[trigger] idx[w][t],
    ) by {
        let e = idx[w][t];
        assert(conflict_list(ws, s, w).contains(e));
        lemma_conflicts_upto_entry(ws, s, w, ws.len() as int, e);
        assert(compatibility_issue(s, ws[w], ws[e.1 as int]) == Some(e.0));
    }
}

/// The spans resolved from the first `t` conflicts of word `w`: one record
/// per adjacency conflict, in order; the two cell-level kinds carry no span.
pub open spec fn row_spans(
    ws: Seq<PlacedWord>,
    row: Seq<(ConflictKind, usize)>,
    w: usize,
    t: int,
) -> Seq<ConflictSpan>
    decreases t,
{
    if t <= 0 {
        Seq::empty()
    } else {
        let pre = row_spans(ws, row, w, t - 1);
        let e = row[t - 1];
        if e.0 == ConflictKind::InvalidIntersection || e.0 == ConflictKind::DirectOverlap {
            pre
        } else {
            pre.push(
                (ConflictSpan {
                    kind: e.0,
                    word: w,
                    span: (PerimeterSpan {
                        start: spec_span(e.0, ws[w as int], ws[e.1 as int]).0 as usize,
                        end: spec_span(e.0, ws[w as int], ws[e.1 as int]).1 as usize,
                    }),
                    other: e.1,
                }),
            )
        }
    }
}

/// The spans resolved from the conflict lists of the first `m` words.
pub open spec fn all_spans_upto(
    ws: Seq<PlacedWord>,
    idx: Seq<Seq<(ConflictKind, usize)>>,
    m: int,
) -> Seq<ConflictSpan>
    decreases m,
{
    if m <= 0 {
        Seq::empty()
    } else {
        all_spans_upto(ws, idx, m - 1) + row_spans(
            ws,
            idx[m - 1],
            (m - 1) as usize,
            idx[m - 1].len() as int,
        )
    }
}

/// The spans resolved from a whole conflict index.
pub open spec fn all_spans(ws: Seq<PlacedWord>, idx: Seq<Seq<(ConflictKind, usize)>>) -> Seq<
    ConflictSpan,
> {
    all_spans_upto(ws, idx, idx.len() as int)
}

/// Resolves every adjacency conflict of the index to its perimeter span:
/// one record per non-cell-level conflict list entry, in index order. Both
/// offsets of every produced span lie below `2 * len + 2` for the length of
/// the word the span sits on.
pub fn resolve_spans(
    words: &Vec<PlacedWord>,
    index: &Vec<Vec<(ConflictKind, usize)>>,
) -> (spans: Vec<ConflictSpan>)
    requires
        forall|i: int| 0 <= i < words@.len() ==> (#[trigger] words@[i]).valid(),
        index@.len() == words@.len(),
        index_resolvable(words@, rows_view(index@)),
    ensures
        spans@ == all_spans(words@, rows_view(index@)),
        forall|t: int|
            0 <= t < spans@.len() ==> (#[trigger] spans@[t]).word < words@.len()
                && spans@[t].other < words@.len() && spans@[t].span.start < 2 * words@[spans@[t].word as int].spec_len()
                + 2 && spans@[t].span.end < 2 * words@[spans@[t].word as int].spec_len() + 2,
{
    let ghost ws = words@;
    let ghost idx = rows_view(index@);
    let n = words.len();
    let mut spans: Vec<ConflictSpan> = Vec::new();
    let mut w: usize = 0;
    while w < n
        invariant
            n == ws.len(),
            ws == words@,
            idx == rows_view(index@),
            index@.len() == n,
            forall|i: int| 0 <= i < ws.len() ==> (#[trigger] ws[i]).valid(),
            index_resolvable(ws, idx),
            w <= n,
            spans@ == all_spans_upto(ws, idx, w as int),
            forall|t: int|
                0 <= t < spans@.len() ==> (#[trigger] spans@[t]).word < ws.len()
                    && spans@[t].other < ws.len() && spans@[t].span.start < 2 * ws[spans@[t].word as int].spec_len()
                    + 2 && spans@[t].span.end < 2 * ws[spans@[t].word as int].spec_len() + 2,
        decreases n - w,
    {
        let row = &index[w];
        let mut t: usize = 0;
        while t < row.len()
            invariant
                n == ws.len(),
                ws == words@,
                idx == rows_view(index@),
                index@.len() == n,
                forall|i: int| 0 <= i < ws.len() ==> (#[trigger] ws[i]).valid(),
                index_resolvable(ws, idx),
                w < n,
                row@ == idx[w as int],
                t <= row@.len(),
                spans@ == all_spans_upto(ws, idx, w as int) + row_spans(
                    ws,
                    idx[w as int],
                    w,
                    t as int,
                ),
                forall|u: int|
                    0 <= u < spans@.len() ==> (#[trigger] spans@[u]).word < ws.len()
                        && spans@[u].other < ws.len() && spans@[u].span.start < 2 * ws[spans@[u].word as int].spec_len()
                        + 2 && spans@[u].span.end < 2 * ws[spans@[u].word as int].spec_len() + 2,
            decreases row@.len() - t,
        {
            let (k, j) = row[t];
            proof {
                assert(entry_resolvable(ws, w as int, idx[w as int][t as int]));
            }
            match k {
                ConflictKind::InvalidIntersection => {},
                ConflictKind::DirectOverlap => {},
                _ => {
                    let span = resolve_span(k, &words[w], &words[j]);
                    spans.push(ConflictSpan { kind: k, word: w, span, other: j });
                },
            }
            t += 1;
        }
        proof {
            assert(row_spans(ws, idx[w as int], w, idx[w as int].len() as int) == row_spans(
                ws,
                idx[w as int],
                w,
                row@.len() as int,
            ));
        }
        w += 1;
    }
    spans
}

} // verus!
