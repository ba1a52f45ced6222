//! The pairwise compatibility predicate: decides whether two placed words
//! conflict and which kind of conflict applies.
//!
//! Two words are related when their bounding boxes, each grown by a one-cell
//! margin, overlap. Overlapping boxes of perpendicular words cross at exactly
//! one cell: the crossing is valid when both words carry the same character
//! there, and a [`ConflictKind::InvalidIntersection`] otherwise. Overlapping
//! boxes of words with equal directions are a
//! [`ConflictKind::DirectOverlap`]. Non-overlapping boxes within the margin
//! conflict by adjacency geometry: diagonally separated boxes corner, words
//! of equal direction meet head-to-head along their axis or side-by-side
//! laterally, and words of different directions meet side-by-head.

use vstd::prelude::*;

use crate::word::Direction;
use crate::word::PlacedWord;
use crate::word::gap_x;
use crate::word::gap_y;

verus! {

/// Classification of a conflict between two placed words.
#[derive(Clone, Copy, Debug, PartialEq, Eq, Structural)]
pub enum ConflictKind {
    /// Perpendicular words cross at a cell but disagree on its character.
    InvalidIntersection,
    /// The words' bounding boxes are diagonally adjacent at a corner.
    CornerByCorner,
    /// Words of equal direction follow each other along their shared axis.
    HeadByHead,
    /// Words of equal direction run laterally adjacent with overlapping
    /// extents.
    SideBySide,
    /// A word's end faces the side of a perpendicular word.
    SideByHead,
    /// Words of equal direction whose bounding boxes overlap.
    DirectOverlap,
}

/// Which relative placements of two non-crossing words are acceptable.
///
/// Each flag is named after the conflict kind it tolerates: when a flag is
/// `true`, that placement is allowed and the corresponding conflict kind is
/// never reported. [`ConflictKind::DirectOverlap`] has no flag and is always
/// reported.
#[derive(Clone, Copy, Debug, PartialEq, Eq, Structural)]
pub struct WordCompatibilitySettings {
    pub side_by_side: bool,
    pub head_by_head: bool,
    pub side_by_head: bool,
    pub corner_by_corner: bool,
    pub invalid_intersection: bool,
}

impl Default for WordCompatibilitySettings {
    /// By default only corner-by-corner adjacency is acceptable.
    fn default() -> (r: Self)
        ensures
            r == (WordCompatibilitySettings {
                side_by_side: false,
                head_by_head: false,
                side_by_head: false,
                corner_by_corner: true,
                invalid_intersection: false,
            }),
    {
        WordCompatibilitySettings {
            side_by_side: false,
            head_by_head: false,
            side_by_head: false,
            corner_by_corner: true,
            invalid_intersection: false,
        }
    }
}

/// Whether conflicts of kind `k` are reported under settings `s`.
pub open spec fn kind_reported(s: WordCompatibilitySettings, k: ConflictKind) -> bool {
    match k {
        ConflictKind::InvalidIntersection => !s.invalid_intersection,
        ConflictKind::CornerByCorner => !s.corner_by_corner,
        ConflictKind::HeadByHead => !s.head_by_head,
        ConflictKind::SideBySide => !s.side_by_side,
        ConflictKind::SideByHead => !s.side_by_head,
        ConflictKind::DirectOverlap => true,
    }
}

/// Offset within `a` of the cell where `a` and `b` cross. Meaningful when
/// the directions differ and the bounding boxes overlap.
pub open spec fn cross_index(a: PlacedWord, b: PlacedWord) -> int {
    match a.direction {
        Direction::Right => b.box_x() - a.box_x(),
        Direction::Down => b.box_y() - a.box_y(),
    }
}

/// The geometric relation of two words, before settings are applied:
/// the conflict kind their placement falls under, or `None` when the words
/// are farther than one cell apart or form a valid crossing.
pub open spec fn raw_issue(a: PlacedWord, b: PlacedWord) -> Option<ConflictKind> {
    let gx = gap_x(a, b);
    let gy = gap_y(a, b);
    if gx > 1 || gy > 1 {
        None
    } else if gx < 0 && gy < 0 {
        if a.direction == b.direction {
            Some(ConflictKind::DirectOverlap)
        } else if a.value@[cross_index(a, b)] == b.value@[cross_index(b, a)] {
            None
        } else {
            Some(ConflictKind::InvalidIntersection)
        }
    } else if gx >= 0 && gy >= 0 {
        Some(ConflictKind::CornerByCorner)
    } else if a.direction == b.direction {
        if (a.direction == Direction::Right && gx >= 0) || (a.direction == Direction::Down
            && gy >= 0) {
            Some(ConflictKind::HeadByHead)
        } else {
            Some(ConflictKind::SideBySide)
        }
    } else {
        Some(ConflictKind::SideByHead)
    }
}

/// The conflict reported for a pair of words under the given settings:
/// the pair's geometric relation, with kinds whose placements the settings
/// accept filtered out.
pub open spec fn compatibility_issue(
    s: WordCompatibilitySettings,
    a: PlacedWord,
    b: PlacedWord,
) -> Option<ConflictKind> {
    match raw_issue(a, b) {
        Some(k) => if kind_reported(s, k) {
            Some(k)
        } else {
            None
        },
        None => None,
    }
}

/// The compatibility predicate is symmetric: both words of a pair see the
/// same conflict kind.
pub proof fn lemma_issue_symmetric(s: WordCompatibilitySettings, a: PlacedWord, b: PlacedWord)
    ensures
        compatibility_issue(s, a, b) == compatibility_issue(s, b, a),
{
}

/// A kind whose placement the settings accept never appears in the
/// predicate's output.
pub proof fn lemma_accepted_kind_not_reported(
    s: WordCompatibilitySettings,
    a: PlacedWord,
    b: PlacedWord,
    k: ConflictKind,
)
    requires
        !kind_reported(s, k),
    ensures
        compatibility_issue(s, a, b) != Some(k),
{
}

/// The bounding-box coordinates of a word, widened for gap arithmetic.
fn box_of(w: &PlacedWord) -> (r: (i32, i32, i32, i32))
    requires
        w.valid(),
    ensures
        r.0 == w.box_x(),
        r.1 == w.box_y(),
        r.2 == w.box_w(),
        r.3 == w.box_h(),
{
    assert(w.value@.len() <= 65536);
    let len = w.value.len() as i32;
    match w.direction {
        Direction::Right => (w.position.x as i32, w.position.y as i32, len, 1),
        Direction::Down => (w.position.x as i32, w.position.y as i32, 1, len),
    }
}

/// The projection gaps between two words' bounding boxes.
fn gaps_of(a: &PlacedWord, b: &PlacedWord) -> (g: (i32, i32))
    requires
        a.valid(),
        b.valid(),
    ensures
        g.0 == gap_x(*a, *b),
        g.1 == gap_y(*a, *b),
{
    let (ax, ay, aw, ah) = box_of(a);
    let (bx, by, bw, bh) = box_of(b);
    let lo_x = if ax >= bx {
        ax
    } else {
        bx
    };
    let hi_x = if ax + aw <= bx + bw {
        ax + aw
    } else {
        bx + bw
    };
    let lo_y = if ay >= by {
        ay
    } else {
        by
    };
    let hi_y = if ay + ah <= by + bh {
        ay + ah
    } else {
        by + bh
    };
    (lo_x - hi_x, lo_y - hi_y)
}

impl WordCompatibilitySettings {
    /// Evaluates the compatibility predicate on a pair of words: the kind of
    /// conflict their placement causes under these settings, or `None` when
    /// the placement is acceptable.
    pub fn word_compatibility_issue(&self, a: &PlacedWord, b: &PlacedWord) -> (r: Option<
        ConflictKind,
    >)
        requires
            a.valid(),
            b.valid(),
        ensures
            r == compatibility_issue(*self, *a, *b),
    {
        let (gx, gy) = gaps_of(a, b);
        if gx > 1 || gy > 1 {
            None
        } else if gx < 0 && gy < 0 {
            if a.direction == b.direction {
                Some(ConflictKind::DirectOverlap)
            } else {
                let ia = match a.direction {
                    Direction::Right => b.position.x as i32 - a.position.x as i32,
                    Direction::Down => b.position.y as i32 - a.position.y as i32,
                };
                let ib = match b.direction {
                    Direction::Right => a.position.x as i32 - b.position.x as i32,
                    Direction::Down => a.position.y as i32 - b.position.y as i32,
                };
                assert(0 <= ia < a.value@.len());
                assert(0 <= ib < b.value@.len());
                if a.value[ia as usize] == b.value[ib as usize] {
                    None
                } else {
                    if self.invalid_intersection {
                        None
                    } else {
                        Some(ConflictKind::InvalidIntersection)
                    }
                }
            }
        } else if gx >= 0 && gy >= 0 {
            if self.corner_by_corner {
                None
            } else {
                Some(ConflictKind::CornerByCorner)
            }
        } else if a.direction == b.direction {
            let along_separated = match a.direction {
                Direction::Right => gx >= 0,
                Direction::Down => gy >= 0,
            };
            if along_separated {
                if self.head_by_head {
                    None
                } else {
                    Some(ConflictKind::HeadByHead)
                }
            } else {
                if self.side_by_side {
                    None
                } else {
                    Some(ConflictKind::SideBySide)
                }
            }
        } else {
            if self.side_by_head {
                None
            } else {
                Some(ConflictKind::SideByHead)
            }
        }
    }
}

} // verus!
