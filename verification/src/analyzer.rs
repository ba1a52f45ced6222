//! The conflict analyzer: one entry point that recomputes the full conflict
//! report for a word set from scratch.

use vstd::prelude::*;

use crate::compatibility::ConflictKind;
use crate::compatibility::WordCompatibilitySettings;
use crate::conflict_index::build_conflict_index;
use crate::conflict_index::conflict_list;
use crate::occupancy::CellEntry;
use crate::occupancy::EdgeEntry;
use crate::occupancy::build_cell_map;
use crate::occupancy::build_edge_map;
use crate::occupancy::cell_entry_correct;
use crate::occupancy::edge_entry_correct;
use crate::occupancy::has_cell_at;
use crate::occupancy::has_edge_at;
use crate::occupancy::rows_view;
use crate::spans::ConflictSpan;
use crate::spans::all_spans;
use crate::spans::lemma_conflict_lists_resolvable;
use crate::spans::resolve_spans;
use crate::word::Direction;
use crate::word::PlacedWord;
use crate::word::Position;

verus! {

/// Rejection of an `analyze` call: the input words must be well formed.
#[derive(Clone, Copy, Debug, PartialEq, Eq, Structural)]
pub enum AnalyzeError {
    /// The word at this index has no characters.
    ZeroLengthWord { index: usize },
    /// The word at this index runs off the representable grid.
    WordOutOfBounds { index: usize },
}

/// Everything the analyzer derives from one word set: the pairwise conflict
/// index, the two occupancy maps, and the resolved highlight spans.
#[derive(Debug)]
pub struct ConflictReport {
    /// For every word, its conflicts as `(kind, other word)` pairs.
    pub word_conflicts: Vec<Vec<(ConflictKind, usize)>>,
    /// One entry per occupied cell.
    pub cells: Vec<CellEntry>,
    /// One entry per boundary between consecutive cells of a word.
    pub edges: Vec<EdgeEntry>,
    /// One perimeter span per adjacency conflict, per word.
    pub spans: Vec<ConflictSpan>,
}

impl ConflictReport {
    /// The cell map entry at a position, if any word covers that cell.
    pub fn cell_at(&self, p: Position) -> (r: Option<&CellEntry>)
        ensures
            r is Some <==> has_cell_at(self.cells@, p.x as int, p.y as int),
            r matches Some(e) ==> e.position == p && self.cells@.contains(*e),
    {
        let mut t: usize = 0;
        while t < self.cells.len()
            invariant
                t <= self.cells@.len(),
                forall|u: int|
                    0 <= u < t ==> (#[trigger] self.cells@[u]).position.x != p.x
                        || self.cells@[u].position.y != p.y,
            decreases self.cells@.len() - t,
        {
            if self.cells[t].position == p {
                return Some(&self.cells[t]);
            }
            t += 1;
        }
        None
    }

    /// The edge map entry at a position and direction, if any word's
    /// outline crosses that boundary.
    pub fn edge_at(&self, p: Position, d: Direction) -> (r: Option<
        &EdgeEntry,
    >)
        ensures
            r is Some <==> has_edge_at(self.edges@, p.x as int, p.y as int, d),
            r matches Some(e) ==> e.position == p && e.direction == d && self.edges@.contains(*e),
    {
        let mut t: usize = 0;
        while t < self.edges.len()
            invariant
                t <= self.edges@.len(),
                forall|u: int|
                    0 <= u < t ==> (#[trigger] self.edges@[u]).position.x != p.x
                        || self.edges@[u].position.y != p.y || self.edges@[u].direction != d,
            decreases self.edges@.len() - t,
        {
            if self.edges[t].position == p && self.edges[t].direction == d {
                return Some(&self.edges[t]);
            }
            t += 1;
        }
        None
    }
}

/// What `analyze` promises of a returned report: the index holds exactly
/// the predicate's verdict on every pair, both maps describe exactly the
/// occupied cells and edges, and the spans are the resolved adjacency
/// conflicts of the index.
pub open spec fn report_correct(
    ws: Seq<PlacedWord>,
    s: WordCompatibilitySettings,
    r: ConflictReport,
) -> bool {
    let idx = rows_view(r.word_conflicts@);
    &&& idx.len() == ws.len()
    &&& forall|i: int| 0 <= i < ws.len() ==> #[trigger] idx[i] == conflict_list(ws, s, i)
    &&& forall|t1: int, t2: int|
        0 <= t1 < t2 < r.cells@.len() ==> (#[trigger] r.cells@[t1]).position != (
        #[trigger] r.cells@[t2]).position
    &&& forall|t: int|
        0 <= t < r.cells@.len() ==> cell_entry_correct(ws, idx, #[trigger] r.cells@[t])
    &&& forall|w: int, i: int|
        0 <= w < ws.len() && 0 <= i < ws[w].spec_len() ==> has_cell_at(
            r.cells@,
            ws[w].cell_x(i),
            ws[w].cell_y(i),
        )
    &&& forall|t1: int, t2: int|
        0 <= t1 < t2 < r.edges@.len() ==> (#[trigger] r.edges@[t1]).position != (
        #[trigger] r.edges@[t2]).position || r.edges@[t1].direction != r.edges@[t2].direction
    &&& forall|t: int|
        0 <= t < r.edges@.len() ==> edge_entry_correct(ws, idx, #[trigger] r.edges@[t])
    &&& forall|w: int, i: int|
        0 <= w < ws.len() && 0 <= i < ws[w].spec_len() - 1 ==> has_edge_at(
            r.edges@,
            ws[w].cell_x(i),
            ws[w].cell_y(i),
            ws[w].direction,
        )
    &&& r.spans@ == all_spans(ws, idx)
    &&& forall|t: int|
        0 <= t < r.spans@.len() ==> (#[trigger] r.spans@[t]).word < ws.len()
            && r.spans@[t].other < ws.len() && r.spans@[t].span.start < 2 * ws[r.spans@[t].word as int].spec_len()
            + 2 && r.spans@[t].span.end < 2 * ws[r.spans@[t].word as int].spec_len() + 2
}

/// Analyzes a word set: rejects the first ill-formed word, and otherwise
/// returns the full conflict report for the words under the given settings.
pub fn analyze(words: &Vec<PlacedWord>, settings: &WordCompatibilitySettings) -> (r: Result<
    ConflictReport,
    AnalyzeError,
>)
    ensures
        r is Ok <==> (forall|i: int| 0 <= i < words@.len() ==> (#[trigger] words@[i]).valid()),
        r matches Ok(report) ==> report_correct(words@, *settings, report),
        r matches Err(e) ==> match e {
            AnalyzeError::ZeroLengthWord { index } => {
                &&& index < words@.len()
                &&& words@[index as int].spec_len() == 0
                &&& forall|j: int| 0 <= j < index ==> (#[trigger] words@[j]).valid()
            },
            AnalyzeError::WordOutOfBounds { index } => {
                &&& index < words@.len()
                &&& words@[index as int].spec_len() >= 1
                &&& !words@[index as int].valid()
                &&& forall|j: int| 0 <= j < index ==> (#[trigger] words@[j]).valid()
            },
        },
{
    let ghost ws = words@;
    let ghost s = *settings;
    let n = words.len();
    let mut i: usize = 0;
    while i < n
        invariant
            n == ws.len(),
            ws == words@,
            i <= n,
            forall|j: int| 0 <= j < i ==> (#[trigger] ws[j]).valid(),
        decreases n - i,
    {
        if !words[i].is_valid() {
            if words[i].value.len() == 0 {
                return Err(AnalyzeError::ZeroLengthWord { index: i });
            } else {
                return Err(AnalyzeError::WordOutOfBounds { index: i });
            }
        }
        i += 1;
    }
    let word_conflicts = build_conflict_index(words, settings);
    let ghost idx = rows_view(word_conflicts@);
    proof {
        lemma_conflict_lists_resolvable(ws, s, idx);
    }
    let cells = build_cell_map(words, &word_conflicts);
    let edges = build_edge_map(words, &word_conflicts);
    let spans = resolve_spans(words, &word_conflicts);
    Ok(ConflictReport { word_conflicts, cells, edges, spans })
}

} // verus!
