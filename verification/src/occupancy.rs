//! Cell and edge occupancy maps: which words cover each grid cell, and which
//! words cross each boundary between two consecutive cells of a word.

use vstd::prelude::*;

use crate::compatibility::ConflictKind;
use crate::compatibility::WordCompatibilitySettings;
use crate::compatibility::compatibility_issue;
use crate::compatibility::raw_issue;
use crate::conflict_index::conflict_list;
use crate::conflict_index::lemma_conflicts_upto_complete;
use crate::word::Direction;
use crate::word::PlacedWord;
use crate::word::Position;

verus! {

/// Offset a word would need to cover the cell `(x, y)`: the distance from
/// the word's start measured along its direction.
pub open spec fn offset_in(w: PlacedWord, x: int, y: int) -> int {
    match w.direction {
        Direction::Right => x - w.box_x(),
        Direction::Down => y - w.box_y(),
    }
}

/// Whether the word covers the cell `(x, y)`.
pub open spec fn covers_cell(w: PlacedWord, x: int, y: int) -> bool {
    &&& match w.direction {
        Direction::Right => y == w.box_y(),
        Direction::Down => x == w.box_x(),
    }
    &&& 0 <= offset_in(w, x, y) < w.spec_len()
}

/// Whether the word's outline crosses the boundary between the cells at
/// offsets `offset_in` and `offset_in + 1`, identified by the earlier cell
/// `(x, y)` and the word's direction `d`.
pub open spec fn covers_edge(w: PlacedWord, x: int, y: int, d: Direction) -> bool {
    &&& w.direction == d
    &&& covers_cell(w, x, y)
    &&& offset_in(w, x, y) < w.spec_len() - 1
}

/// The occupants `(word, offset)` of cell `(x, y)` among the words with
/// index below `m`, in ascending word order.
pub open spec fn cell_occupants_upto(ws: Seq<PlacedWord>, x: int, y: int, m: int) -> Seq<
    (usize, usize),
>
    decreases m,
{
    if m <= 0 {
        Seq::empty()
    } else if covers_cell(ws[m - 1], x, y) {
        cell_occupants_upto(ws, x, y, m - 1).push(
            (((m - 1) as usize), offset_in(ws[m - 1], x, y) as usize),
        )
    } else {
        cell_occupants_upto(ws, x, y, m - 1)
    }
}

/// All occupants of cell `(x, y)`.
pub open spec fn cell_occupants(ws: Seq<PlacedWord>, x: int, y: int) -> Seq<(usize, usize)> {
    cell_occupants_upto(ws, x, y, ws.len() as int)
}

/// The words among the first `m` whose outline crosses the edge
/// `((x, y), d)`, in ascending order.
pub open spec fn edge_occupants_upto(
    ws: Seq<PlacedWord>,
    x: int,
    y: int,
    d: Direction,
    m: int,
) -> Seq<usize>
    decreases m,
{
    if m <= 0 {
        Seq::empty()
    } else if covers_edge(ws[m - 1], x, y, d) {
        edge_occupants_upto(ws, x, y, d, m - 1).push((m - 1) as usize)
    } else {
        edge_occupants_upto(ws, x, y, d, m - 1)
    }
}

/// All words whose outline crosses the edge `((x, y), d)`.
pub open spec fn edge_occupants(ws: Seq<PlacedWord>, x: int, y: int, d: Direction) -> Seq<usize> {
    edge_occupants_upto(ws, x, y, d, ws.len() as int)
}

/// The conflicts inherited by a location from the first `t` of its
/// occupants: the concatenation of those words' conflict index entries.
pub open spec fn inherited_upto(
    idx: Seq<Seq<(ConflictKind, usize)>>,
    occ: Seq<(usize, usize)>,
    t: int,
) -> Seq<(ConflictKind, usize)>
    decreases t,
{
    if t <= 0 {
        Seq::empty()
    } else {
        inherited_upto(idx, occ, t - 1) + idx[occ[t - 1].0 as int]
    }
}

/// The conflicts a cell inherits from all of its occupants.
pub open spec fn inherited(idx: Seq<Seq<(ConflictKind, usize)>>, occ: Seq<(usize, usize)>) -> Seq<
    (ConflictKind, usize),
> {
    inherited_upto(idx, occ, occ.len() as int)
}

/// As [`inherited_upto`], for edge occupants, which carry no offsets.
pub open spec fn inherited_edges_upto(
    idx: Seq<Seq<(ConflictKind, usize)>>,
    occ: Seq<usize>,
    t: int,
) -> Seq<(ConflictKind, usize)>
    decreases t,
{
    if t <= 0 {
        Seq::empty()
    } else {
        inherited_edges_upto(idx, occ, t - 1) + idx[occ[t - 1] as int]
    }
}

/// The conflicts an edge inherits from all of its occupants.
pub open spec fn inherited_edges(idx: Seq<Seq<(ConflictKind, usize)>>, occ: Seq<usize>) -> Seq<
    (ConflictKind, usize),
> {
    inherited_edges_upto(idx, occ, occ.len() as int)
}

/// The character the first occupant of a cell puts there.
pub open spec fn first_char(ws: Seq<PlacedWord>, occ: Seq<(usize, usize)>) -> char {
    ws[occ[0].0 as int].value@[occ[0].1 as int]
}

/// Whether every occupant of a cell puts the same character there.
pub open spec fn chars_agree(ws: Seq<PlacedWord>, occ: Seq<(usize, usize)>) -> bool {
    forall|t: int|
        0 <= t < occ.len() ==> ws[(#[trigger] occ[t]).0 as int].value@[occ[t].1 as int]
            == first_char(ws, occ)
}

/// One cell of the grid that at least one word covers.
#[derive(Debug)]
pub struct CellEntry {
    pub position: Position,
    /// `(word, offset)` pairs of the words covering this cell.
    pub occupants: Vec<(usize, usize)>,
    /// The conflicts of all occupants, gathered for highlighting.
    pub conflicts: Vec<(ConflictKind, usize)>,
    /// The character to display: present exactly when all occupants agree.
    pub character: Option<char>,
}

/// One boundary between two consecutive cells of at least one word,
/// identified by the earlier cell and the word direction.
#[derive(Debug)]
pub struct EdgeEntry {
    pub position: Position,
    pub direction: Direction,
    /// The words whose outline crosses this boundary.
    pub occupants: Vec<usize>,
    /// The conflicts of all occupants, gathered for highlighting.
    pub conflicts: Vec<(ConflictKind, usize)>,
}

/// Every entry of the occupant list names a word below the bound that covers
/// the cell, at its unique covering offset.
pub proof fn lemma_cell_occupants_entry(
    ws: Seq<PlacedWord>,
    x: int,
    y: int,
    m: int,
    e: (usize, usize),
)
    requires
        ws.len() <= usize::MAX,
        m <= ws.len(),
        forall|i: int| 0 <= i < ws.len() ==> (#[trigger] ws[i]).valid(),
        cell_occupants_upto(ws, x, y, m).contains(e),
    ensures
        e.0 < m,
        covers_cell(ws[e.0 as int], x, y),
        e.1 == offset_in(ws[e.0 as int], x, y),
    decreases m,
{
    if m <= 0 {
    } else {
        let pre = cell_occupants_upto(ws, x, y, m - 1);
        if covers_cell(ws[m - 1], x, y) {
            let item = (((m - 1) as usize), offset_in(ws[m - 1], x, y) as usize);
            if e == item {
            } else {
                assert(pre.contains(e)) by {
                    let t = choose|t: int|
                        0 <= t < pre.push(item).len() && #[trigger] pre.push(item)[t] == e;
                    assert(pre[t] == e);
                }
                lemma_cell_occupants_entry(ws, x, y, m - 1, e);
            }
        } else {
            lemma_cell_occupants_entry(ws, x, y, m - 1, e);
        }
    }
}

/// Conversely, every word below the bound that covers the cell appears in
/// the occupant list.
pub proof fn lemma_cell_occupants_complete(ws: Seq<PlacedWord>, x: int, y: int, m: int, w: int)
    requires
        m <= usize::MAX,
        0 <= w < m,
        covers_cell(ws[w], x, y),
    ensures
        cell_occupants_upto(ws, x, y, m).contains((w as usize, offset_in(ws[w], x, y) as usize)),
    decreases m,
{
    let item = (w as usize, offset_in(ws[w], x, y) as usize);
    if w == m - 1 {
        let pre = cell_occupants_upto(ws, x, y, m - 1);
        assert(cell_occupants_upto(ws, x, y, m)[pre.len() as int] == item);
    } else {
        lemma_cell_occupants_complete(ws, x, y, m - 1, w);
        let pre = cell_occupants_upto(ws, x, y, m - 1);
        let t = choose|t: int| 0 <= t < pre.len() && #[trigger] pre[t] == item;
        assert(cell_occupants_upto(ws, x, y, m)[t] == item);
    }
}

/// The covering offset of a word for a cell, when the word covers it.
fn word_offset_at(w: &PlacedWord, p: Position) -> (r: Option<usize>)
    requires
        w.valid(),
    ensures
        r matches Some(i) ==> covers_cell(*w, p.x as int, p.y as int) && i == offset_in(
            *w,
            p.x as int,
            p.y as int,
        ),
        r is None ==> !covers_cell(*w, p.x as int, p.y as int),
{
    assert(w.value@.len() <= 65536);
    let len = w.value.len() as i32;
    let off: i32 = match w.direction {
        Direction::Right => {
            if p.y != w.position.y {
                return None;
            }
            p.x as i32 - w.position.x as i32
        },
        Direction::Down => {
            if p.x != w.position.x {
                return None;
            }
            p.y as i32 - w.position.y as i32
        },
    };
    if 0 <= off && off < len {
        Some(off as usize)
    } else {
        None
    }
}

/// All `(word, offset)` pairs covering the cell `p`, in ascending word
/// order.
fn occupants_at(words: &Vec<PlacedWord>, p: Position) -> (r: Vec<(usize, usize)>)
    requires
        forall|i: int| 0 <= i < words@.len() ==> (#[trigger] words@[i]).valid(),
    ensures
        r@ == cell_occupants(words@, p.x as int, p.y as int),
{
    let ghost ws = words@;
    let n = words.len();
    let mut r: Vec<(usize, usize)> = Vec::new();
    let mut w: usize = 0;
    while w < n
        invariant
            n == ws.len(),
            ws == words@,
            forall|i: int| 0 <= i < ws.len() ==> (#[trigger] ws[i]).valid(),
            w <= n,
            r@ == cell_occupants_upto(ws, p.x as int, p.y as int, w as int),
        decreases n - w,
    {
        match word_offset_at(&words[w], p) {
            Some(i) => r.push((w, i)),
            None => {},
        }
        w += 1;
    }
    r
}

/// All words whose outline crosses the edge `(p, d)`, in ascending order.
fn edge_occupants_at(words: &Vec<PlacedWord>, p: Position, d: Direction) -> (r: Vec<usize>)
    requires
        forall|i: int| 0 <= i < words@.len() ==> (#[trigger] words@[i]).valid(),
    ensures
        r@ == edge_occupants(words@, p.x as int, p.y as int, d),
{
    let ghost ws = words@;
    let n = words.len();
    let mut r: Vec<usize> = Vec::new();
    let mut w: usize = 0;
    while w < n
        invariant
            n == ws.len(),
            ws == words@,
            forall|i: int| 0 <= i < ws.len() ==> (#[trigger] ws[i]).valid(),
            w <= n,
            r@ == edge_occupants_upto(ws, p.x as int, p.y as int, d, w as int),
        decreases n - w,
    {
        if words[w].direction == d {
            match word_offset_at(&words[w], p) {
                Some(i) => {
                    if i + 1 < words[w].value.len() {
                        r.push(w);
                    }
                },
                None => {},
            }
        }
        w += 1;
    }
    r
}

/// Gathers the conflicts of every occupant of a cell.
fn gather_conflicts(index: &Vec<Vec<(ConflictKind, usize)>>, occ: &Vec<(usize, usize)>) -> (r: Vec<
    (ConflictKind, usize),
>)
    requires
        forall|t: int| 0 <= t < occ@.len() ==> (#[trigger] occ@[t]).0 < index@.len(),
    ensures
        r@ == inherited(index@.map_values(|row: Vec<(ConflictKind, usize)>| row@), occ@),
{
    let ghost idx = index@.map_values(|row: Vec<(ConflictKind, usize)>| row@);
    let mut r: Vec<(ConflictKind, usize)> = Vec::new();
    let mut t: usize = 0;
    while t < occ.len()
        invariant
            idx == index@.map_values(|row: Vec<(ConflictKind, usize)>| row@),
            forall|u: int| 0 <= u < occ@.len() ==> (#[trigger] occ@[u]).0 < index@.len(),
            t <= occ@.len(),
            r@ == inherited_upto(idx, occ@, t as int),
        decreases occ@.len() - t,
    {
        let w = occ[t].0;
        let rw = &index[w];
        let mut u: usize = 0;
        while u < rw.len()
            invariant
                u <= rw@.len(),
                r@ == inherited_upto(idx, occ@, t as int) + rw@.subrange(0, u as int),
            decreases rw@.len() - u,
        {
            r.push(rw[u]);
            proof {
                assert(rw@.subrange(0, u + 1 as int) == rw@.subrange(0, u as int).push(
                    rw@[u as int],
                ));
            }
            u += 1;
        }
        proof {
            assert(rw@.subrange(0, rw@.len() as int) == rw@);
        }
        t += 1;
    }
    r
}

/// As [`gather_conflicts`], for edge occupants.
fn gather_edge_conflicts(index: &Vec<Vec<(ConflictKind, usize)>>, occ: &Vec<usize>) -> (r: Vec<
    (ConflictKind, usize),
>)
    requires
        forall|t: int| 0 <= t < occ@.len() ==> (#[trigger] occ@[t]) < index@.len(),
    ensures
        r@ == inherited_edges(index@.map_values(|row: Vec<(ConflictKind, usize)>| row@), occ@),
{
    let ghost idx = index@.map_values(|row: Vec<(ConflictKind, usize)>| row@);
    let mut r: Vec<(ConflictKind, usize)> = Vec::new();
    let mut t: usize = 0;
    while t < occ.len()
        invariant
            idx == index@.map_values(|row: Vec<(ConflictKind, usize)>| row@),
            forall|u: int| 0 <= u < occ@.len() ==> (#[trigger] occ@[u]) < index@.len(),
            t <= occ@.len(),
            r@ == inherited_edges_upto(idx, occ@, t as int),
        decreases occ@.len() - t,
    {
        let w = occ[t];
        let rw = &index[w];
        let mut u: usize = 0;
        while u < rw.len()
            invariant
                u <= rw@.len(),
                r@ == inherited_edges_upto(idx, occ@, t as int) + rw@.subrange(0, u as int),
            decreases rw@.len() - u,
        {
            r.push(rw[u]);
            proof {
                assert(rw@.subrange(0, u + 1 as int) == rw@.subrange(0, u as int).push(
                    rw@[u as int],
                ));
            }
            u += 1;
        }
        proof {
            assert(rw@.subrange(0, rw@.len() as int) == rw@);
        }
        t += 1;
    }
    r
}

/// The views of the conflict index rows.
pub open spec fn rows_view(index: Seq<Vec<(ConflictKind, usize)>>) -> Seq<
    Seq<(ConflictKind, usize)>,
> {
    index.map_values(|row: Vec<(ConflictKind, usize)>| row@)
}

/// What a correct cell map entry holds: the full occupant list of its cell,
/// those occupants' conflicts, and the shared character exactly when all
/// occupants agree on it.
pub open spec fn cell_entry_correct(
    ws: Seq<PlacedWord>,
    idx: Seq<Seq<(ConflictKind, usize)>>,
    e: CellEntry,
) -> bool {
    &&& e.occupants@ == cell_occupants(ws, e.position.x as int, e.position.y as int)
    &&& e.occupants@.len() > 0
    &&& e.conflicts@ == inherited(idx, e.occupants@)
    &&& e.character == (if chars_agree(ws, e.occupants@) {
        Some(first_char(ws, e.occupants@))
    } else {
        None::<char>
    })
}

/// What a correct edge map entry holds.
pub open spec fn edge_entry_correct(
    ws: Seq<PlacedWord>,
    idx: Seq<Seq<(ConflictKind, usize)>>,
    e: EdgeEntry,
) -> bool {
    &&& e.occupants@ == edge_occupants(ws, e.position.x as int, e.position.y as int, e.direction)
    &&& e.occupants@.len() > 0
    &&& e.conflicts@ == inherited_edges(idx, e.occupants@)
}

/// Whether the cell map has an entry for the cell `(x, y)`.
pub open spec fn has_cell_at(cells: Seq<CellEntry>, x: int, y: int) -> bool {
    exists|t: int|
        0 <= t < cells.len() && (#[trigger] cells[t]).position.x == x && cells[t].position.y == y
}

/// Whether the edge map has an entry for the edge `((x, y), d)`.
pub open spec fn has_edge_at(edges: Seq<EdgeEntry>, x: int, y: int, d: Direction) -> bool {
    exists|t: int|
        0 <= t < edges.len() && (#[trigger] edges[t]).position.x == x && edges[t].position.y == y
            && edges[t].direction == d
}

/// Every entry of the edge occupant list names a word below the bound whose
/// outline crosses the edge.
pub proof fn lemma_edge_occupants_entry(
    ws: Seq<PlacedWord>,
    x: int,
    y: int,
    d: Direction,
    m: int,
    e: usize,
)
    requires
        m <= usize::MAX,
        edge_occupants_upto(ws, x, y, d, m).contains(e),
    ensures
        e < m,
        covers_edge(ws[e as int], x, y, d),
    decreases m,
{
    if m <= 0 {
    } else {
        let pre = edge_occupants_upto(ws, x, y, d, m - 1);
        if covers_edge(ws[m - 1], x, y, d) {
            let item = (m - 1) as usize;
            if e == item {
            } else {
                assert(pre.contains(e)) by {
                    let t = choose|t: int|
                        0 <= t < pre.push(item).len() && #[trigger] pre.push(item)[t] == e;
                    assert(pre[t] == e);
                }
                lemma_edge_occupants_entry(ws, x, y, d, m - 1, e);
            }
        } else {
            lemma_edge_occupants_entry(ws, x, y, d, m - 1, e);
        }
    }
}

/// Conversely, every word below the bound whose outline crosses the edge
/// appears in the list.
pub proof fn lemma_edge_occupants_complete(
    ws: Seq<PlacedWord>,
    x: int,
    y: int,
    d: Direction,
    m: int,
    w: int,
)
    requires
        m <= usize::MAX,
        0 <= w < m,
        covers_edge(ws[w], x, y, d),
    ensures
        edge_occupants_upto(ws, x, y, d, m).contains(w as usize),
    decreases m,
{
    if w == m - 1 {
        let pre = edge_occupants_upto(ws, x, y, d, m - 1);
        assert(edge_occupants_upto(ws, x, y, d, m)[pre.len() as int] == w as usize);
    } else {
        lemma_edge_occupants_complete(ws, x, y, d, m - 1, w);
        let pre = edge_occupants_upto(ws, x, y, d, m - 1);
        let t = choose|t: int| 0 <= t < pre.len() && #[trigger] pre[t] == w as usize;
        assert(edge_occupants_upto(ws, x, y, d, m)[t] == w as usize);
    }
}

/// Two words that disagree on the character of a shared cell are in
/// conflict: an invalid intersection when they are perpendicular, a direct
/// overlap when they run in the same direction.
pub proof fn lemma_disagreement_is_conflict(a: PlacedWord, b: PlacedWord, x: int, y: int)
    requires
        a.valid(),
        b.valid(),
        covers_cell(a, x, y),
        covers_cell(b, x, y),
        a.value@[offset_in(a, x, y)] != b.value@[offset_in(b, x, y)],
    ensures
        a.direction != b.direction ==> raw_issue(a, b) == Some(
            ConflictKind::InvalidIntersection,
        ),
        a.direction == b.direction ==> raw_issue(a, b) == Some(ConflictKind::DirectOverlap),
{
}

/// If two occupants of one cell disagree on its character, the conflict
/// index records a conflict between them: an invalid intersection for
/// perpendicular words (when its detection is on), a direct overlap for
/// words of equal direction.
pub proof fn lemma_cell_disagreement_reported(
    ws: Seq<PlacedWord>,
    s: WordCompatibilitySettings,
    x: int,
    y: int,
    e1: (usize, usize),
    e2: (usize, usize),
)
    requires
        ws.len() <= usize::MAX,
        forall|i: int| 0 <= i < ws.len() ==> (#[trigger] ws[i]).valid(),
        cell_occupants(ws, x, y).contains(e1),
        cell_occupants(ws, x, y).contains(e2),
        ws[e1.0 as int].value@[e1.1 as int] != ws[e2.0 as int].value@[e2.1 as int],
        !s.invalid_intersection,
    ensures
        e1.0 != e2.0,
        conflict_list(ws, s, e1.0 as int).contains(
            (
                if ws[e1.0 as int].direction != ws[e2.0 as int].direction {
                    ConflictKind::InvalidIntersection
                } else {
                    ConflictKind::DirectOverlap
                },
                e2.0,
            ),
        ),
{
    lemma_cell_occupants_entry(ws, x, y, ws.len() as int, e1);
    lemma_cell_occupants_entry(ws, x, y, ws.len() as int, e2);
    let a = ws[e1.0 as int];
    let b = ws[e2.0 as int];
    lemma_disagreement_is_conflict(a, b, x, y);
    let k = if a.direction != b.direction {
        ConflictKind::InvalidIntersection
    } else {
        ConflictKind::DirectOverlap
    };
    assert(compatibility_issue(s, a, b) == Some(k));
    lemma_conflicts_upto_complete(ws, s, e1.0 as int, ws.len() as int, e2.0 as int, k);
}

/// The character shared by all occupants of a cell, if they agree.
fn shared_character(words: &Vec<PlacedWord>, occ: &Vec<(usize, usize)>) -> (r: Option<char>)
    requires
        occ@.len() > 0,
        forall|t: int|
            0 <= t < occ@.len() ==> (#[trigger] occ@[t]).0 < words@.len() && occ@[t].1 < words@[occ@[t].0 as int].value@.len(),
    ensures
        r == if chars_agree(words@, occ@) {
            Some(first_char(words@, occ@))
        } else {
            None::<char>
        },
{
    let w0 = occ[0].0;
    let i0 = occ[0].1;
    let c0 = words[w0].value[i0];
    let mut t: usize = 1;
    while t < occ.len()
        invariant
            occ@.len() > 0,
            c0 == first_char(words@, occ@),
            forall|u: int|
                0 <= u < occ@.len() ==> (#[trigger] occ@[u]).0 < words@.len() && occ@[u].1
                    < words@[occ@[u].0 as int].value@.len(),
            1 <= t <= occ@.len(),
            forall|u: int|
                0 <= u < t ==> words@[(#[trigger] occ@[u]).0 as int].value@[occ@[u].1 as int] == c0,
        decreases occ@.len() - t,
    {
        let w = occ[t].0;
        let i = occ[t].1;
        if words[w].value[i] != c0 {
            return None;
        }
        t += 1;
    }
    Some(c0)
}

/// Builds the cell occupancy map: one entry per cell that at least one word
/// covers, holding all its occupants, the conflicts they take part in, and
/// the character to display — present exactly when every occupant puts the
/// same character there.
pub fn build_cell_map(
    words: &Vec<PlacedWord>,
    index: &Vec<Vec<(ConflictKind, usize)>>,
) -> (cells: Vec<CellEntry>)
    requires
        forall|i: int| 0 <= i < words@.len() ==> (#[trigger] words@[i]).valid(),
        index@.len() == words@.len(),
    ensures
        forall|t1: int, t2: int|
            0 <= t1 < t2 < cells@.len() ==> (#[trigger] cells@[t1]).position != (
            #[trigger] cells@[t2]).position,
        forall|t: int|
            0 <= t < cells@.len() ==> cell_entry_correct(
                words@,
                rows_view(index@),
                #[trigger] cells@[t],
            ),
        forall|w: int, i: int|
            0 <= w < words@.len() && 0 <= i < words@[w].spec_len() ==> has_cell_at(
                cells@,
                words@[w].cell_x(i),
                words@[w].cell_y(i),
            ),
{
    let ghost ws = words@;
    let ghost idx = rows_view(index@);
    let n = words.len();
    let mut cells: Vec<CellEntry> = Vec::new();
    let mut w: usize = 0;
    while w < n
        invariant
            n == ws.len(),
            ws == words@,
            idx == rows_view(index@),
            index@.len() == n,
            forall|i: int| 0 <= i < ws.len() ==> (#[trigger] ws[i]).valid(),
            w <= n,
            forall|t1: int, t2: int|
                0 <= t1 < t2 < cells@.len() ==> (#[trigger] cells@[t1]).position != (
                #[trigger] cells@[t2]).position,
            forall|t: int|
                0 <= t < cells@.len() ==> cell_entry_correct(ws, idx, #[trigger] cells@[t]),
            forall|w2: int, i2: int|
                0 <= w2 < w && 0 <= i2 < ws[w2].spec_len() ==> has_cell_at(
                    cells@,
                    ws[w2].cell_x(i2),
                    ws[w2].cell_y(i2),
                ),
        decreases n - w,
    {
        let len_w = words[w].value.len();
        let mut i: usize = 0;
        while i < len_w
            invariant
                n == ws.len(),
                ws == words@,
                idx == rows_view(index@),
                index@.len() == n,
                forall|i2: int| 0 <= i2 < ws.len() ==> (#[trigger] ws[i2]).valid(),
                w < n,
                len_w == ws[w as int].spec_len(),
                i <= len_w,
                forall|t1: int, t2: int|
                    0 <= t1 < t2 < cells@.len() ==> (#[trigger] cells@[t1]).position != (
                    #[trigger] cells@[t2]).position,
                forall|t: int|
                    0 <= t < cells@.len() ==> cell_entry_correct(ws, idx, #[trigger] cells@[t]),
                forall|w2: int, i2: int|
                    0 <= w2 < w && 0 <= i2 < ws[w2].spec_len() ==> has_cell_at(
                        cells@,
                        ws[w2].cell_x(i2),
                        ws[w2].cell_y(i2),
                    ),
                forall|i2: int|
                    0 <= i2 < i ==> has_cell_at(cells@, ws[w as int].cell_x(i2), ws[w as int].cell_y(i2)),
            decreases len_w - i,
        {
            let p = words[w].cell(i);
            let mut t: usize = 0;
            let mut present = false;
            while t < cells.len()
                invariant
                    t <= cells@.len(),
                    present <==> exists|u: int|
                        0 <= u < t && (#[trigger] cells@[u]).position.x == p.x
                            && cells@[u].position.y == p.y,
                decreases cells@.len() - t,
            {
                if cells[t].position == p {
                    present = true;
                }
                t += 1;
            }
            if !present {
                proof {
                    assert(covers_cell(ws[w as int], p.x as int, p.y as int));
                }
                let occ = occupants_at(words, p);
                proof {
                    lemma_cell_occupants_complete(ws, p.x as int, p.y as int, n as int, w as int);
                    assert(occ@.len() > 0);
                    assert forall|u: int| 0 <= u < occ@.len() implies (#[trigger] occ@[u]).0
                        < index@.len() && occ@[u].1 < ws[occ@[u].0 as int].value@.len() by {
                        assert(occ@.contains(occ@[u]));
                        lemma_cell_occupants_entry(ws, p.x as int, p.y as int, n as int, occ@[u]);
                    }
                }
                let conflicts = gather_conflicts(index, &occ);
                let character = shared_character(words, &occ);
                let ghost old_cells = cells@;
                cells.push(CellEntry { position: p, occupants: occ, conflicts, character });
                proof {
                    assert forall|w2: int, i2: int|
                        0 <= w2 < ws.len() && 0 <= i2 < ws[w2].spec_len() && has_cell_at(
                            old_cells,
                            ws[w2].cell_x(i2),
                            ws[w2].cell_y(i2),
                        ) implies has_cell_at(cells@, ws[w2].cell_x(i2), ws[w2].cell_y(i2)) by {
                        let u = choose|u: int|
                            0 <= u < old_cells.len() && (#[trigger] old_cells[u]).position.x
                                == ws[w2].cell_x(i2) && old_cells[u].position.y == ws[w2].cell_y(
                                i2,
                            );
                        assert(cells@[u].position.x == ws[w2].cell_x(i2));
                    }
                    assert(cells@[cells@.len() - 1].position.x == p.x);
                }
            }
            proof {
                assert(has_cell_at(cells@, ws[w as int].cell_x(i as int), ws[w as int].cell_y(i as int)));
            }
            i += 1;
        }
        w += 1;
    }
    cells
}

/// Builds the edge occupancy map: one entry per boundary between two
/// consecutive cells of at least one word, holding the words whose outline
/// crosses it and the conflicts they take part in.
pub fn build_edge_map(
    words: &Vec<PlacedWord>,
    index: &Vec<Vec<(ConflictKind, usize)>>,
) -> (edges: Vec<EdgeEntry>)
    requires
        forall|i: int| 0 <= i < words@.len() ==> (#[trigger] words@[i]).valid(),
        index@.len() == words@.len(),
    ensures
        forall|t1: int, t2: int|
            0 <= t1 < t2 < edges@.len() ==> (#[trigger] edges@[t1]).position != (
            #[trigger] edges@[t2]).position || edges@[t1].direction != edges@[t2].direction,
        forall|t: int|
            0 <= t < edges@.len() ==> edge_entry_correct(
                words@,
                rows_view(index@),
                #[trigger] edges@[t],
            ),
        forall|w: int, i: int|
            0 <= w < words@.len() && 0 <= i < words@[w].spec_len() - 1 ==> has_edge_at(
                edges@,
                words@[w].cell_x(i),
                words@[w].cell_y(i),
                words@[w].direction,
            ),
{
    let ghost ws = words@;
    let ghost idx = rows_view(index@);
    let n = words.len();
    let mut edges: Vec<EdgeEntry> = Vec::new();
    let mut w: usize = 0;
    while w < n
        invariant
            n == ws.len(),
            ws == words@,
            idx == rows_view(index@),
            index@.len() == n,
            forall|i: int| 0 <= i < ws.len() ==> (#[trigger] ws[i]).valid(),
            w <= n,
            forall|t1: int, t2: int|
                0 <= t1 < t2 < edges@.len() ==> (#[trigger] edges@[t1]).position != (
                #[trigger] edges@[t2]).position || edges@[t1].direction != edges@[t2].direction,
            forall|t: int|
                0 <= t < edges@.len() ==> edge_entry_correct(ws, idx, #[trigger] edges@[t]),
            forall|w2: int, i2: int|
                0 <= w2 < w && 0 <= i2 < ws[w2].spec_len() - 1 ==> has_edge_at(
                    edges@,
                    ws[w2].cell_x(i2),
                    ws[w2].cell_y(i2),
                    ws[w2].direction,
                ),
        decreases n - w,
    {
        let len_w = words[w].value.len();
        let mut i: usize = 0;
        while i + 1 < len_w
            invariant
                n == ws.len(),
                ws == words@,
                idx == rows_view(index@),
                index@.len() == n,
                forall|i2: int| 0 <= i2 < ws.len() ==> (#[trigger] ws[i2]).valid(),
                w < n,
                len_w == ws[w as int].spec_len(),
                i <= len_w,
                forall|t1: int, t2: int|
                    0 <= t1 < t2 < edges@.len() ==> (#[trigger] edges@[t1]).position != (
                    #[trigger] edges@[t2]).position || edges@[t1].direction != edges@[t2].direction,
                forall|t: int|
                    0 <= t < edges@.len() ==> edge_entry_correct(ws, idx, #[trigger] edges@[t]),
                forall|w2: int, i2: int|
                    0 <= w2 < w && 0 <= i2 < ws[w2].spec_len() - 1 ==> has_edge_at(
                        edges@,
                        ws[w2].cell_x(i2),
                        ws[w2].cell_y(i2),
                        ws[w2].direction,
                    ),
                forall|i2: int|
                    0 <= i2 < i ==> has_edge_at(
                        edges@,
                        ws[w as int].cell_x(i2),
                        ws[w as int].cell_y(i2),
                        ws[w as int].direction,
                    ),
            decreases len_w - i,
        {
            let p = words[w].cell(i);
            let d = words[w].direction;
            let mut t: usize = 0;
            let mut present = false;
            while t < edges.len()
                invariant
                    t <= edges@.len(),
                    present <==> exists|u: int|
                        0 <= u < t && (#[trigger] edges@[u]).position.x == p.x
                            && edges@[u].position.y == p.y && edges@[u].direction == d,
                decreases edges@.len() - t,
            {
                if edges[t].position == p && edges[t].direction == d {
                    present = true;
                }
                t += 1;
            }
            if !present {
                proof {
                    assert(covers_edge(ws[w as int], p.x as int, p.y as int, d));
                }
                let occ = edge_occupants_at(words, p, d);
                proof {
                    lemma_edge_occupants_complete(
                        ws,
                        p.x as int,
                        p.y as int,
                        d,
                        n as int,
                        w as int,
                    );
                    assert(occ@.len() > 0);
                    assert forall|u: int| 0 <= u < occ@.len() implies (#[trigger] occ@[u])
                        < index@.len() by {
                        assert(occ@.contains(occ@[u]));
                        lemma_edge_occupants_entry(ws, p.x as int, p.y as int, d, n as int, occ@[u]);
                    }
                }
                let conflicts = gather_edge_conflicts(index, &occ);
                let ghost old_edges = edges@;
                edges.push(EdgeEntry { position: p, direction: d, occupants: occ, conflicts });
                proof {
                    assert forall|w2: int, i2: int|
                        0 <= w2 < ws.len() && 0 <= i2 < ws[w2].spec_len() - 1 && has_edge_at(
                            old_edges,
                            ws[w2].cell_x(i2),
                            ws[w2].cell_y(i2),
                            ws[w2].direction,
                        ) implies has_edge_at(
                        edges@,
                        ws[w2].cell_x(i2),
                        ws[w2].cell_y(i2),
                        ws[w2].direction,
                    ) by {
                        let u = choose|u: int|
                            0 <= u < old_edges.len() && (#[trigger] old_edges[u]).position.x
                                == ws[w2].cell_x(i2) && old_edges[u].position.y == ws[w2].cell_y(i2)
                                && old_edges[u].direction == ws[w2].direction;
                        assert(edges@[u].position.x == ws[w2].cell_x(i2));
                    }
                    assert(edges@[edges@.len() - 1].position.x == p.x);
                }
            }
            proof {
                assert(has_edge_at(
                    edges@,
                    ws[w as int].cell_x(i as int),
                    ws[w as int].cell_y(i as int),
                    ws[w as int].direction,
                ));
            }
            i += 1;
        }
        w += 1;
    }
    edges
}

} // verus!
