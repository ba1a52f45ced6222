use crossword_playground::compatibility::ConflictKind;
use crossword_playground::spans::resolve_span;
use crossword_playground::word::Direction;
use crossword_playground::word::PlacedWord;
use crossword_playground::word::Position;

fn word(s: &str, x: i16, y: i16, d: Direction) -> PlacedWord {
    PlacedWord { position: Position { x, y }, direction: d, value: s.chars().collect() }
}

#[test]
fn head_by_head_spans_wrap_the_facing_ends() {
    let a = word("at", 3, 3, Direction::Right);
    let b = word("table", 5, 3, Direction::Right);
    // on "at" (length 2) the span wraps its right end: offsets 1, 2, 3
    let s = resolve_span(ConflictKind::HeadByHead, &a, &b);
    assert_eq!((s.start, s.end), (1, 3));
    // on "table" (length 5) the span wraps its left end: offsets 10, 11, 0
    let s = resolve_span(ConflictKind::HeadByHead, &b, &a);
    assert_eq!((s.start, s.end), (10, 0));
}

#[test]
fn head_by_head_spans_for_down_words() {
    let a = word("ab", 0, 0, Direction::Down);
    let b = word("cd", 0, 3, Direction::Down);
    // on the upper word the span wraps its bottom end
    let s = resolve_span(ConflictKind::HeadByHead, &a, &b);
    assert_eq!((s.start, s.end), (2, 4));
    // on the lower word the span wraps its top end
    let s = resolve_span(ConflictKind::HeadByHead, &b, &a);
    assert_eq!((s.start, s.end), (5, 1));
}

#[test]
fn side_by_side_span_covers_the_shared_extent() {
    let a = word("sezam", 10, -2, Direction::Down);
    let b = word("sezon", 12, -2, Direction::Down);
    // full overlap: the whole right side of the left word, corner to corner
    let s = resolve_span(ConflictKind::SideBySide, &a, &b);
    assert_eq!((s.start, s.end), (0, 6));
    let s = resolve_span(ConflictKind::SideBySide, &b, &a);
    assert_eq!((s.start, s.end), (6, 0));
}

#[test]
fn side_by_side_span_clips_to_the_overlap() {
    // "world" sits under the last three cells of "hello" and extends past it
    let a = word("hello", 0, 0, Direction::Right);
    let b = word("world", 2, 1, Direction::Right);
    // bottom side of "hello": offsets 6..=10 right to left; the overlap
    // starts one half-cell before the columns 2..=4, clipped at the corner
    let s = resolve_span(ConflictKind::SideBySide, &a, &b);
    assert_eq!((s.start, s.end), (5, 9));
    // top side of "world": from its left corner to column 4 of the grid
    let s = resolve_span(ConflictKind::SideBySide, &b, &a);
    assert_eq!((s.start, s.end), (11, 3));
}

#[test]
fn corner_spans_sit_on_the_touching_corner() {
    let a = word("ab", 0, 0, Direction::Right);
    let b = word("cd", 2, 1, Direction::Right);
    // the other word touches the bottom-right corner of "ab"
    let s = resolve_span(ConflictKind::CornerByCorner, &a, &b);
    assert_eq!((s.start, s.end), (2, 3));
    // and "ab" touches the top-left corner of "cd"
    let s = resolve_span(ConflictKind::CornerByCorner, &b, &a);
    assert_eq!((s.start, s.end), (5, 0));
}

#[test]
fn side_by_head_spans_point_at_each_other() {
    let a = word("hello", 0, 0, Direction::Right);
    let b = word("dry", 2, 1, Direction::Down);
    // on "hello" the span sits on its bottom side around column 2
    let s = resolve_span(ConflictKind::SideByHead, &a, &b);
    assert_eq!((s.start, s.end), (7, 9));
    // on "dry" the span wraps its top end
    let s = resolve_span(ConflictKind::SideByHead, &b, &a);
    assert_eq!((s.start, s.end), (7, 1));
}

#[test]
fn all_spans_stay_below_the_perimeter_length() {
    let pairs = vec![
        (word("at", 3, 3, Direction::Right), word("table", 5, 3, Direction::Right)),
        (word("sezam", 10, -2, Direction::Down), word("sezon", 12, -2, Direction::Down)),
        (word("ab", 0, 0, Direction::Right), word("cd", 2, 1, Direction::Right)),
        (word("hello", 0, 0, Direction::Right), word("dry", 2, 1, Direction::Down)),
        (word("hello", 0, 0, Direction::Right), word("world", 2, 1, Direction::Right)),
    ];
    let strict = crossword_playground::compatibility::WordCompatibilitySettings {
        side_by_side: false,
        head_by_head: false,
        side_by_head: false,
        corner_by_corner: false,
        invalid_intersection: false,
    };
    for (a, b) in pairs {
        let k = strict.word_compatibility_issue(&a, &b).unwrap();
        for (x, y) in [(&a, &b), (&b, &a)] {
            let s = resolve_span(k, x, y);
            let wrap = 2 * x.value.len() + 2;
            assert!(s.start < wrap);
            assert!(s.end < wrap);
        }
    }
}
