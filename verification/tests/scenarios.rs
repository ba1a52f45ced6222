use crossword_playground::analyzer::analyze;
use crossword_playground::compatibility::ConflictKind;
use crossword_playground::compatibility::WordCompatibilitySettings;
use crossword_playground::word::Direction;
use crossword_playground::word::PlacedWord;
use crossword_playground::word::Position;

fn word(s: &str, x: i16, y: i16, d: Direction) -> PlacedWord {
    PlacedWord { position: Position { x, y }, direction: d, value: s.chars().collect() }
}

fn strict() -> WordCompatibilitySettings {
    WordCompatibilitySettings {
        side_by_side: false,
        head_by_head: false,
        side_by_head: false,
        corner_by_corner: false,
        invalid_intersection: false,
    }
}

#[test]
fn valid_crossing_reports_no_conflicts() {
    // "hello" and "local" crossing at the shared 'l' cell (2, 0)
    let words = vec![
        word("hello", 0, 0, Direction::Right),
        word("local", 2, 0, Direction::Down),
    ];
    let report = analyze(&words, &strict()).unwrap();
    assert_eq!(report.word_conflicts.len(), 2);
    assert!(report.word_conflicts[0].is_empty());
    assert!(report.word_conflicts[1].is_empty());
    assert!(report.spans.is_empty());
    // the shared cell shows the agreed character
    let cell = report
        .cells
        .iter()
        .find(|c| c.position == Position { x: 2, y: 0 })
        .unwrap();
    assert_eq!(cell.occupants, vec![(0, 2), (1, 0)]);
    assert_eq!(cell.character, Some('l'));
}

#[test]
fn mismatched_crossing_is_invalid_intersection() {
    // at (1, 0) the crossing cell holds 'e' from one word and 'l' from the other
    let words = vec![
        word("hello", 0, 0, Direction::Right),
        word("local", 1, 0, Direction::Down),
    ];
    let report = analyze(&words, &strict()).unwrap();
    assert_eq!(report.word_conflicts[0], vec![(ConflictKind::InvalidIntersection, 1)]);
    assert_eq!(report.word_conflicts[1], vec![(ConflictKind::InvalidIntersection, 0)]);
    // invalid intersections are cell conflicts, not outline spans
    assert!(report.spans.is_empty());
    let cell = report
        .cells
        .iter()
        .find(|c| c.position == Position { x: 1, y: 0 })
        .unwrap();
    assert_eq!(cell.character, None);
}

#[test]
fn touching_colinear_words_conflict() {
    // "at" ends at x = 4, "table" starts at x = 5: adjacent end to head
    let words = vec![
        word("at", 3, 3, Direction::Right),
        word("table", 5, 3, Direction::Right),
    ];
    let report = analyze(&words, &strict()).unwrap();
    assert_eq!(report.word_conflicts[0], vec![(ConflictKind::HeadByHead, 1)]);
    assert_eq!(report.word_conflicts[1], vec![(ConflictKind::HeadByHead, 0)]);
}

#[test]
fn separated_colinear_words_do_not_conflict() {
    // two empty cells between the words: beyond the one-cell margin
    let words = vec![
        word("at", 3, 3, Direction::Right),
        word("table", 7, 3, Direction::Right),
    ];
    let report = analyze(&words, &strict()).unwrap();
    assert!(report.word_conflicts[0].is_empty());
    assert!(report.word_conflicts[1].is_empty());
}

#[test]
fn parallel_words_with_one_gap_column_are_side_by_side() {
    let words = vec![
        word("sezam", 10, -2, Direction::Down),
        word("sezon", 12, -2, Direction::Down),
    ];
    let report = analyze(&words, &strict()).unwrap();
    assert_eq!(report.word_conflicts[0], vec![(ConflictKind::SideBySide, 1)]);
    assert_eq!(report.word_conflicts[1], vec![(ConflictKind::SideBySide, 0)]);
    // the span on "sezam" covers its whole right side: the five cell
    // offsets 1..=5 together with both corners, as the arc from 0 to 6
    assert_eq!(report.spans.len(), 2);
    let on_first = report.spans.iter().find(|s| s.word == 0).unwrap();
    assert_eq!(on_first.kind, ConflictKind::SideBySide);
    assert_eq!(on_first.other, 1);
    assert_eq!((on_first.span.start, on_first.span.end), (0, 6));
    // and the span on "sezon" covers its whole left side
    let on_second = report.spans.iter().find(|s| s.word == 1).unwrap();
    assert_eq!((on_second.span.start, on_second.span.end), (6, 0));
}

#[test]
fn perpendicular_mismatch_has_no_character_and_both_records() {
    // "cat" crossed by "dog" at cell (3, 2): 'a' against 'o'
    let words = vec![
        word("cat", 2, 2, Direction::Right),
        word("dog", 3, 1, Direction::Down),
    ];
    let report = analyze(&words, &strict()).unwrap();
    assert_eq!(report.word_conflicts[0], vec![(ConflictKind::InvalidIntersection, 1)]);
    assert_eq!(report.word_conflicts[1], vec![(ConflictKind::InvalidIntersection, 0)]);
    let cell = report
        .cells
        .iter()
        .find(|c| c.position == Position { x: 3, y: 2 })
        .unwrap();
    assert_eq!(cell.character, None);
    assert_eq!(cell.occupants, vec![(0, 1), (1, 1)]);
    // both occupants' conflicts are inherited by the cell
    assert_eq!(
        cell.conflicts,
        vec![(ConflictKind::InvalidIntersection, 1), (ConflictKind::InvalidIntersection, 0)]
    );
}
