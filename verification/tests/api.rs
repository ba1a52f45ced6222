use crossword_playground::analyzer::analyze;
use crossword_playground::compatibility::WordCompatibilitySettings;
use crossword_playground::word::Direction;
use crossword_playground::word::PlacedWord;
use crossword_playground::word::Position;

fn word(s: &str, x: i16, y: i16, d: Direction) -> PlacedWord {
    PlacedWord::new(s.chars().collect(), Position { x, y }, d)
}

#[test]
fn new_keeps_the_fields() {
    let w = word("hey", -3, 7, Direction::Down);
    assert_eq!(w.position, Position { x: -3, y: 7 });
    assert_eq!(w.direction, Direction::Down);
    assert_eq!(w.value, vec!['h', 'e', 'y']);
}

#[test]
fn validity_of_words() {
    assert!(word("a", 0, 0, Direction::Right).is_valid());
    assert!(!word("", 0, 0, Direction::Right).is_valid());
    assert!(word("ab", i16::MAX - 1, i16::MAX, Direction::Right).is_valid());
    assert!(!word("ab", i16::MAX, 0, Direction::Right).is_valid());
    assert!(!word("ab", 0, i16::MAX, Direction::Down).is_valid());
    assert!(word("ab", i16::MAX, i16::MAX - 1, Direction::Down).is_valid());
}

#[test]
fn cells_follow_the_direction() {
    let w = word("abc", 4, -1, Direction::Right);
    assert_eq!(w.cell(0), Position { x: 4, y: -1 });
    assert_eq!(w.cell(2), Position { x: 6, y: -1 });
    let w = word("abc", 4, -1, Direction::Down);
    assert_eq!(w.cell(2), Position { x: 4, y: 1 });
}

#[test]
fn report_lookup_by_cell_and_edge() {
    let words = vec![
        word("hello", 0, 0, Direction::Right),
        word("local", 2, 0, Direction::Down),
    ];
    let report = analyze(&words, &WordCompatibilitySettings::default()).unwrap();
    let cell = report.cell_at(Position { x: 2, y: 3 }).unwrap();
    assert_eq!(cell.occupants, vec![(1, 3)]);
    assert_eq!(cell.character, Some('a'));
    assert!(report.cell_at(Position { x: 7, y: 7 }).is_none());
    let edge = report.edge_at(Position { x: 2, y: 1 }, Direction::Down).unwrap();
    assert_eq!(edge.occupants, vec![1]);
    // the crossing cell belongs to both words, but each boundary keeps
    // its own direction
    assert!(report.edge_at(Position { x: 2, y: 0 }, Direction::Right).is_some());
    assert!(report.edge_at(Position { x: 4, y: 0 }, Direction::Right).is_none());
}
