use crossword_playground::compatibility::ConflictKind;
use crossword_playground::compatibility::WordCompatibilitySettings;
use crossword_playground::word::Direction;
use crossword_playground::word::PlacedWord;
use crossword_playground::word::Position;

fn word(s: &str, x: i16, y: i16, d: Direction) -> PlacedWord {
    PlacedWord { position: Position { x, y }, direction: d, value: s.chars().collect() }
}

fn strict() -> WordCompatibilitySettings {
    WordCompatibilitySettings {
        side_by_side: false,
        head_by_head: false,
        side_by_head: false,
        corner_by_corner: false,
        invalid_intersection: false,
    }
}

#[test]
fn corner_by_corner_touching() {
    let a = word("ab", 0, 0, Direction::Right);
    let b = word("cd", 2, 1, Direction::Right);
    assert_eq!(strict().word_compatibility_issue(&a, &b), Some(ConflictKind::CornerByCorner));
}

#[test]
fn corner_by_corner_within_margin() {
    // separated by one empty cell on both axes
    let a = word("ab", 0, 0, Direction::Right);
    let b = word("cd", 3, 2, Direction::Down);
    assert_eq!(strict().word_compatibility_issue(&a, &b), Some(ConflictKind::CornerByCorner));
}

#[test]
fn far_apart_words_have_no_issue() {
    let a = word("ab", 0, 0, Direction::Right);
    let b = word("cd", 4, 0, Direction::Right);
    assert_eq!(strict().word_compatibility_issue(&a, &b), None);
    let c = word("cd", 0, 3, Direction::Right);
    assert_eq!(strict().word_compatibility_issue(&a, &c), None);
}

#[test]
fn side_by_side_touching_rows() {
    let a = word("hello", 0, 0, Direction::Right);
    let b = word("world", 2, 1, Direction::Right);
    assert_eq!(strict().word_compatibility_issue(&a, &b), Some(ConflictKind::SideBySide));
}

#[test]
fn side_by_head_perpendicular_end() {
    // a vertical word right after the tail of a horizontal one
    let a = word("hello", 0, 0, Direction::Right);
    let b = word("dry", 5, 0, Direction::Down);
    assert_eq!(strict().word_compatibility_issue(&a, &b), Some(ConflictKind::SideByHead));
}

#[test]
fn side_by_head_below_a_word() {
    let a = word("hello", 0, 0, Direction::Right);
    let b = word("dry", 2, 1, Direction::Down);
    assert_eq!(strict().word_compatibility_issue(&a, &b), Some(ConflictKind::SideByHead));
}

#[test]
fn same_direction_overlap_is_direct_overlap() {
    let a = word("hello", 0, 0, Direction::Right);
    let b = word("help", 0, 0, Direction::Right);
    assert_eq!(strict().word_compatibility_issue(&a, &b), Some(ConflictKind::DirectOverlap));
    // a partial overlap conflicts too, even where the letters agree
    let c = word("lone", 3, 0, Direction::Right);
    assert_eq!(strict().word_compatibility_issue(&a, &c), Some(ConflictKind::DirectOverlap));
}

#[test]
fn evaluation_is_symmetric() {
    let pairs = vec![
        (word("hello", 0, 0, Direction::Right), word("local", 1, 0, Direction::Down)),
        (word("at", 3, 3, Direction::Right), word("table", 5, 3, Direction::Right)),
        (word("sezam", 10, -2, Direction::Down), word("sezon", 12, -2, Direction::Down)),
        (word("ab", 0, 0, Direction::Right), word("cd", 2, 1, Direction::Right)),
        (word("hello", 0, 0, Direction::Right), word("dry", 5, 0, Direction::Down)),
    ];
    for (a, b) in pairs {
        assert_eq!(
            strict().word_compatibility_issue(&a, &b),
            strict().word_compatibility_issue(&b, &a)
        );
    }
}

#[test]
fn each_flag_accepts_its_own_kind() {
    let corner = (word("ab", 0, 0, Direction::Right), word("cd", 2, 1, Direction::Right));
    let head = (word("at", 3, 3, Direction::Right), word("table", 5, 3, Direction::Right));
    let side = (word("sezam", 10, -2, Direction::Down), word("sezon", 12, -2, Direction::Down));
    let sidehead = (word("hello", 0, 0, Direction::Right), word("dry", 5, 0, Direction::Down));
    let invalid = (word("hello", 0, 0, Direction::Right), word("local", 1, 0, Direction::Down));

    let s = WordCompatibilitySettings { corner_by_corner: true, ..strict() };
    assert_eq!(s.word_compatibility_issue(&corner.0, &corner.1), None);
    let s = WordCompatibilitySettings { head_by_head: true, ..strict() };
    assert_eq!(s.word_compatibility_issue(&head.0, &head.1), None);
    let s = WordCompatibilitySettings { side_by_side: true, ..strict() };
    assert_eq!(s.word_compatibility_issue(&side.0, &side.1), None);
    let s = WordCompatibilitySettings { side_by_head: true, ..strict() };
    assert_eq!(s.word_compatibility_issue(&sidehead.0, &sidehead.1), None);
    let s = WordCompatibilitySettings { invalid_intersection: true, ..strict() };
    assert_eq!(s.word_compatibility_issue(&invalid.0, &invalid.1), None);
}

#[test]
fn a_flag_does_not_accept_other_kinds() {
    // accepting corners leaves a side-by-side conflict in place
    let s = WordCompatibilitySettings { corner_by_corner: true, ..strict() };
    let a = word("sezam", 10, -2, Direction::Down);
    let b = word("sezon", 12, -2, Direction::Down);
    assert_eq!(s.word_compatibility_issue(&a, &b), Some(ConflictKind::SideBySide));
}

#[test]
fn direct_overlap_has_no_accepting_flag() {
    let s = WordCompatibilitySettings {
        side_by_side: true,
        head_by_head: true,
        side_by_head: true,
        corner_by_corner: true,
        invalid_intersection: true,
    };
    let a = word("hello", 0, 0, Direction::Right);
    let b = word("help", 0, 0, Direction::Right);
    assert_eq!(s.word_compatibility_issue(&a, &b), Some(ConflictKind::DirectOverlap));
}

#[test]
fn default_settings_accept_corners_only() {
    let s = WordCompatibilitySettings::default();
    assert!(s.corner_by_corner);
    assert!(!s.side_by_side);
    assert!(!s.head_by_head);
    assert!(!s.side_by_head);
    assert!(!s.invalid_intersection);
    let a = word("ab", 0, 0, Direction::Right);
    let b = word("cd", 2, 1, Direction::Right);
    assert_eq!(s.word_compatibility_issue(&a, &b), None);
}
