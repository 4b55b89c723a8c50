use sqlite_statement::source::{remainder, tail_is_valid, Batch};

#[test]
fn tail_at_the_end_leaves_nothing() {
    let source = "SELECT 1;";
    assert!(tail_is_valid(source, source.len()));
    assert_eq!(remainder(source, source.len()), "");
}

#[test]
fn tail_at_the_start_keeps_everything() {
    assert!(tail_is_valid("SELECT 1;", 0));
    assert_eq!(remainder("SELECT 1;", 0), "SELECT 1;");
    assert!(tail_is_valid("", 0));
    assert_eq!(remainder("", 0), "");
}

#[test]
fn tail_behind_the_end_is_not_valid() {
    assert!(!tail_is_valid("SELECT 1;", 10));
    assert!(!tail_is_valid("", 1));
}

#[test]
fn tail_inside_a_character_is_not_valid() {
    // the second character takes two bytes
    let source = "'\u{e9}';";
    assert!(tail_is_valid(source, 1));
    assert!(!tail_is_valid(source, 2));
    assert!(tail_is_valid(source, 3));
}

#[test]
fn leading_white_space_goes_and_trailing_stays() {
    assert_eq!(remainder("SELECT 1;  SELECT 2; \n", 9), "SELECT 2; \n");
    assert_eq!(remainder("SELECT 1; \r\n\t\u{b}\u{c}x ", 9), "x ");
    assert_eq!(remainder("SELECT 1;   ", 9), "");
}

#[test]
fn white_space_beyond_ascii_goes_too() {
    assert_eq!(remainder(";\u{85}\u{a0}\u{1680}\u{2000}\u{200a}\u{2028}\u{2029}x", 1), "x");
    assert_eq!(remainder(";\u{202f}\u{205f}\u{3000}SELECT", 1), "SELECT");
}

#[test]
fn what_only_looks_like_white_space_stays() {
    assert_eq!(remainder("; \u{200b}x", 1), "\u{200b}x");
    assert_eq!(remainder(";\u{180e}x", 1), "\u{180e}x");
    assert_eq!(remainder(";\u{feff}x", 1), "\u{feff}x");
    assert_eq!(remainder(";\u{1f}x", 1), "\u{1f}x");
    assert_eq!(remainder(";\u{8}x", 1), "\u{8}x");
}

#[test]
fn remainder_begins_at_or_behind_the_tail() {
    let source = "SELECT 1; \u{3000}SELECT 'caf\u{e9}';";
    let rest = remainder(source, 9);
    assert_eq!(rest, "SELECT 'caf\u{e9}';");
    let offset = source.len() - rest.len();
    assert_eq!(offset, 13);
    assert!(9 <= offset && offset <= source.len());
}

#[test]
fn new_batch_keeps_its_text_as_it_is() {
    let batch = Batch::new("  SELECT 1;");
    assert_eq!(batch.text(), "  SELECT 1;");
    assert_eq!(batch.position(), 0);
    assert!(batch.tail_is_valid(11));
    assert!(!batch.tail_is_valid(12));
}

#[test]
fn advance_gives_the_end_and_moves_behind_the_white_space() {
    let mut batch = Batch::new("SELECT 1; \u{a0}SELECT 2;");
    assert_eq!(batch.advance(9), 9);
    assert_eq!(batch.position(), 12);
    assert_eq!(batch.text(), "SELECT 2;");
    assert_eq!(batch.advance(9), 21);
    assert_eq!(batch.position(), 21);
    assert_eq!(batch.text(), "");
    // a tail of zero is where the ends do not move apart
    assert_eq!(batch.advance(0), 21);
    assert_eq!(batch.position(), 21);
}
