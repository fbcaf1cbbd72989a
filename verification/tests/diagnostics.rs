use gecko::error::{Error, LineInfo, Note};
use gecko::text::{push_decimal, push_signed_decimal};

#[test]
fn display_gives_line_and_span() {
    let error = Error::new(LineInfo::new(3, 10, 12), String::from("Unterminated string"));
    assert_eq!(error.display(), "3:10-12: Unterminated string");
}

#[test]
fn display_of_large_and_small_numbers() {
    let error = Error::new(LineInfo::new(0, 9, 10), String::new());
    assert_eq!(error.display(), "0:9-10: ");
    let far = Error::new(LineInfo::new(usize::MAX, 100, 1099), String::from("m"));
    assert_eq!(far.display(), format!("{}:100-1099: m", usize::MAX));
}

#[test]
fn new_error_has_no_notes() {
    let error = Error::new(LineInfo::new(1, 2, 3), String::from("m"));
    assert_eq!(error.line_info, LineInfo::new(1, 2, 3));
    assert_eq!(error.message, "m");
    assert!(error.notes.is_empty());
}

#[test]
fn error_keeps_its_notes() {
    let notes = vec![Note::Expected(String::from("';'")), Note::Note(String::from("here"))];
    let error = Error::new_with_notes(LineInfo::new(1, 2, 3), String::from("m"), notes);
    assert_eq!(
        error.notes,
        vec![Note::Expected(String::from("';'")), Note::Note(String::from("here"))]
    );
    assert_eq!(error.display(), "1:2-3: m");
}

#[test]
fn line_info_keeps_its_parts() {
    let info = LineInfo::new(7, 8, 9);
    assert_eq!((info.line, info.start, info.end), (7, 8, 9));
}

#[test]
fn decimal_numerals() {
    let mut out = String::from("n=");
    push_decimal(&mut out, 0);
    out.push(',');
    push_decimal(&mut out, 7);
    out.push(',');
    push_decimal(&mut out, 10);
    out.push(',');
    push_decimal(&mut out, 18446744073709551615);
    out.push(',');
    push_signed_decimal(&mut out, -1);
    out.push(',');
    push_signed_decimal(&mut out, 305);
    assert_eq!(out, "n=0,7,10,18446744073709551615,-1,305");
}
