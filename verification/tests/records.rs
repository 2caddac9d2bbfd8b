use sec_authentication::records::{frame_records, split_records};

fn strings(v: &[&str]) -> Vec<String> {
    v.iter().map(|s| s.to_string()).collect()
}

#[test]
fn split_records_empty_text_has_no_line() {
    assert_eq!(split_records(""), Vec::<String>::new());
}

#[test]
fn split_records_without_final_newline() {
    assert_eq!(split_records("a\nb"), strings(&["a", "b"]));
}

#[test]
fn split_records_final_newline_opens_no_line() {
    assert_eq!(split_records("a\nb\n"), strings(&["a", "b"]));
}

#[test]
fn split_records_crlf_endings() {
    assert_eq!(split_records("a\r\nb\r\n"), strings(&["a", "b"]));
}

#[test]
fn split_records_bare_cr_at_end_is_kept() {
    assert_eq!(split_records("a\r"), strings(&["a\r"]));
}

#[test]
fn split_records_empty_lines() {
    assert_eq!(split_records("\n\nx"), strings(&["", "", "x"]));
}

#[test]
fn split_records_non_ascii() {
    assert_eq!(split_records("é\nñü\n"), strings(&["é", "ñü"]));
}

#[test]
fn frame_records_appends_newlines() {
    assert_eq!(frame_records(&strings(&["x", "y"])), "x\ny\n");
    assert_eq!(frame_records(&Vec::new()), "");
}

#[test]
fn framed_records_read_back() {
    let records = strings(&[r#"{"email":"a@b.com"}"#, "", r#"{"x":"y\nz"}"#]);
    let text = frame_records(&records);
    assert_eq!(split_records(&text), records);
}
