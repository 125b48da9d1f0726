use foto::readme::{find_marker, replace_between, splice_usage, MarkerError};

const START: &str = "<!-- start: CLI USAGE -->";
const END: &str = "<!-- end: CLI USAGE -->";

#[test]
fn marker_is_found_where_it_first_stands() {
    assert_eq!(find_marker(b"abcabc", b"bc"), Some(1));
    assert_eq!(find_marker(b"abcabc", b"abcabc"), Some(0));
    assert_eq!(find_marker(b"aaab", b"ab"), Some(2));
    assert_eq!(find_marker(b"abc", b"c"), Some(2));
}

#[test]
fn marker_that_does_not_occur_is_not_found() {
    assert_eq!(find_marker(b"abcabc", b"cb"), None);
    assert_eq!(find_marker(b"ab", b"abc"), None);
    assert_eq!(find_marker(b"", b"a"), None);
}

#[test]
fn empty_marker_stands_at_the_beginning() {
    assert_eq!(find_marker(b"abc", b""), Some(0));
    assert_eq!(find_marker(b"", b""), Some(0));
}

#[test]
fn marker_search_agrees_with_str_find() {
    let text = "one <!-- two --> three <!-- two --> four";
    for marker in ["<!--", "-->", "two", "four", "five", "o", " "] {
        assert_eq!(find_marker(text.as_bytes(), marker.as_bytes()), text.find(marker));
    }
}

#[test]
fn text_between_markers_is_replaced() {
    let out = replace_between(b"head[old]tail", b"[", b"]", b"new").unwrap();
    assert_eq!(out, b"head[new]tail".to_vec());
    let out = replace_between(b"[]", b"[", b"]", b"x").unwrap();
    assert_eq!(out, b"[x]".to_vec());
    let out = replace_between(b"a[b]c[d]e", b"[", b"]", b"").unwrap();
    assert_eq!(out, b"a[]c[d]e".to_vec());
}

#[test]
fn missing_markers_are_reported() {
    assert_eq!(replace_between(b"head old]tail", b"[", b"]", b"new"), Err(MarkerError::MissingStart));
    assert_eq!(replace_between(b"head[old tail", b"[", b"]", b"new"), Err(MarkerError::MissingEnd));
    assert_eq!(replace_between(b"", b"[", b"]", b"new"), Err(MarkerError::MissingStart));
}

#[test]
fn markers_out_of_order_are_reported() {
    assert_eq!(replace_between(b"a]b[c", b"[", b"]", b"new"), Err(MarkerError::OutOfOrder));
    assert_eq!(replace_between(b"xabcx", b"ab", b"bc", b"new"), Err(MarkerError::OutOfOrder));
}

#[test]
fn usage_is_set_between_the_usage_markers() {
    let content = format!("# Title\n{}\nstale\n{}\nfooter\n", START, END);
    let out = splice_usage(content.as_bytes(), b"fresh").unwrap();
    let mut expected = content.clone();
    let from = content.find(START).unwrap() + START.len();
    let to = content.find(END).unwrap();
    expected.replace_range(from..to, &format!("\n\n{}\n", "fresh"));
    assert_eq!(String::from_utf8(out).unwrap(), expected);
    assert_eq!(
        expected,
        format!("# Title\n{}\n\nfresh\n{}\nfooter\n", START, END)
    );
}

#[test]
fn usage_needs_both_markers_in_order() {
    let no_start = format!("text {}", END);
    assert_eq!(splice_usage(no_start.as_bytes(), b"x"), Err(MarkerError::MissingStart));
    let no_end = format!("{} text", START);
    assert_eq!(splice_usage(no_end.as_bytes(), b"x"), Err(MarkerError::MissingEnd));
    let swapped = format!("{} text {}", END, START);
    assert_eq!(splice_usage(swapped.as_bytes(), b"x"), Err(MarkerError::OutOfOrder));
}
