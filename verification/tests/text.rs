use bilibili_webhook::text::{decimal_string, split_on_spaces};

fn strings(v: &[&str]) -> Vec<String> {
    v.iter().map(|s| s.to_string()).collect()
}

#[test]
fn split_empty_gives_one_empty_piece() {
    assert_eq!(split_on_spaces(""), strings(&[""]));
}

#[test]
fn split_plain_words() {
    assert_eq!(split_on_spaces("-q 80 --no-danmaku"), strings(&["-q", "80", "--no-danmaku"]));
}

#[test]
fn split_keeps_empty_pieces_like_std() {
    let s = " a  b ";
    let expected: Vec<String> = s.split(' ').map(|p| p.to_string()).collect();
    assert_eq!(split_on_spaces(s), expected);
    assert_eq!(split_on_spaces(s), strings(&["", "a", "", "b", ""]));
}

#[test]
fn split_non_ascii() {
    assert_eq!(split_on_spaces("收藏 夹"), strings(&["收藏", "夹"]));
}

#[test]
fn split_then_join_gives_back_the_text() {
    for s in ["", " ", "a", "a b", "  x  y ", "--dir 路径 -x"] {
        assert_eq!(split_on_spaces(s).join(" "), s);
    }
}

#[test]
fn decimal_matches_to_string() {
    for n in [0u64, 7, 10, 66458634, 1000000, u64::MAX] {
        assert_eq!(decimal_string(n), n.to_string());
    }
}

#[test]
fn decimal_exact_values() {
    assert_eq!(decimal_string(0), "0");
    assert_eq!(decimal_string(66458634), "66458634");
    assert_eq!(decimal_string(u64::MAX), "18446744073709551615");
}
