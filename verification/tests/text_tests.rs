use cdda_map_editor::text::{parse_u32, remove_char, split_first, split_last};

#[test]
fn split_last_gives_text_after_last_separator() {
    assert_eq!(split_last("NAME: TEST\n", "NAME: "), "TEST\n");
    assert_eq!(split_last("a to b to c", " to "), "c");
    assert_eq!(split_last("no marker", "NAME: "), "no marker");
    assert_eq!(split_last("", " to "), "");
}

#[test]
fn split_last_cuts_from_the_left_like_str_split() {
    // " to " can overlap itself; `str::split` takes matches from the left.
    let expected: &str = " to to ".split(" to ").last().unwrap();
    assert_eq!(split_last(" to to ", " to "), expected);
    assert_eq!(split_last(" to to ", " to "), "to ");
}

#[test]
fn split_first_gives_text_before_first_separator() {
    assert_eq!(split_first("range 1 to 2", " to "), "range 1");
    assert_eq!(split_first("nothing", " to "), "nothing");
    assert_eq!(split_first(" to x", " to "), "");
}

#[test]
fn remove_char_drops_every_occurrence() {
    assert_eq!(remove_char("a\nb\n", '\n'), "ab");
    assert_eq!(remove_char("\n\n", '\n'), "");
    assert_eq!(remove_char("abc", '\n'), "abc");
}

#[test]
fn parse_u32_reads_like_str_parse() {
    assert_eq!(parse_u32("0"), Some(0));
    assert_eq!(parse_u32("42"), Some(42));
    assert_eq!(parse_u32("+7"), Some(7));
    assert_eq!(parse_u32("4294967295"), Some(4294967295));
    assert_eq!(parse_u32("4294967296"), None);
    assert_eq!(parse_u32(""), None);
    assert_eq!(parse_u32("+"), None);
    assert_eq!(parse_u32("-1"), None);
    assert_eq!(parse_u32("1 "), None);
    for s in ["12", "007", "99999999999", "x1", "+0"] {
        assert_eq!(parse_u32(s), s.parse::<u32>().ok());
    }
}
