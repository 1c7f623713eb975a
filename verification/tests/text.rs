use netscanner::text::{
    char_is_whitespace, chars_eq_ignore_ascii_case, chars_start_with_ignore_ascii_case, chars_to_string,
    contains_str, join_chars, lines_of, parse_unsigned_chars, split_chars, str_to_chars, take_chars, trim_chars,
};

fn s(v: &[char]) -> String {
    v.iter().collect()
}

#[test]
fn whitespace_matches_char_is_whitespace() {
    for c in (0u32..0x11000).filter_map(char::from_u32) {
        assert_eq!(char_is_whitespace(c), c.is_whitespace(), "char {:?}", c);
    }
}

#[test]
fn trim_matches_str_trim() {
    for t in ["", "  ", " a ", "\u{3000}x\u{85}", "a b", "\r\nz\t", "\u{200b}y"].iter() {
        assert_eq!(s(&trim_chars(&str_to_chars(t))), t.trim());
    }
}

#[test]
fn lines_match_str_lines() {
    for t in ["", "\n", "a", "a\n", "a\r\nb", "a\rb\n", "a\n\nb\r", "\r\n\r\n", "x\r"].iter() {
        let ours: Vec<String> = lines_of(&str_to_chars(t)).iter().map(|l| s(l)).collect();
        let std_lines: Vec<String> = t.lines().map(|l| l.to_string()).collect();
        assert_eq!(ours, std_lines, "text {:?}", t);
    }
}

#[test]
fn split_matches_str_split() {
    for t in ["", ",", "a,b", ",a,,b,"].iter() {
        let ours: Vec<String> = split_chars(&str_to_chars(t), ',').iter().map(|l| s(l)).collect();
        let std_parts: Vec<String> = t.split(',').map(|l| l.to_string()).collect();
        assert_eq!(ours, std_parts);
    }
}

#[test]
fn unsigned_parsing_matches_from_str() {
    let inputs = ["0", "65535", "65536", "+80", "+", "-1", "", "00080", "8 0", "1e3", "4294967295", "4294967296", "++1"];
    for t in inputs.iter() {
        let ours16 = parse_unsigned_chars(&str_to_chars(t), 65535).map(|v| v as u16);
        assert_eq!(ours16, t.parse::<u16>().ok(), "u16 {:?}", t);
        let ours32 = parse_unsigned_chars(&str_to_chars(t), u32::MAX);
        assert_eq!(ours32, t.parse::<u32>().ok(), "u32 {:?}", t);
    }
}

#[test]
fn ascii_case_comparisons() {
    assert!(chars_eq_ignore_ascii_case(&str_to_chars("ToP"), "top"));
    assert!(!chars_eq_ignore_ascii_case(&str_to_chars("tops"), "top"));
    assert!(chars_start_with_ignore_ascii_case(&str_to_chars("Server: x"), "server:"));
    assert!(!chars_start_with_ignore_ascii_case(&str_to_chars("Serve"), "server:"));
}

#[test]
fn substrings_takes_and_joins() {
    assert!(contains_str(&str_to_chars("a._tcp.local"), "._tcp"));
    assert!(!contains_str(&str_to_chars("a.tcp"), "._tcp"));
    assert!(contains_str(&str_to_chars("x"), ""));
    assert_eq!(s(&take_chars(&str_to_chars("héllo"), 2)), "hé");
    assert_eq!(s(&take_chars(&str_to_chars("hi"), 60)), "hi");
    let parts = vec![str_to_chars("a"), str_to_chars(""), str_to_chars("b")];
    assert_eq!(s(&join_chars(&parts, '.')), "a..b");
    assert_eq!(chars_to_string(&str_to_chars("ação")), "ação");
}


#[test]
fn ascii_prefix_test_agrees_with_lowercasing() {
    let lines = ["Server: a", "SERVER:b", "LOCATION: c", "Locat\u{130}on: d", "\u{212a}server:", "server", "sErVeR:", "location"];
    for l in lines.iter() {
        let chars = str_to_chars(l);
        for prefix in ["server:", "location:"].iter() {
            assert_eq!(
                chars_start_with_ignore_ascii_case(&chars, prefix),
                l.to_lowercase().starts_with(prefix),
                "line {:?} prefix {:?}",
                l,
                prefix
            );
        }
    }
    for t in ["top", "TOP", "tOp", "t\u{130}p", "to", "topp"].iter() {
        assert_eq!(chars_eq_ignore_ascii_case(&str_to_chars(t), "top"), t.to_lowercase() == "top");
    }
}
