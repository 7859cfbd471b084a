use x4_variants::text::{concat2, concat3, contains, i32_to_string, lines, replace_all, split_terminator};

const SAMPLES: [&str; 8] = ["", "a", "aaa", "abcabc", "x\r\ny\n", "a\nb\r\n\nc\r", "</ware>a</ware>", "héllo wörld"];
const PATTERNS: [&str; 6] = ["", "a", "aa", "abc", "\n", "ö"];

#[test]
fn replace_all_agrees_with_str_replace() {
    for s in SAMPLES {
        for p in PATTERNS {
            for r in ["", "x", "_v_macro"] {
                assert_eq!(replace_all(s, p, r), s.replace(p, r), "{:?} {:?} {:?}", s, p, r);
            }
        }
    }
}

#[test]
fn replace_all_with_empty_pattern_inserts_everywhere() {
    assert_eq!(replace_all("ab", "", "x"), "xaxbx");
    assert_eq!(replace_all("", "", "x"), "x");
}

#[test]
fn replace_all_takes_matches_left_to_right_without_overlap() {
    assert_eq!(replace_all("aaa", "aa", "b"), "ba");
    assert_eq!(replace_all("aabb", "ab", "a"), "aab");
}

#[test]
fn contains_agrees_with_str_contains() {
    for s in SAMPLES {
        for p in PATTERNS {
            assert_eq!(contains(s, p), s.contains(p), "{:?} {:?}", s, p);
        }
    }
}

#[test]
fn lines_agrees_with_str_lines() {
    for s in SAMPLES {
        let expected: Vec<String> = s.lines().map(|l| l.to_string()).collect();
        assert_eq!(lines(s), expected, "{:?}", s);
    }
    assert_eq!(lines("a\r"), vec!["a\r".to_string()]);
    assert_eq!(lines("\n"), vec!["".to_string()]);
}

#[test]
fn split_terminator_agrees_with_str_split_terminator() {
    for s in SAMPLES {
        for sep in ["</ware>", "a", "\n", "aa"] {
            let expected: Vec<String> = s.split_terminator(sep).map(|p| p.to_string()).collect();
            assert_eq!(split_terminator(s, sep), expected, "{:?} {:?}", s, sep);
        }
    }
}

#[test]
fn i32_to_string_agrees_with_to_string() {
    for n in [0, 7, 10, -1, -305, 25000, i32::MAX, i32::MIN] {
        assert_eq!(i32_to_string(n), n.to_string());
    }
}

#[test]
fn concatenation() {
    assert_eq!(concat2("ab", "cd"), "abcd");
    assert_eq!(concat3("a", "", "c"), "ac");
}
