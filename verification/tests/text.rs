use templater::order::{comes_before, stable_order};
use templater::replace::replace_all;
use templater::text::{
    append_text, chars_of, find, find_from, matches_at, same_str, same_text, string_of,
};
use templater::trim::trim;
use templater::utils::{
    capitalize_first_letter_ascii, capitalize_text, decimal_of, has_extension, to_ascii_upper,
};

fn cs(s: &str) -> Vec<char> {
    s.chars().collect()
}

fn replace(text: &str, pat: &str, with: &str) -> String {
    string_of(&replace_all(&cs(text), &cs(pat), &cs(with)))
}

#[test]
fn chars_round_trip() {
    for s in ["", "a", "Blue Moon", "żółć \u{1F3B5}\n"] {
        assert_eq!(chars_of(s), cs(s));
        assert_eq!(string_of(&chars_of(s)), s);
    }
}

#[test]
fn equality_of_texts() {
    assert!(same_str("", ""));
    assert!(same_str("title", "title"));
    assert!(!same_str("title", "Title"));
    assert!(!same_str("title", "titles"));
    assert!(!same_str("titles", "title"));
    assert!(same_text(&cs("é"), &cs("é")));
    assert!(!same_text(&cs("ab"), &cs("ba")));
}

#[test]
fn search_finds_the_leftmost_occurrence() {
    assert_eq!(find(&cs("a\n---\nb\n---\n"), &cs("\n---")), Some(1));
    assert_eq!(find(&cs("---\nb"), &cs("\n---")), None);
    assert_eq!(find(&cs(""), &cs("x")), None);
    assert_eq!(find(&cs(""), &cs("")), Some(0));
    assert_eq!(find(&cs("abc"), &cs("")), Some(0));
    assert_eq!(find(&cs("abc"), &cs("abcd")), None);
    assert_eq!(find(&cs("aab"), &cs("ab")), Some(1));
    assert_eq!(find_from(&cs("abab"), &cs("ab"), 1), Some(2));
    assert_eq!(find_from(&cs("abab"), &cs("ab"), 3), None);
    assert_eq!(find_from(&cs("abab"), &cs("ab"), 9), None);
    assert_eq!(find_from(&cs("ab"), &cs(""), 2), Some(2));
    assert!(matches_at(&cs("abc"), &cs("bc"), 1));
    assert!(!matches_at(&cs("abc"), &cs("bc"), 2));
    assert!(!matches_at(&cs("abc"), &cs("bc"), 7));
}

#[test]
fn replacement_is_literal_and_left_to_right() {
    assert_eq!(replace("a %%X%% b %%X%%", "%%X%%", "1"), "a 1 b 1");
    assert_eq!(replace("aaa", "aa", "b"), "ba");
    assert_eq!(replace("aaaa", "aa", "b"), "bb");
    assert_eq!(replace("abc", "x", "y"), "abc");
    assert_eq!(replace("", "x", "y"), "");
    assert_eq!(replace("abc", "abc", ""), "");
    assert_eq!(replace("abc", "", "y"), "abc");
    assert_eq!(replace("%%%X%%", "%%X%%", "1"), "%1");
    assert_eq!(replace("xx", "x", "xx"), "xxxx");
    let cases = [("a-b-c", "-", "+"), ("%%T%% %%T%%", "%%T%%", "żółć"), ("abab", "ab", "ab")];
    for (text, pat, with) in cases {
        assert_eq!(replace(text, pat, with), text.replace(pat, with));
    }
}

#[test]
fn trimming_strips_white_space_at_both_ends() {
    assert_eq!(string_of(&trim(&cs("  a b \t\r\n"))), "a b");
    assert_eq!(string_of(&trim(&cs("\u{a0}\u{3000}x\u{2003}"))), "x");
    assert_eq!(string_of(&trim(&cs(" \n "))), "");
    assert_eq!(string_of(&trim(&cs(""))), "");
    assert_eq!(string_of(&trim(&cs("x"))), "x");
}

#[test]
fn order_is_lexicographic_and_case_counts() {
    assert!(comes_before(&cs("Amazing Grace"), &cs("Blue Moon")));
    assert!(comes_before(&cs("Blue Moon"), &cs("Zebra Song")));
    assert!(!comes_before(&cs("Zebra Song"), &cs("Amazing Grace")));
    assert!(comes_before(&cs("Zebra"), &cs("apple")));
    assert!(comes_before(&cs("Blue"), &cs("Blue Moon")));
    assert!(!comes_before(&cs("Blue"), &cs("Blue")));
    assert!(comes_before(&cs(""), &cs("a")));
    assert!(!comes_before(&cs(""), &cs("")));
    for (a, b) in [("a", "b"), ("é", "z"), ("z", "é"), ("\u{ffff}", "\u{10000}"), ("ab", "a")] {
        assert_eq!(comes_before(&cs(a), &cs(b)), a < b);
    }
}

#[test]
fn decimal_numerals() {
    for n in [0usize, 1, 9, 10, 11, 42, 99, 100, 101, 12345, usize::MAX] {
        assert_eq!(string_of(&decimal_of(n)), n.to_string());
    }
}

#[test]
fn capitalisation_touches_the_first_letter_only() {
    assert_eq!(capitalize_first_letter_ascii("concert"), "Concert");
    assert_eq!(capitalize_first_letter_ascii("Concert"), "Concert");
    assert_eq!(capitalize_first_letter_ascii("bB flat"), "BB flat");
    assert_eq!(capitalize_first_letter_ascii(""), "");
    assert_eq!(capitalize_first_letter_ascii("z"), "Z");
    assert_eq!(capitalize_first_letter_ascii("a"), "A");
    assert_eq!(capitalize_first_letter_ascii("école"), "école");
    assert_eq!(capitalize_first_letter_ascii("1st"), "1st");
    assert_eq!(capitalize_text(&cs("eb")), cs("Eb"));
    assert_eq!(to_ascii_upper('m'), 'M');
    assert_eq!(to_ascii_upper('`'), '`');
    assert_eq!(to_ascii_upper('{'), '{');
}

#[test]
fn appending() {
    let mut out = cs("ab");
    append_text(&mut out, &cs("cd"));
    append_text(&mut out, &cs(""));
    assert_eq!(out, cs("abcd"));
}

#[test]
fn extension_of_a_file_name() {
    assert!(has_extension("blue-moon.ly", "ly"));
    assert!(has_extension("a.b.ly", "ly"));
    assert!(!has_extension(".ly", "ly"));
    assert!(!has_extension("ly", "ly"));
    assert!(!has_extension("blue-moon.ly~", "ly"));
    assert!(!has_extension("blue-moon.LY", "ly"));
    assert!(!has_extension("blue-moonly", "ly"));
    assert!(!has_extension("", "ly"));
    assert!(has_extension("a.", ""));
}

#[test]
fn stable_order_of_titles() {
    let titles: Vec<Vec<char>> = ["b", "a", "b", "", "a"].iter().map(|t| cs(t)).collect();
    assert_eq!(stable_order(&titles), vec![3, 1, 4, 0, 2]);
    assert_eq!(stable_order(&vec![]), Vec::<usize>::new());
}
