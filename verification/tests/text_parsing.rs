use system_monitor::text::{strip_leading_exec, strip_trailing_exec};
use system_monitor::text::{
    chars_of, contains_exec, lines_of, parse_trimmed_u64, read_u64_or_zero, str_contains,
    str_starts_with, string_from, trim_str, trimmed_equals, words_of, Separator, split_pieces,
};

fn strings(pieces: &Vec<Vec<char>>) -> Vec<String> {
    pieces.iter().map(|p| p.iter().collect()).collect()
}

#[test]
fn trimming_follows_str_trim() {
    for s in ["", "   ", " abc ", "\t0x8086\n", "a b", "\u{3000}x\u{85}", "x\r\n"] {
        assert_eq!(trim_str(s), s.trim());
    }
}

#[test]
fn parsing_follows_str_parse() {
    for s in ["0", " 42\n", "+7", "-1", "", "   ", "12a", "18446744073709551615", "18446744073709551616", "+", "007"] {
        assert_eq!(parse_trimmed_u64(s), s.trim().parse::<u64>().ok(), "input {:?}", s);
    }
    assert_eq!(read_u64_or_zero(Some("123\n")), 123);
    assert_eq!(read_u64_or_zero(Some("garbage")), 0);
    assert_eq!(read_u64_or_zero(None), 0);
}

#[test]
fn searching_follows_str_methods() {
    assert!(str_contains("drm-driver:\ti915", "i915"));
    assert!(!str_contains("amdgpu", "i915"));
    assert!(str_contains("abc", ""));
    assert!(str_starts_with("renderD128", "renderD"));
    assert!(!str_starts_with("card0", "renderD"));
    assert!(contains_exec(&chars_of("a*b"), &chars_of("*")));
    assert!(trimmed_equals(" 0x1022\n", "0x1022"));
    assert!(!trimmed_equals("0x10222", "0x1022"));
}

#[test]
fn splitting_follows_str_methods() {
    let s = "a:b::c";
    let pieces = split_pieces(&chars_of(s), Separator::Char(':'));
    assert_eq!(strings(&pieces), s.split(':').map(String::from).collect::<Vec<_>>());
    let w = "  one two\tthree  ";
    assert_eq!(strings(&words_of(&chars_of(w))), w.split_whitespace().map(String::from).collect::<Vec<_>>());
    let text = "first\r\nsecond\n\nlast";
    assert_eq!(strings(&lines_of(&chars_of(text))), text.lines().map(String::from).collect::<Vec<_>>());
    let trailing = "x\n";
    assert_eq!(strings(&lines_of(&chars_of(trailing))), vec!["x".to_string()]);
    assert_eq!(string_from(&chars_of("héllo")), "héllo");
}

#[test]
fn stripping_runs_of_a_character() {
    let s = "\"\"7.5\"";
    let lead: String = strip_leading_exec(&chars_of(s), '"').into_iter().collect();
    assert_eq!(lead, s.trim_start_matches('"'));
    let both: String = strip_trailing_exec(&strip_leading_exec(&chars_of(s), '"'), '"').into_iter().collect();
    assert_eq!(both, s.trim_matches('"'));
    let all: String = strip_leading_exec(&chars_of("\"\"\""), '"').into_iter().collect();
    assert_eq!(all, "");
}
