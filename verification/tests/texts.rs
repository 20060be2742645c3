use slide_creator::num::{decimal, human_bytes, parse_u32, suffix_of};
use slide_creator::text::{
    bytes_within, capitalize, clip_bytes, collapse, contains_char, ends_with, lower_case, same,
    sanitize_name, starts_with, strip_prefix, trim, trim_end_char, truncate,
};

fn shown(n: usize) -> String {
    if n < 1024 {
        format!("{n} B")
    } else if n < 1024 * 1024 {
        format!("{:.1} KB", n as f64 / 1024.0)
    } else {
        format!("{:.1} MB", n as f64 / 1_048_576.0)
    }
}

#[test]
fn sizes_read_as_with_floats() {
    let mut n: usize = 0;
    while n < 3_000_000 {
        assert_eq!(human_bytes(n), shown(n), "{n}");
        n += 37;
    }
    for k in 10..64 {
        let p = 1usize << k;
        for d in [0usize, 1, 2, 51, 52, 53, 102, 512] {
            assert_eq!(human_bytes(p + d), shown(p + d), "{}", p + d);
            assert_eq!(human_bytes(p - 1 - d), shown(p - 1 - d), "{}", p - 1 - d);
        }
    }
    for n in [usize::MAX, usize::MAX - 1, usize::MAX / 3, usize::MAX / 7, 1_234_567_890_123_456_789] {
        assert_eq!(human_bytes(n), shown(n), "{n}");
    }
    for k in 0..20_000usize {
        let n = 1024 + k;
        assert_eq!(human_bytes(n), shown(n), "{n}");
        let n = 1_048_576 + k * 5243;
        assert_eq!(human_bytes(n), shown(n), "{n}");
        let n = (1usize << 53) + k * 977;
        assert_eq!(human_bytes(n), shown(n), "{n}");
    }
}

#[test]
fn exact_sizes() {
    assert_eq!(human_bytes(0), "0 B");
    assert_eq!(human_bytes(1023), "1023 B");
    assert_eq!(human_bytes(1024), "1.0 KB");
    assert_eq!(human_bytes(1536), "1.5 KB");
    assert_eq!(human_bytes(1_048_576), "1.0 MB");
}

#[test]
fn numbers_in_decimal() {
    assert_eq!(decimal(0), "0");
    assert_eq!(decimal(1_234_567_890), "1234567890");
    assert_eq!(decimal(u128::MAX), format!("{}", u128::MAX));
}

#[test]
fn numbers_are_parsed_as_std_does() {
    for s in ["", "0", "7", "+7", "-7", "++7", "+", "4294967295", "4294967296", "00012", "1a", " 1"] {
        assert_eq!(parse_u32(s), s.parse::<u32>().ok(), "{s:?}");
    }
}

#[test]
fn the_number_at_the_end_of_an_id() {
    assert_eq!(suffix_of("s12"), 12);
    assert_eq!(suffix_of("img"), 0);
    assert_eq!(suffix_of("a1b22"), 22);
    assert_eq!(suffix_of("99999999999"), 0);
}

#[test]
fn white_space_is_trimmed_as_std_does() {
    for u in 0..0x11_0000u32 {
        if let Some(c) = char::from_u32(u) {
            let s: String = [c, 'x', c].iter().collect();
            assert_eq!(trim(&s), s.trim(), "{u:x}");
        }
    }
    assert_eq!(trim("  a b \n"), "a b");
    assert_eq!(trim(" \t "), "");
}

#[test]
fn words_are_joined_by_one_space() {
    for s in ["", "  ", "a", " a  b\nc ", "x\u{2003}y", "one two"] {
        let want = s.split_whitespace().collect::<Vec<_>>().join(" ");
        assert_eq!(collapse(s), want);
    }
}

#[test]
fn texts_are_clipped_by_characters() {
    assert_eq!(truncate("héllo", 2), "hé");
    assert_eq!(truncate("ab", 5), "ab");
}

#[test]
fn texts_are_clipped_by_bytes_at_characters() {
    assert_eq!(clip_bytes("aé", 2), "a");
    assert_eq!(clip_bytes("aé", 3), "aé");
    assert_eq!(clip_bytes("\u{1f600}x", 3), "");
    assert_eq!(clip_bytes("€€", 5), "€");
    assert_eq!(bytes_within("a€é\u{1f600}", 10), Some(10));
    assert_eq!(bytes_within("a€é\u{1f600}", 9), None);
}

#[test]
fn beginnings_and_ends() {
    assert!(same("a", "a"));
    assert!(!same("a", "ab"));
    assert!(starts_with("library", "lib"));
    assert!(!starts_with("li", "lib"));
    assert!(ends_with("a.md", ".md"));
    assert!(!ends_with("md", ".md"));
    assert_eq!(strip_prefix("lib3", "lib"), Some("3"));
    assert_eq!(strip_prefix("r3", "lib"), None);
    assert_eq!(trim_end_char("a//", '/'), "a");
    assert!(contains_char("a\u{0}b", '\u{0}'));
    assert!(!contains_char("ab", '\u{0}'));
}

#[test]
fn ascii_case() {
    assert_eq!(lower_case("AZ é É x1"), "az é É x1");
    assert_eq!(capitalize("added"), "Added");
    assert_eq!(capitalize("É"), "É");
    assert_eq!(capitalize("1a"), "1a");
    assert_eq!(capitalize(""), "");
}

#[test]
fn shown_names_hold_no_separator() {
    assert_eq!(sanitize_name("../../etc/passwd", "x"), "passwd");
    assert_eq!(sanitize_name("C:\\dir\\ a.txt ", "x"), "a.txt");
    assert_eq!(sanitize_name("dir/", "x"), "x");
    assert_eq!(sanitize_name("  ", "x"), "x");
    let long = "n".repeat(200);
    assert_eq!(sanitize_name(&long, "x").len(), 120);
}
