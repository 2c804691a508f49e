use hintsx::text::{
    chars_of, contains, is_whitespace, lines, parse_i32, same_text, starts_with, trim,
};

fn chars(text: &str) -> Vec<char> {
    text.chars().collect()
}

fn cut(text: &str, ranges: &[(usize, usize)]) -> Vec<String> {
    let all = chars(text);
    ranges.iter().map(|&(from, to)| all[from..to].iter().collect()).collect()
}

fn parse(text: &str) -> Option<i32> {
    parse_i32(&chars(text))
}

#[test]
fn characters_of_a_text() {
    assert_eq!(chars_of(""), Vec::<char>::new());
    assert_eq!(chars_of("abc"), vec!['a', 'b', 'c']);
    assert_eq!(chars_of("aä€😀"), vec!['a', 'ä', '€', '😀']);
}

#[test]
fn prefixes() {
    assert!(starts_with(&chars("abc"), &chars("")));
    assert!(starts_with(&chars("abc"), &chars("ab")));
    assert!(starts_with(&chars("abc"), &chars("abc")));
    assert!(!starts_with(&chars("abc"), &chars("abcd")));
    assert!(!starts_with(&chars("abc"), &chars("b")));
    assert!(starts_with(&chars(""), &chars("")));
    assert!(same_text(&chars("abc"), &chars("abc")));
    assert!(!same_text(&chars("abc"), &chars("ab")));
    assert!(!same_text(&chars("ab"), &chars("abc")));
    assert!(!same_text(&chars("abc"), &chars("abd")));
    assert!(same_text(&chars(""), &chars("")));
}

#[test]
fn white_space_agrees_with_the_standard_library() {
    for code in 0..0x11_0000u32 {
        if let Some(c) = char::from_u32(code) {
            assert_eq!(is_whitespace(c), c.is_whitespace(), "U+{:04X}", code);
        }
    }
}

#[test]
fn trimming_agrees_with_the_standard_library() {
    for text in [
        "",
        " ",
        "a",
        " a",
        "a ",
        "  a b  ",
        "\t\r\n sway \u{a0}\u{3000}",
        "\u{2003}x\u{2003}",
        "   ",
        "no-space",
        "\u{200b}zero-width\u{200b}",
    ] {
        let all = chars(text);
        let (from, to) = trim(&all);
        let trimmed: String = all[from..to].iter().collect();
        assert_eq!(trimmed, text.trim(), "{:?}", text);
    }
    assert_eq!(trim(&chars("  cd  ")), (2, 4));
    assert_eq!(trim(&chars("  ")), (2, 2));
    assert_eq!(trim(&chars("")), (0, 0));
    assert_eq!(trim(&chars("a b")), (0, 3));
}

#[test]
fn lines_agree_with_the_standard_library() {
    for text in [
        "",
        "\n",
        "a",
        "a\n",
        "a\nb",
        "a\r\nb\r\n",
        "a\n\nb",
        "\n\n",
        "a\r",
        "a\r\r\n",
        "\r\n",
        "\ra\n",
        "X=1\nY=2\nWIDTH=3\nHEIGHT=4\nSCREEN=0\n",
        "  PID COMMAND\n    1 systemd\n  812 sway\n",
    ] {
        let all = chars(text);
        let expected: Vec<String> = text.lines().map(|line| line.to_string()).collect();
        assert_eq!(cut(text, &lines(&all)), expected, "{:?}", text);
    }
}

#[test]
fn substrings() {
    assert!(contains(&chars("wayland"), &chars("wayland")));
    assert!(contains(&chars("x-wayland-1"), &chars("wayland")));
    assert!(contains(&chars("abc"), &chars("")));
    assert!(contains(&chars(""), &chars("")));
    assert!(contains(&chars("aab"), &chars("ab")));
    assert!(!contains(&chars("waylan"), &chars("wayland")));
    assert!(!contains(&chars("way land"), &chars("wayland")));
    assert!(!contains(&chars(""), &chars("a")));
    assert!(!contains(&chars("x11"), &chars("wayland")));
}

#[test]
fn numbers_agree_with_the_standard_library() {
    for text in [
        "0",
        "7",
        "-7",
        "+7",
        "007",
        "-0",
        "+0",
        "2147483647",
        "2147483648",
        "-2147483648",
        "-2147483649",
        "+2147483647",
        "99999999999999999999999999",
        "-99999999999999999999999999",
        "",
        "+",
        "-",
        "--1",
        "+-1",
        "1-",
        " 1",
        "1 ",
        "1.5",
        "1e3",
        "0x10",
        "१२",
        "12a",
        "a12",
    ] {
        assert_eq!(parse(text), text.parse::<i32>().ok(), "{:?}", text);
    }
}

#[test]
fn numbers_within_a_text() {
    let all = chars("WIDTH=640;");
    assert_eq!(parse_i32(&all[6..9]), Some(640));
    assert_eq!(parse_i32(&all[6..10]), None);
    assert_eq!(parse_i32(&all[6..6]), None);
    assert_eq!(parse_i32(&all[8..9]), Some(0));
}
