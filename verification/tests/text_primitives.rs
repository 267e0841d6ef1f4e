use embed_ingest::text::{is_blank, is_whitespace, opens_fence, split_lines};

fn std_lines(text: &str) -> Vec<String> {
    text.lines().map(String::from).collect()
}

#[test]
fn whitespace_agrees_with_std_on_every_char() {
    let mut code: u32 = 0;
    while code <= 0x10FFFF {
        if let Some(c) = char::from_u32(code) {
            assert_eq!(is_whitespace(c), c.is_whitespace(), "U+{:04X}", code);
        }
        code += 1;
    }
}

#[test]
fn whitespace_examples() {
    assert!(is_whitespace(' '));
    assert!(is_whitespace('\n'));
    assert!(is_whitespace('\t'));
    assert!(is_whitespace('\r'));
    assert!(is_whitespace('\u{A0}'));
    assert!(is_whitespace('\u{3000}'));
    assert!(!is_whitespace('`'));
    assert!(!is_whitespace('a'));
    assert!(!is_whitespace('\u{200B}'));
    assert!(!is_whitespace('\u{180E}'));
}

#[test]
fn blank_is_empty_after_trim() {
    let samples = [
        "",
        " ",
        "\t \r\n",
        "\u{2003}\u{A0}",
        "a",
        "  a  ",
        " \u{200B} ",
        "```",
        "   .",
    ];
    for s in samples {
        assert_eq!(is_blank(s), s.trim().is_empty(), "{:?}", s);
    }
}

#[test]
fn fence_is_triple_backtick_after_trim() {
    let samples = [
        "",
        "```",
        "```rust",
        "   ```",
        "\t```  ",
        "\u{3000}```x",
        "``",
        "`` `",
        "out```",
        "x ```",
        "````",
        " ` ``",
        "   ",
        "``\u{A0}`",
    ];
    for s in samples {
        assert_eq!(opens_fence(s), s.trim().starts_with("```"), "{:?}", s);
    }
    assert!(opens_fence("```"));
    assert!(opens_fence("  ```python"));
    assert!(!opens_fence("out```"));
    assert!(!opens_fence("``"));
}

#[test]
fn lines_agree_with_std() {
    let samples = [
        "",
        "\n",
        "\n\n",
        "a",
        "a\n",
        "a\nb",
        "a\nb\n",
        "a\r\nb",
        "a\r\nb\r\n",
        "a\r",
        "a\rb",
        "a\r\r\n",
        "\r",
        "\r\n",
        "\r\r",
        "\n\r",
        "a\n\nb",
        "para one\n\nout```\ncode\n\n```\n\npara two\n",
        "héllo\r\nwörld\n\u{2028}x",
    ];
    for s in samples {
        assert_eq!(split_lines(s), std_lines(s), "{:?}", s);
    }
}

#[test]
fn lines_agree_with_std_on_all_short_strings() {
    let alphabet = ['a', '\n', '\r', ' '];
    let mut count = 0;
    for len in 0..=6u32 {
        let total = (alphabet.len() as u32).pow(len);
        for mut code in 0..total {
            let mut s = String::new();
            for _ in 0..len {
                s.push(alphabet[(code % 4) as usize]);
                code /= 4;
            }
            assert_eq!(split_lines(&s), std_lines(&s), "{:?}", s);
            count += 1;
        }
    }
    assert_eq!(count, 1 + 4 + 16 + 64 + 256 + 1024 + 4096);
}

#[test]
fn lines_exact_values() {
    assert_eq!(split_lines("one\ntwo\r\nthree"), vec!["one", "two", "three"]);
    assert_eq!(split_lines("x\n"), vec!["x"]);
    assert_eq!(split_lines("x\n\n"), vec!["x", ""]);
    assert_eq!(split_lines("x\r"), vec!["x\r"]);
    assert!(split_lines("").is_empty());
}
