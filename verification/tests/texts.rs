use wtui::lines::{find, lines_of, split_at, trimmed_lines_of, words_of};
use wtui::number::{decimal_text, parse_u32};
use wtui::slug::slugify;
use wtui::text::{chars_of, is_blank, is_whitespace, join, join2, join3, same_text, starts_with, strip_prefix, text_of, trim, trim_chars, trim_start};
use wtui::truncate::{truncate_diff, MAX_DIFF_BYTES};

/// Texts with separators, line ends and whitespace of all sorts.
fn samples() -> Vec<&'static str> {
    vec![
        "",
        " ",
        "\n",
        "\r\n",
        "a",
        "a\n",
        "a\r\n",
        "a\r",
        "\na",
        "a\n\nb",
        "a\n\n\nb\n\n\n\nc",
        "one two\tthree",
        "  padded \u{a0}\u{3000}",
        "línea\r\nmás\n",
        "a\r\r\nb\rc\n",
        "\u{85}x\u{2028}y\u{200b}",
        "tail\n\n",
        "\0a\0\0b",
    ]
}

/// Slices of characters as texts.
fn texts(slices: &[&[char]]) -> Vec<String> {
    slices.iter().map(|slice| slice.iter().collect()).collect()
}

#[test]
fn slugifies_branch_names_for_sibling_paths() {
    assert_eq!(slugify("my-new-feature"), "my-new-feature");
    assert_eq!(slugify("Feature/Some thing"), "feature-some-thing");
    assert_eq!(slugify("---"), "worktree");
}

#[test]
fn slug_keeps_ascii_letters_and_digits_only() {
    assert_eq!(slugify(""), "worktree");
    assert_eq!(slugify("ünïcödé"), "n-c-d");
    assert_eq!(slugify("é"), "worktree");
    assert_eq!(slugify("  A__B  "), "a-b");
    assert_eq!(slugify("release/2.0.1-RC"), "release-2-0-1-rc");
}

#[test]
fn slug_of_a_slug_is_itself() {
    for branch in ["", "Feature/Some thing", "x", "--a--b--", "ÄÖÜ", "9 lives!"] {
        let slug = slugify(branch);
        assert_eq!(slugify(&slug), slug);
        assert!(!slug.is_empty());
        assert!(!slug.starts_with('-') && !slug.ends_with('-') && !slug.contains("--"));
    }
}

#[test]
fn whitespace_is_what_unicode_calls_so() {
    for code in 0..=0x10ffffu32 {
        if let Some(c) = char::from_u32(code) {
            assert_eq!(is_whitespace(c), c.is_whitespace(), "{code:x}");
        }
    }
}

#[test]
fn trims_both_ends() {
    for text in samples() {
        let chars = chars_of(text);
        assert_eq!(trim(text), text.trim());
        assert_eq!(is_blank(text), text.trim().is_empty());
        assert_eq!(text_of(trim_chars(&chars)), text.trim());
        assert_eq!(text_of(trim_start(&chars)), text.trim_start());
    }
}

#[test]
fn characters_and_texts_convert_both_ways() {
    for text in samples() {
        assert_eq!(text_of(&chars_of(text)), text);
    }
    assert_eq!(chars_of("aé…").len(), 3);
}

#[test]
fn joins_texts() {
    assert_eq!(join2("ab", "…"), "ab…");
    assert_eq!(join3("a", "", "c"), "ac");
    let parts = vec!["one".to_owned(), "".to_owned(), "three".to_owned()];
    assert_eq!(join(&parts, " · "), parts.join(" · "));
    assert_eq!(join(&Vec::new(), ", "), "");
    assert_eq!(join(&vec!["only".to_owned()], ", "), "only");
    assert!(same_text("x", "x"));
    assert!(!same_text("x", "y"));
}

#[test]
fn strips_prefixes() {
    let line = chars_of("worktree /repos/botanic");
    assert_eq!(strip_prefix(&line, "worktree ").map(text_of), Some("/repos/botanic".to_owned()));
    assert_eq!(strip_prefix(&line, "branch ").map(text_of), None);
    assert!(starts_with(&line, &chars_of("work")));
    assert!(starts_with(&line, &[]));
    assert!(!starts_with(&chars_of("wo"), &chars_of("work")));
}

#[test]
fn splits_at_separators() {
    for text in samples() {
        let chars = chars_of(text);
        for separator in ["\n\n", "\0", "a", "\r\n"] {
            let pieces = split_at(&chars, separator);
            let expected: Vec<&str> = text.split(separator).collect();
            assert_eq!(texts(&pieces), expected);
        }
    }
    assert_eq!(find(&chars_of("xaab"), &chars_of("ab")), Some(2));
    assert_eq!(find(&chars_of("xaab"), &chars_of("ba")), None);
}

#[test]
fn cuts_into_lines_and_words() {
    for text in samples() {
        let chars = chars_of(text);
        let lines: Vec<&str> = text.lines().collect();
        let words: Vec<&str> = text.split_whitespace().collect();
        let trimmed: Vec<&str> =
            text.lines().map(str::trim).filter(|line| !line.is_empty()).collect();
        assert_eq!(texts(&lines_of(&chars)), lines);
        assert_eq!(texts(&words_of(&chars)), words);
        assert_eq!(trimmed_lines_of(text), trimmed);
    }
    assert_eq!(trimmed_lines_of(" origin \n\n\tfork\r\n"), ["origin", "fork"]);
}

#[test]
fn parses_numbers_of_32_bits() {
    for text in ["", "0", "7", "+7", "-7", "+", "++1", "007", "4294967295", "4294967296", "1 ", "x", "99999999999999999999", "١"] {
        assert_eq!(parse_u32(&chars_of(text)), text.parse::<u32>().ok(), "{text}");
    }
}

#[test]
fn writes_numbers_that_read_back() {
    for value in [0u64, 9, 10, 15, 100, 1234567890, u64::MAX] {
        assert_eq!(decimal_text(value), value.to_string());
    }
    for value in [0u32, 1, 42, 4294967295] {
        assert_eq!(parse_u32(&chars_of(&decimal_text(u64::from(value)))), Some(value));
    }
}

#[test]
fn short_diffs_stay_whole() {
    let diff = "x".repeat(MAX_DIFF_BYTES);
    assert_eq!(truncate_diff(diff.clone()), diff);
    assert_eq!(truncate_diff("…".to_owned()), "…");
    assert_eq!(MAX_DIFF_BYTES, 250_000);
}

#[test]
fn long_diffs_are_cut_between_characters() {
    let mark = "\n\n… diff truncated by wtui …\n";
    let plain = "x".repeat(250_001);
    assert_eq!(truncate_diff(plain), "x".repeat(250_000) + mark);
    // The character that straddles the limit goes altogether.
    let wide = "x".repeat(249_999) + "é";
    assert_eq!(truncate_diff(wide), "x".repeat(249_999) + mark);
    let wider = "x".repeat(249_998) + "\u{10348}y";
    assert_eq!(truncate_diff(wider), "x".repeat(249_998) + mark);
}
