use procutils::text::{
    chars_of, drop_suffixes, ends_with, field_spans, is_whitespace, line_spans, skip_prefixes,
    starts_with, trim_span, Span,
};

fn piece(s: &[char], span: Span) -> String {
    s[span.lo..span.hi].iter().collect()
}

fn samples() -> Vec<&'static str> {
    vec![
        "",
        " ",
        "a",
        "\n",
        "\r\n",
        "a\nb",
        "a\nb\n",
        "a\r\nb\r\n",
        "a\r",
        "a\r\r\n",
        "\n\n",
        "  lead and trail \t",
        "VmRSS:\t     100 kB",
        "VmRSS:\tVmRSS:\t7 kB kB",
        "cpu  10 20 30 40",
        "1 (a b) S 0 0",
        "\u{a0}x\u{2003}y\u{3000}",
        "one\u{85}two",
        "tab\tsep\u{b}vertical\u{c}feed",
        "no newline at end\r\nsecond\rthird\n\r",
    ]
}

#[test]
fn whitespace_agrees_with_the_standard_library_on_every_character() {
    let mut code: u32 = 0;
    while code <= 0x10_ffff {
        if let Some(c) = char::from_u32(code) {
            assert_eq!(is_whitespace(c), c.is_whitespace(), "character {:x}", code);
        }
        code += 1;
    }
}

#[test]
fn chars_of_keeps_order_and_length() {
    assert_eq!(chars_of("a\u{e9}\u{4e2d}z"), vec!['a', '\u{e9}', '\u{4e2d}', 'z']);
    assert_eq!(chars_of(""), Vec::<char>::new());
}

#[test]
fn starts_with_and_ends_with_agree_with_the_standard_library() {
    let patterns = ["", "a", "VmRSS:\t", " kB", "cpu ", "\n", "kB kB"];
    for text in samples() {
        let s = chars_of(text);
        for pattern in patterns {
            let p = chars_of(pattern);
            assert_eq!(starts_with(&s, 0, s.len(), &p), text.starts_with(pattern));
            assert_eq!(ends_with(&s, 0, s.len(), &p), text.ends_with(pattern));
        }
    }
}

#[test]
fn starts_with_looks_at_the_piece_only() {
    let s = chars_of("xxabcxx");
    let p = chars_of("abc");
    assert!(starts_with(&s, 2, 5, &p));
    assert!(!starts_with(&s, 2, 4, &p));
    assert!(!starts_with(&s, 0, 7, &p));
    assert!(ends_with(&s, 0, 5, &p));
    assert!(!ends_with(&s, 3, 5, &p));
}

#[test]
fn repeated_prefixes_and_suffixes_are_all_taken_off() {
    let patterns = ["a", "VmRSS:\t", " kB", "cpu ", "ab"];
    let texts = [
        "",
        "aaa",
        "aaab",
        "VmRSS:\tVmRSS:\t7 kB kB",
        "cpu cpu  1 2 3",
        "7 kB kB",
        "ababab",
        "ababa",
        " kB",
    ];
    for text in texts {
        let s = chars_of(text);
        for pattern in patterns {
            let p = chars_of(pattern);
            let lo = skip_prefixes(&s, 0, s.len(), &p);
            assert_eq!(
                piece(&s, Span { lo, hi: s.len() }),
                text.trim_start_matches(pattern)
            );
            let hi = drop_suffixes(&s, 0, s.len(), &p);
            assert_eq!(piece(&s, Span { lo: 0, hi }), text.trim_end_matches(pattern));
        }
    }
}

#[test]
fn an_empty_pattern_takes_nothing_off() {
    let s = chars_of("abc");
    assert_eq!(skip_prefixes(&s, 0, 3, &[]), 0);
    assert_eq!(drop_suffixes(&s, 0, 3, &[]), 3);
}

#[test]
fn trim_agrees_with_the_standard_library() {
    for text in samples() {
        let s = chars_of(text);
        let span = trim_span(&s, 0, s.len());
        assert_eq!(piece(&s, span), text.trim(), "text {:?}", text);
    }
}

#[test]
fn trim_of_white_space_alone_is_empty() {
    let s = chars_of(" \t\r\n\u{a0} ");
    let span = trim_span(&s, 0, s.len());
    assert_eq!(span.lo, span.hi);
}

#[test]
fn lines_agree_with_the_standard_library() {
    for text in samples() {
        let s = chars_of(text);
        let mine: Vec<String> = line_spans(&s).into_iter().map(|sp| piece(&s, sp)).collect();
        let theirs: Vec<String> = text.lines().map(|l| l.to_string()).collect();
        assert_eq!(mine, theirs, "text {:?}", text);
    }
}

#[test]
fn a_carriage_return_stays_on_a_last_line_without_line_feed() {
    let s = chars_of("a\r\nb\r");
    let spans = line_spans(&s);
    assert_eq!(spans.len(), 2);
    assert_eq!(piece(&s, spans[0]), "a");
    assert_eq!(piece(&s, spans[1]), "b\r");
}

#[test]
fn fields_agree_with_the_standard_library() {
    for text in samples() {
        let s = chars_of(text);
        let mine: Vec<String> =
            field_spans(&s, 0, s.len()).into_iter().map(|sp| piece(&s, sp)).collect();
        let theirs: Vec<String> = text.split_whitespace().map(|l| l.to_string()).collect();
        assert_eq!(mine, theirs, "text {:?}", text);
    }
}

#[test]
fn fields_of_a_piece_stay_within_the_piece() {
    let s = chars_of("ab cd ef");
    let spans = field_spans(&s, 1, 7);
    let mine: Vec<String> = spans.into_iter().map(|sp| piece(&s, sp)).collect();
    assert_eq!(mine, vec!["b", "cd", "e"]);
}
