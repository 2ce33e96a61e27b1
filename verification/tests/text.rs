use earthpulse::settings::parse_bool_setting;
use earthpulse::text::{
    ascii_lower, chars_of, collapsed, content_line_spans, has_text, is_text, is_whitespace,
    same_text, string_of, to_ascii_lowercase, trim_span, word_spans, Span,
};
use earthpulse::tle::{cache_text, parse_cached_tle, parse_tle_text, TlePair};

const ISS_1: &str = "1 25544U 98067A   08264.51782528 -.00002182  00000-0 -11606-4 0  2927";
const ISS_2: &str = "2 25544  51.6416 247.4627 0006703 130.5360 325.0288 15.72125391563537";
const HST_1: &str = "1 20580U 90037B   24001.50000000  .00001000  00000-0  50000-4 0  9990";
const HST_2: &str = "2 20580  28.4700 100.0000 0002500  90.0000 270.0000 15.10000000000000";

fn chars(s: &str) -> Vec<char> {
    s.chars().collect()
}

#[test]
fn parse_bool_setting_variants() {
    assert_eq!(parse_bool_setting("true"), Some(true));
    assert_eq!(parse_bool_setting("1"), Some(true));
    assert_eq!(parse_bool_setting("FALSE"), Some(false));
    assert_eq!(parse_bool_setting("off"), Some(false));
    assert_eq!(parse_bool_setting("maybe"), None);
}

#[test]
fn every_spelling_of_a_switch_is_read() {
    for yes in ["true", "TRUE", "True", "1", "yes", "YES", "on", "On"] {
        assert_eq!(parse_bool_setting(yes), Some(true));
    }
    for no in ["false", "False", "0", "no", "NO", "off", "OFF"] {
        assert_eq!(parse_bool_setting(no), Some(false));
    }
    for neither in ["", " true", "true ", "2", "y", "n", "tru", "truee", "o n", "ｔｒｕｅ"] {
        assert_eq!(parse_bool_setting(neither), None);
    }
}

#[test]
fn white_space_is_what_the_standard_library_calls_white_space() {
    for n in 0..=0x10FFFF_u32 {
        if let Some(c) = char::from_u32(n) {
            assert_eq!(is_whitespace(c), c.is_whitespace(), "U+{:04X}", n);
        }
    }
}

#[test]
fn ascii_letters_are_lowered_and_nothing_else() {
    for n in 0..=0x10FFFF_u32 {
        if let Some(c) = char::from_u32(n) {
            assert_eq!(ascii_lower(c), c.to_ascii_lowercase(), "U+{:04X}", n);
        }
    }
    assert_eq!(to_ascii_lowercase(&chars("Hello, WÖRLD 42")), chars("hello, wÖrld 42"));
    assert_eq!(to_ascii_lowercase(&Vec::new()), Vec::<char>::new());
}

#[test]
fn strings_and_characters_convert_both_ways() {
    for s in ["", "a", "héllo wörld", "line\nbreak", "日本語"] {
        let v = chars_of(s);
        assert_eq!(v, chars(s));
        assert_eq!(string_of(&v, 0, v.len()), s);
    }
    let v = chars("héllo");
    assert_eq!(string_of(&v, 1, 4), "éll");
    assert_eq!(string_of(&v, 2, 2), "");
    assert_eq!(string_of(&v, 5, 5), "");
}

#[test]
fn texts_are_compared_character_by_character() {
    assert!(same_text(&chars("abc"), &chars("abc")));
    assert!(!same_text(&chars("abc"), &chars("abd")));
    assert!(!same_text(&chars("abc"), &chars("ab")));
    assert!(same_text(&chars(""), &chars("")));
    assert!(is_text(&chars("on"), "on"));
    assert!(!is_text(&chars("on"), "off"));
    assert!(!is_text(&chars("on"), "o"));
}

#[test]
fn substrings_are_found() {
    let text = chars("mid-atlantic ridge");
    assert!(has_text(&text, "ridge"));
    assert!(has_text(&text, "mid"));
    assert!(has_text(&text, "c r"));
    assert!(has_text(&text, ""));
    assert!(has_text(&text, "mid-atlantic ridge"));
    assert!(!has_text(&text, "mid-atlantic ridges"));
    assert!(!has_text(&text, "rift"));
    assert!(!has_text(&text, "Ridge"));
    assert!(has_text(&Vec::new(), ""));
    assert!(!has_text(&Vec::new(), "a"));
    assert!(has_text(&chars("aab"), "ab"));
}

#[test]
fn trimming_drops_white_space_at_both_ends() {
    let text = chars("  \t hello world \u{3000}\n");
    assert_eq!(trim_span(&text, 0, text.len()), Span { start: 4, end: 15 });
    assert_eq!(trim_span(&text, 0, 4), Span { start: 4, end: 4 });
    assert_eq!(trim_span(&text, 5, 10), Span { start: 5, end: 9 });
    let blank = chars(" \r\n ");
    let span = trim_span(&blank, 0, blank.len());
    assert_eq!(span.start, span.end);
    for s in ["", "x", " x", "x ", " x y ", "\u{85}x\u{a0}", "\r\n"] {
        let v = chars(s);
        let span = trim_span(&v, 0, v.len());
        assert_eq!(string_of(&v, span.start, span.end), s.trim());
    }
}

fn lines_of(text: &str) -> Vec<String> {
    let v = chars(text);
    content_line_spans(&v).iter().map(|s| string_of(&v, s.start, s.end)).collect()
}

#[test]
fn lines_are_trimmed_and_blank_ones_left_out() {
    for text in [
        "",
        "\n",
        "one",
        "one\n",
        "one\ntwo",
        "  one  \r\n\r\n\ttwo\r\n   \nthree",
        "\n\n\n",
        "a\rb\nc",
        " \u{2003}x\u{2003} \n y ",
    ] {
        let expected: Vec<String> =
            text.lines().map(|l| l.trim()).filter(|l| !l.is_empty()).map(String::from).collect();
        assert_eq!(lines_of(text), expected, "text {:?}", text);
    }
}

#[test]
fn words_are_the_stretches_between_white_space() {
    for text in ["", " ", "one", " one  two\tthree\n", "a\u{3000}b", "  x"] {
        let v = chars(text);
        let words: Vec<String> =
            word_spans(&v).iter().map(|s| string_of(&v, s.start, s.end)).collect();
        let expected: Vec<String> = text.split_whitespace().map(String::from).collect();
        assert_eq!(words, expected, "text {:?}", text);
        assert_eq!(collapsed(&v), expected.join(" "));
    }
}

#[test]
fn element_sets_are_found_in_a_feed() {
    let feed = format!("ISS (ZARYA)\r\n{}\r\n{}\r\nHST\r\n{}\r\n{}\r\n", ISS_1, ISS_2, HST_1, HST_2);
    let pairs = parse_tle_text(&feed).unwrap();
    assert_eq!(pairs.len(), 2);
    assert_eq!(pairs[0].name, "ISS (ZARYA)");
    assert_eq!(pairs[0].line1, ISS_1);
    assert_eq!(pairs[0].line2, ISS_2);
    assert_eq!(pairs[1].name, "HST");
    assert_eq!(pairs[1].line1, HST_1);
    assert_eq!(pairs[1].line2, HST_2);
}

#[test]
fn lines_that_belong_to_no_element_set_are_passed_over() {
    let feed = format!(
        "<html>\nnot a set\n\n  ISS (ZARYA)  \n  {}\n{}  \ntrailer\n{}\n",
        ISS_1, ISS_2, HST_1
    );
    let pairs = parse_tle_text(&feed).unwrap();
    assert_eq!(pairs.len(), 1);
    assert_eq!(pairs[0].name, "ISS (ZARYA)");
    assert_eq!(pairs[0].line1, ISS_1);
    assert_eq!(pairs[0].line2, ISS_2);
}

#[test]
fn feed_without_element_sets_gives_none() {
    assert!(parse_tle_text("").unwrap().is_empty());
    assert!(parse_tle_text("\n\n").unwrap().is_empty());
    assert!(parse_tle_text("name only").unwrap().is_empty());
    assert!(parse_tle_text(&format!("{}\n{}", ISS_1, ISS_2)).unwrap().is_empty());
    assert!(parse_tle_text(&format!("name\n{}\n{}", ISS_2, ISS_1)).unwrap().is_empty());
    assert!(parse_tle_text("name\n1\n2").unwrap().is_empty());
    assert!(parse_cached_tle("").is_empty());
}

#[test]
fn a_set_without_a_name_takes_the_line_before_it() {
    let feed = format!("{}\n{}\n{}\n{}\n", ISS_1, ISS_2, HST_1, HST_2);
    let pairs = parse_tle_text(&feed).unwrap();
    assert_eq!(pairs.len(), 1);
    assert_eq!(pairs[0].name, ISS_2);
    assert_eq!(pairs[0].line1, HST_1);
    assert_eq!(pairs[0].line2, HST_2);
}

#[test]
fn stored_text_is_read_back() {
    let stored = format!("ISS (ZARYA)\n{}\n{}\nHST\n{}\n{}", ISS_1, ISS_2, HST_1, HST_2);
    let pairs = parse_cached_tle(&stored);
    assert_eq!(pairs.len(), 2);
    assert_eq!(pairs[0].name, "ISS (ZARYA)");
    assert_eq!(pairs[1].name, "HST");
    assert_eq!(pairs[1].line2, HST_2);
    let again: String = pairs
        .iter()
        .map(|p| format!("{}\n{}\n{}", p.name, p.line1, p.line2))
        .collect::<Vec<_>>()
        .join("\n");
    assert_eq!(again, stored);
}

#[test]
fn element_sets_are_stored_one_line_after_the_other() {
    let pairs = vec![
        TlePair { name: "ISS (ZARYA)".to_string(), line1: ISS_1.to_string(), line2: ISS_2.to_string() },
        TlePair { name: "HST".to_string(), line1: HST_1.to_string(), line2: HST_2.to_string() },
    ];
    assert_eq!(
        cache_text(&pairs),
        format!("ISS (ZARYA)\n{}\n{}\nHST\n{}\n{}", ISS_1, ISS_2, HST_1, HST_2)
    );
    assert_eq!(cache_text(&pairs[..1].to_vec()), format!("ISS (ZARYA)\n{}\n{}", ISS_1, ISS_2));
    assert_eq!(cache_text(&Vec::new()), "");
}

#[test]
fn what_was_found_in_a_feed_is_read_back_from_the_store() {
    let feed = format!(
        "  ISS (ZARYA) \r\n{}\r\n{}\r\n\r\nnoise\nHST\n {}\n{} \n1 looks like a line\n",
        ISS_1, ISS_2, HST_1, HST_2
    );
    let found = parse_tle_text(&feed).unwrap();
    assert_eq!(found.len(), 2);
    let stored = cache_text(&found);
    let read = parse_cached_tle(&stored);
    assert_eq!(read.len(), found.len());
    for (a, b) in read.iter().zip(found.iter()) {
        assert_eq!(a.name, b.name);
        assert_eq!(a.line1, b.line1);
        assert_eq!(a.line2, b.line2);
    }
    assert_eq!(cache_text(&read), stored);
}
