use firm::generate::{GeneratorOptions, IndentStyle};
use firm::number::{integer_chars, is_float_literal, number_chars, parse_integer};
use firm::scan;
use firm::text::{chars_less, from_chars, str_equal, str_less, to_chars};
use firm::{compose_entity_id, decompose_entity_id};

fn chars(text: &str) -> Vec<char> {
    text.chars().collect()
}

fn text(chars: &Vec<char>) -> String {
    chars.iter().collect()
}

fn pieces(found: Vec<Vec<char>>) -> Vec<String> {
    found.iter().map(text).collect()
}

#[test]
fn test_composite_ids() {
    assert_eq!(compose_entity_id("Person", "john_doe").to_string(), "person.john_doe");
    assert_eq!(compose_entity_id("person", "John Doe").to_string(), "person.john_doe");
    assert_eq!(decompose_entity_id("person.john_doe"), ("person", "john_doe"));
    assert_eq!(decompose_entity_id("person.a.b"), ("person", "a.b"));
    assert_eq!(decompose_entity_id("nodots"), ("unknown", "nodots"));
    assert_eq!(decompose_entity_id(""), ("unknown", ""));
    assert_eq!(decompose_entity_id(".x"), ("", "x"));
    assert_eq!(decompose_entity_id("x."), ("x", ""));
    assert_eq!(decompose_entity_id("é.ü"), ("é", "ü"));
}

#[test]
fn test_compose_then_decompose() {
    for (entity_type, local_id) in [("person", "john_doe"), ("key_result", "first"), ("person", "a.b")] {
        let id = compose_entity_id(entity_type, local_id);
        assert_eq!(decompose_entity_id(id.as_str()), (entity_type, local_id));
    }
    let dotted = compose_entity_id("my.type", "x");
    assert_eq!(decompose_entity_id(dotted.as_str()), ("my", "type.x"));
    let respelled = compose_entity_id("Person", "JohnDoe");
    assert_eq!(decompose_entity_id(respelled.as_str()), ("person", "john_doe"));
}

#[test]
fn test_chars_round_trip() {
    for sample in ["", "a", "héllo wörld", "日本語", "a\nb"] {
        assert_eq!(to_chars(sample), chars(sample));
        assert_eq!(from_chars(&chars(sample)), sample);
    }
}

#[test]
fn test_order_of_texts() {
    let samples = ["", "a", "ab", "abc", "abd", "b", "B", "é", "z", "a.b", "a_b"];
    for left in samples {
        for right in samples {
            assert_eq!(str_less(left, right), left < right, "{} {}", left, right);
            assert_eq!(
                chars_less(&chars(left), &chars(right)),
                left < right,
                "{} {}",
                left,
                right
            );
            assert_eq!(str_equal(left, right), left == right);
        }
    }
}

#[test]
fn test_integers() {
    for sample in ["0", "-0", "+0", "42", "-42", "+42", "0042", "9223372036854775807", "-9223372036854775808"] {
        assert_eq!(parse_integer(sample), sample.parse::<i64>().ok(), "{}", sample);
        assert!(parse_integer(sample).is_some());
    }
    for sample in ["", "+", "-", "4 2", " 42", "42 ", "1_000", "4.2", "0x10", "9223372036854775808", "-9223372036854775809", "99999999999999999999999999999999999999999999", "١٢"] {
        assert_eq!(parse_integer(sample), None, "{}", sample);
        assert!(sample.parse::<i64>().is_err());
    }
    for number in [0i64, 7, -7, 10, 1000, i64::MAX, i64::MIN] {
        assert_eq!(text(&integer_chars(number)), number.to_string());
    }
    for number in [0usize, 9, 10, 12345] {
        assert_eq!(text(&number_chars(number)), number.to_string());
    }
    assert!(is_float_literal("1e5"));
    assert!(!is_float_literal("1e"));
}

#[test]
fn test_split_and_join() {
    let split = |s: &str, p: &str| pieces(scan::split(&chars(s), &chars(p)));
    for (s, p) in [("a,b,,c", ","), ("", ","), ("a,", ","), (",", ","), ("abc", ","), ("a at b at c", " at "), ("aaa", "aa"), ("14:30 UTC", " UTC"), ("x UTC+2", " UTC")] {
        let expected: Vec<String> = s.split(p).map(|x| x.to_string()).collect();
        assert_eq!(split(s, p), expected, "{:?} {:?}", s, p);
        let joined = scan::join(&scan::split(&chars(s), &chars(p)), &chars("--"));
        assert_eq!(text(&joined), s.replace(p, "--"));
        assert_eq!(text(&scan::remove_all(&chars(s), &chars(p))), s.replace(p, ""));
        assert_eq!(scan::contains(&chars(s), &chars(p)), s.contains(p));
    }
    assert_eq!(scan::find(&chars("hello"), &chars("l"), 0), Some(2));
    assert_eq!(scan::find(&chars("hello"), &chars("l"), 3), Some(3));
    assert_eq!(scan::find(&chars("hello"), &chars("l"), 4), None);
    assert_eq!(scan::find(&chars("hello"), &chars("hello!"), 0), None);
    assert_eq!(scan::find(&chars("hello"), &chars("o"), 9), None);
}

#[test]
fn test_trimming() {
    for sample in ["", " ", "  a b  ", "\t\n x \r\n", "x", "\u{a0}x\u{3000}", "a  "] {
        assert_eq!(text(&scan::trim(&chars(sample))), sample.trim(), "{:?}", sample);
        assert_eq!(
            scan::count_leading_space(&chars(sample)),
            sample.chars().count() - sample.trim_start().chars().count()
        );
    }
    for sample in ["", "\"", "\"\"", "\"a\"", "\"\"a\"b\"\"\"", "a\"", "abc"] {
        assert_eq!(
            text(&scan::trim_matches(&chars(sample), '"')),
            sample.trim_matches('"'),
            "{:?}",
            sample
        );
    }
    for (sample, pattern) in [("", "ab"), ("ababxab", "ab"), ("abab", "ab"), ("xabab", "ab"), ("aba", "ab"), ("\"\"\"\"\"\"x\"\"\"", "\"\"\""), ("x", "")] {
        assert_eq!(
            text(&scan::trim_start_matches(&chars(sample), &chars(pattern))),
            if pattern.is_empty() { sample } else { sample.trim_start_matches(pattern) }
        );
        assert_eq!(
            text(&scan::trim_end_matches(&chars(sample), &chars(pattern))),
            if pattern.is_empty() { sample } else { sample.trim_end_matches(pattern) }
        );
        assert_eq!(scan::starts_with(&chars(sample), &chars(pattern)), sample.starts_with(pattern));
        assert_eq!(scan::ends_with(&chars(sample), &chars(pattern)), sample.ends_with(pattern));
    }
}

#[test]
fn test_lines() {
    for sample in ["", "a", "a\n", "a\nb", "a\r\nb\r\n", "\n", "\n\n", "a\n\nb", "a\r", "a\rb\n", "\r\n", "a\n\r"] {
        let expected: Vec<String> = sample.lines().map(|l| l.to_string()).collect();
        assert_eq!(pieces(scan::lines(&chars(sample))), expected, "{:?}", sample);
    }
}

#[test]
fn test_common_indentation() {
    let dedent = |s: &str| text(&scan::trim_common_indentation(&chars(s)));
    assert_eq!(dedent("\n    a\n      b\n    c\n  "), "a\n  b\nc");
    assert_eq!(dedent("a\n  b"), "a\n  b");
    assert_eq!(dedent("  a\n\n  b"), "a\n\nb");
    assert_eq!(dedent("   \n  \n"), "");
    assert_eq!(dedent(""), "");
    assert_eq!(dedent("\t\tx\n\t\t\ty"), "x\n\ty");
    assert_eq!(dedent("    a\n \n    b"), "a\n \nb");
    assert_eq!(dedent("\n      a\n    b\n    "), "  a\nb");
    assert_eq!(dedent("\n\n  a  \n b \n\n \n"), " a  \nb ");
    assert_eq!(dedent("  only  "), "only  ");
    assert_eq!(dedent("\t\n"), "");
}

#[test]
fn test_indentation() {
    assert_eq!(IndentStyle::Spaces(4).indent_string(1), "    ");
    assert_eq!(IndentStyle::Spaces(2).indent_string(3), "      ");
    assert_eq!(IndentStyle::Spaces(0).indent_string(5), "");
    assert_eq!(IndentStyle::Tabs.indent_string(2), "\t\t");
    assert_eq!(IndentStyle::Tabs.indent_string(0), "");
    let options = GeneratorOptions::default();
    assert_eq!(options.indent_style, IndentStyle::Spaces(4));
    assert!(options.blank_lines_between_entities);
}

#[test]
fn test_sorting_by_text() {
    let keys: Vec<Vec<char>> = ["pear", "apple", "fig", "apple", "", "Zebra", "figs"]
        .iter()
        .map(|k| chars(k))
        .collect();
    assert_eq!(scan::sort_by_text(&keys), vec![4, 5, 1, 3, 2, 6, 0]);
    assert_eq!(scan::sort_by_text(&vec![]), Vec::<usize>::new());
    let flags = vec![true, false, true, true, false, false, true];
    assert_eq!(
        scan::pick_flagged(&scan::sort_by_text(&keys), &flags, true),
        vec![3, 2, 6, 0]
    );
    assert_eq!(
        scan::pick_flagged(&vec![2, 9, 0], &flags, false),
        Vec::<usize>::new()
    );
}

#[test]
fn test_every_whitespace_character_is_blank() {
    let spaces = [
        '\u{9}', '\u{a}', '\u{b}', '\u{c}', '\u{d}', ' ', '\u{85}', '\u{a0}', '\u{1680}', '\u{2000}',
        '\u{2001}', '\u{2002}', '\u{2003}', '\u{2004}', '\u{2005}', '\u{2006}', '\u{2007}',
        '\u{2008}', '\u{2009}', '\u{200a}', '\u{2028}', '\u{2029}', '\u{202f}', '\u{205f}',
        '\u{3000}',
    ];
    let mut found: usize = 0;
    for c in '\u{0}'..=char::MAX {
        let blank = scan::line_is_blank(&vec![c]);
        assert_eq!(blank, spaces.contains(&c), "{:?}", c);
        assert_eq!(blank, c.is_whitespace(), "{:?}", c);
        if blank {
            found += 1;
        }
    }
    assert_eq!(found, 25);
    assert!(!scan::line_is_blank(&vec!['\u{180e}']));
    assert!(!scan::line_is_blank(&vec!['\u{200b}']));
    assert!(!scan::line_is_blank(&vec!['\u{feff}']));
}
