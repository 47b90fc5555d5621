//! Which regex constructs are reported.

use mcp_remote::regex_dialect::{
    classify_group, is_escaped, unsupported_construct, UnsupportedRegex,
};

/// What zod's `.email()` lowers to.
const ZOD_EMAIL: &str =
    r#"^(?!\.)(?!.*\.\.)([A-Za-z0-9_'+\-\.]*)[A-Za-z0-9_+-]@([A-Za-z0-9][A-Za-z0-9\-]*\.)+[A-Za-z]{2,}$"#;

#[test]
fn the_zod_email_pattern_is_recognized_as_unsupported() {
    assert_eq!(
        unsupported_construct(ZOD_EMAIL),
        Some(UnsupportedRegex::Lookaround)
    );
}

#[test]
fn every_lookaround_form_is_caught() {
    for pattern in [r"(?=x)", r"(?!x)", r"(?<=x)y", r"(?<!x)y"] {
        assert_eq!(
            unsupported_construct(pattern),
            Some(UnsupportedRegex::Lookaround),
            "missed {pattern}"
        );
    }
}

#[test]
fn other_backtracking_constructs_are_caught() {
    assert_eq!(
        unsupported_construct(r"(a)\1"),
        Some(UnsupportedRegex::Backreference)
    );
    assert_eq!(
        unsupported_construct(r"(?>abc)"),
        Some(UnsupportedRegex::AtomicOrConditional)
    );
    assert_eq!(
        unsupported_construct(r"a*+"),
        Some(UnsupportedRegex::PossessiveQuantifier)
    );
    assert_eq!(
        unsupported_construct(r"a{2,3}+"),
        Some(UnsupportedRegex::PossessiveQuantifier)
    );
    assert_eq!(
        unsupported_construct(r"\Kabc"),
        Some(UnsupportedRegex::UnsupportedEscape)
    );
}

/// The patterns that tools commonly emit must survive untouched: dropping one is
/// invisible at runtime.
#[test]
fn ordinary_patterns_are_left_alone() {
    for pattern in [
        r"^[a-zA-Z0-9._-]+$",
        r"^[a-zA-Z0-9][a-zA-Z0-9_.-]*$",
        r"^--[a-zA-Z0-9-]+(=[a-zA-Z0-9._:/@-]+)?$",
        r"^(all|\d+[smhd])$",
        r"^[A-Z0-9]+_[A-Z0-9]+$",
        r"^[a-zA-Z0-9 ._-]{0,500}$",
        r"^properties/\d+$",
        // A named capture group is RE2-compatible and must not be confused
        // for a lookbehind.
        r"(?P<name>a)b",
        r"(?<name>a)b",
        // Non-capturing groups and inline flags are fine.
        r"(?:abc)+",
        r"(?i)abc",
        // A `+` that is a quantifier on a literal, not a possessive marker.
        r"a\++",
        r"[+]+",
    ] {
        assert_eq!(
            unsupported_construct(pattern),
            None,
            "wrongly rejected {pattern}"
        );
    }
}

/// An escaped or class-enclosed construct is literal text, not a real
/// lookaround. Dropping these would silently weaken a valid pattern.
#[test]
fn escaped_and_classed_constructs_are_literal() {
    assert_eq!(unsupported_construct(r"\(?=x\)"), None);
    assert_eq!(unsupported_construct(r"[(?=]"), None);
    assert_eq!(unsupported_construct(r"[\]](?:x)"), None);
    // `\\` is an escaped backslash, so the `1` after it is a literal digit,
    // not a backreference.
    assert_eq!(unsupported_construct(r"\\1"), None);
}

#[test]
fn a_malformed_pattern_is_left_for_the_provider_to_judge() {
    assert_eq!(unsupported_construct("abc\\"), None);
}

fn chars(text: &str) -> Vec<char> {
    text.chars().collect()
}

#[test]
fn every_construct_has_its_description() {
    assert_eq!(UnsupportedRegex::Lookaround.description(), "lookaround");
    assert_eq!(UnsupportedRegex::Backreference.description(), "a backreference");
    assert_eq!(
        UnsupportedRegex::AtomicOrConditional.description(),
        "an atomic or conditional group"
    );
    assert_eq!(
        UnsupportedRegex::PossessiveQuantifier.description(),
        "a possessive quantifier"
    );
    assert_eq!(UnsupportedRegex::UnsupportedEscape.description(), "an unsupported escape");
}

#[test]
fn conditionals_and_pcre_escapes_are_caught() {
    assert_eq!(
        unsupported_construct(r"(a)?(?(b)c|d)"),
        Some(UnsupportedRegex::AtomicOrConditional)
    );
    assert_eq!(unsupported_construct(r"a\Gb"), Some(UnsupportedRegex::UnsupportedEscape));
    assert_eq!(unsupported_construct(r"a\Xb"), Some(UnsupportedRegex::UnsupportedEscape));
    assert_eq!(unsupported_construct(r"[\K]"), Some(UnsupportedRegex::UnsupportedEscape));
    assert_eq!(unsupported_construct(r"a\\Gb"), None);
    assert_eq!(unsupported_construct(r"\\"), None);
}

#[test]
fn octal_escapes_are_no_backreferences() {
    assert_eq!(unsupported_construct(r"\0"), None);
    assert_eq!(unsupported_construct(r"\9"), Some(UnsupportedRegex::Backreference));
    assert_eq!(unsupported_construct(r"[\1]"), None);
}

#[test]
fn unicode_classes_have_to_be_names() {
    assert_eq!(unsupported_construct(r"\p{Greek}"), None);
    assert_eq!(unsupported_construct(r"\P{^Lu}x"), None);
    assert_eq!(unsupported_construct(r"\pL"), None);
    for pattern in [r"\p{Script=Greek}", r"\p{}", r"\p{^}", r"\p{Script=", r"[\P{a b}]"] {
        assert_eq!(
            unsupported_construct(pattern),
            Some(UnsupportedRegex::UnsupportedEscape),
            "missed {pattern}"
        );
    }
}

#[test]
fn class_names_are_one_token() {
    for pattern in [r"\p{L}+", r"\P{^Lu}+x", r"a\p{Greek}+", r"\\\p{L}+", r"[\p{L}]+"] {
        assert_eq!(unsupported_construct(pattern), None, "wrongly rejected {pattern}");
    }
    for pattern in [r"\p{L}++", r"\p{L}*+", r"\p{L}{2}+", r"\\p{L}+", r"p{L}+", r"\d{L}+"] {
        assert_eq!(
            unsupported_construct(pattern),
            Some(UnsupportedRegex::PossessiveQuantifier),
            "missed {pattern}"
        );
    }
    assert_eq!(unsupported_construct(r"\p{L}(?=x)"), Some(UnsupportedRegex::Lookaround));
}

#[test]
fn unclosed_class_names_are_left_for_the_provider_to_judge() {
    for pattern in [r"\p{", r"\p{^", r"\p{Greek", r"\P{^Greek", r"[\p{L"] {
        assert_eq!(unsupported_construct(pattern), None, "wrongly rejected {pattern}");
    }
}

#[test]
fn appended_text_does_not_change_the_answer() {
    for pattern in [r"(?=", r"(?<!", r"(?>", r"a*+", r"\1", r"\K", r"\p{}", r"\p{a=", r"[a]\2"] {
        let reported = unsupported_construct(pattern);
        assert!(reported.is_some(), "missed {pattern}");
        for more in ["", "L}", "]", ")", "\\", "+", "(?=x)", "}"] {
            assert_eq!(unsupported_construct(&format!("{pattern}{more}")), reported);
        }
    }
}

#[test]
fn every_quantifier_can_be_possessive() {
    for pattern in [r"a*+", r"a++", r"a?+", r"a{2}+", r"a\\*+"] {
        assert_eq!(
            unsupported_construct(pattern),
            Some(UnsupportedRegex::PossessiveQuantifier),
            "missed {pattern}"
        );
    }
    assert_eq!(unsupported_construct(r"a\*+"), None);
    assert_eq!(unsupported_construct(r"+"), None);
}

#[test]
fn the_first_construct_is_reported() {
    assert_eq!(unsupported_construct(r"a*+(?=x)"), Some(UnsupportedRegex::PossessiveQuantifier));
    assert_eq!(unsupported_construct(r"(?=x)a*+"), Some(UnsupportedRegex::Lookaround));
}

#[test]
fn a_bracket_that_opens_a_class_is_a_member() {
    assert_eq!(unsupported_construct(r"[](?=]"), None);
    assert_eq!(unsupported_construct(r"[^](?=]"), None);
    assert_eq!(unsupported_construct(r"[a](?=x)"), Some(UnsupportedRegex::Lookaround));
}

#[test]
fn characters_outside_ascii_are_literal() {
    assert_eq!(unsupported_construct("\u{e9}+\u{4e16}*(?:x)"), None);
    assert_eq!(unsupported_construct("\u{e9}(?<!x)"), Some(UnsupportedRegex::Lookaround));
    assert_eq!(unsupported_construct("\\\u{4e16}"), None);
}

#[test]
fn groups_are_classified_by_their_opening() {
    assert_eq!(classify_group(&chars("(?=")), Some(UnsupportedRegex::Lookaround));
    assert_eq!(classify_group(&chars("(?<!")), Some(UnsupportedRegex::Lookaround));
    assert_eq!(classify_group(&chars("(?>")), Some(UnsupportedRegex::AtomicOrConditional));
    assert_eq!(classify_group(&chars("(?<n>")), None);
    assert_eq!(classify_group(&chars("(a)")), None);
    assert_eq!(classify_group(&chars("(")), None);
}

#[test]
fn escapes_are_counted_in_pairs() {
    assert!(is_escaped(&chars(r"\+"), 1));
    assert!(!is_escaped(&chars(r"\\+"), 2));
    assert!(is_escaped(&chars(r"\\\+"), 3));
    assert!(!is_escaped(&chars("a+"), 1));
    assert!(!is_escaped(&chars("+"), 0));
}
