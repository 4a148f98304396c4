use giv::chars::{chars_command, convert_input, CharResult, CharsOutput};
use giv::output::Output;
use giv::patterns::lookup_pattern;
use giv::GivError;

#[test]
fn mod_test_emoji_conversion() {
    let result = convert_input(":smile:").unwrap();
    assert_eq!(result.output, "😄");
    assert_eq!(result.result_type, "emoji");
}

#[test]
fn test_emoji_requires_colons() {
    let result = convert_input("thumbsup");
    assert!(result.is_err());
}

#[test]
fn test_html_entity_conversion() {
    let result = convert_input("&nbsp;").unwrap();
    assert_eq!(result.output, "\u{00A0}");
    assert_eq!(result.result_type, "html");
}

#[test]
fn mod_test_pattern_conversion() {
    let result = convert_input("1/4").unwrap();
    assert_eq!(result.output, "¼");
    assert_eq!(result.result_type, "pattern");
}

#[test]
fn mod_test_copyright() {
    let result = convert_input("(c)").unwrap();
    assert_eq!(result.output, "©");
    assert_eq!(result.result_type, "pattern");
}

#[test]
fn test_em_dash_alias() {
    let result = convert_input("em").unwrap();
    assert_eq!(result.output, "—");
    assert_eq!(result.result_type, "pattern");
}

#[test]
fn test_arrow_patterns() {
    let result = convert_input("->").unwrap();
    assert_eq!(result.output, "→");
    assert_eq!(result.result_type, "pattern");
}

#[test]
fn mod_test_unknown_pattern_error() {
    let result = convert_input("unknown");
    assert!(result.is_err());
    match result {
        Err(GivError::UnknownCharacterPattern(s)) => {
            assert_eq!(s, "unknown");
        }
        _ => panic!("Expected UnknownCharacterPattern error"),
    }
}

#[test]
fn patterns_test_fractions() {
    assert!(lookup_pattern("1/4").is_some());
    assert!(lookup_pattern("1/2").is_some());
    assert!(lookup_pattern("3/4").is_some());
    let (char, name) = lookup_pattern("1/4").unwrap();
    assert_eq!(char, "\u{00BC}");
    assert_eq!(name, "fraction one quarter");
}

#[test]
fn patterns_test_symbols() {
    assert!(lookup_pattern("(c)").is_some());
    assert!(lookup_pattern("(C)").is_some());
    assert!(lookup_pattern("(r)").is_some());
    assert!(lookup_pattern("(tm)").is_some());
    assert!(lookup_pattern("(t)").is_some());
    let (char, name) = lookup_pattern("(c)").unwrap();
    assert_eq!(char, "\u{00A9}");
    assert_eq!(name, "copyright sign");
}

#[test]
fn patterns_test_punctuation() {
    assert!(lookup_pattern("...").is_some());
    assert!(lookup_pattern("--").is_some());
    let (char, name) = lookup_pattern("...").unwrap();
    assert_eq!(char, "\u{2026}");
    assert_eq!(name, "horizontal ellipsis");
}

#[test]
fn patterns_test_arrows() {
    assert!(lookup_pattern("->").is_some());
    assert!(lookup_pattern("<-").is_some());
    assert!(lookup_pattern("=>").is_some());
    let (char, name) = lookup_pattern("->").unwrap();
    assert_eq!(char, "\u{2192}");
    assert_eq!(name, "rightwards arrow");
}

#[test]
fn patterns_test_greek_letters() {
    assert!(lookup_pattern("alpha").is_some());
    assert!(lookup_pattern("beta").is_some());
    assert!(lookup_pattern("lambda").is_some());
    assert!(lookup_pattern("lamda").is_some());
    assert!(lookup_pattern("Lambda").is_some());
    assert!(lookup_pattern("Omega").is_some());
    let (char, name) = lookup_pattern("lambda").unwrap();
    assert_eq!(char, "\u{03BB}");
    assert_eq!(name, "greek small letter lambda");
}

#[test]
fn patterns_test_unknown() {
    assert_eq!(lookup_pattern("unknown"), None);
}

#[test]
fn table_covers_every_category() {
    assert_eq!(lookup_pattern("euro").unwrap().0, "\u{20AC}");
    assert_eq!(lookup_pattern("!=").unwrap().0, "\u{2260}");
    assert_eq!(lookup_pattern("^2").unwrap().0, "\u{00B2}");
    assert_eq!(lookup_pattern("_3").unwrap().0, "\u{2083}");
    assert_eq!(lookup_pattern("dagger").unwrap().0, "\u{2020}");
    assert_eq!(lookup_pattern("star").unwrap().0, "\u{2605}");
    assert_eq!(lookup_pattern("Pi").unwrap().1, "greek capital letter pi");
}

#[test]
fn three_inputs_join_with_spaces() {
    let inputs = vec![":smile:".to_string(), "(c)".to_string(), "1/4".to_string()];
    let out = chars_command(&inputs).unwrap();
    assert_eq!(out.results.len(), 3);
    assert_eq!(out.results[0].result_type, "emoji");
    assert_eq!(out.results[1].result_type, "pattern");
    assert_eq!(out.to_plain(), "😄 © ¼");
}

#[test]
fn chars_command_failures() {
    let err = chars_command(&vec![]).unwrap_err();
    assert!(matches!(err, GivError::RequiredArgumentsNotProvided(_)));
    let err = chars_command(&vec!["(c)".to_string(), "nothing-here".to_string()]).unwrap_err();
    assert_eq!(err, GivError::UnknownCharacterPattern("nothing-here".to_string()));
    assert_eq!(
        err.message(),
        "Unknown character pattern or emoji shortcode: 'nothing-here'"
    );
}

#[test]
fn chars_output_from_results() {
    let out = CharsOutput::new(vec![CharResult {
        input: "->".to_string(),
        output: "→".to_string(),
        result_type: "pattern".to_string(),
        name: Some("rightwards arrow".to_string()),
    }]);
    assert_eq!(out.to_plain(), "→");
}
