use giv::bytes::{BytesEncoding, BytesOutput};
use giv::chars::{CharResult, CharsOutput};
use giv::cli::{Cli, Commands};
use giv::date::DateOutput;
use giv::key::KeyOutput;
use giv::lorem::LoremOutput;
use giv::output::{CommandOptions, Formatter, Output};
use giv::pi::PiOutput;
use giv::uuid::UuidOutput;

#[test]
fn output_test_to_plain() {
    let output = BytesOutput::new(&[0x01, 0x02, 0x03], BytesEncoding::Hex, false);
    assert_eq!(output.to_plain(), "010203");

    let output = CharsOutput {
        results: vec![
            CharResult {
                input: ":smile:".to_string(),
                output: "😀".to_string(),
                result_type: "emoji".to_string(),
                name: Some("grinning face".to_string()),
            },
            CharResult {
                input: "->".to_string(),
                output: "→".to_string(),
                result_type: "pattern".to_string(),
                name: Some("rightwards arrow".to_string()),
            },
        ],
    };
    assert_eq!(output.to_plain(), "😀 →");

    let output = DateOutput { date: "2025-01-15T10:30:00Z".to_string() };
    assert_eq!(output.to_plain(), "2025-01-15T10:30:00Z");

    let output = KeyOutput { key: "key_abc123XYZ".to_string() };
    assert_eq!(output.to_plain(), "key_abc123XYZ");

    let output = LoremOutput { lorem: "Lorem ipsum dolor sit amet.".to_string() };
    assert_eq!(output.to_plain(), "Lorem ipsum dolor sit amet.");

    let output = PiOutput { pi: "3.14159".to_string(), rounded: true };
    assert_eq!(output.to_plain(), "3.14159");

    let output = UuidOutput {
        uuid: "01234567-89ab-7def-0123-456789abcdef".to_string(),
        version: "v7".to_string(),
        format: "standard".to_string(),
        uppercase: false,
    };
    assert_eq!(output.to_plain(), "01234567-89ab-7def-0123-456789abcdef");
}

#[test]
fn test_string_to_plain() {
    let value = "test value".to_string();
    assert_eq!(value.to_plain(), "test value");
}

#[test]
fn test_str_to_plain() {
    let value = "test value";
    assert_eq!(value.to_plain(), "test value");
}

#[test]
fn options_and_formatter() {
    let options = CommandOptions::default();
    assert!(!options.json && !options.clip);
    let cli = Cli { clip: true, json: true, command: Commands::Key { size: None } };
    let options = CommandOptions::from(&cli);
    assert!(options.json && options.clip);
    let f = Formatter::new(options);
    assert!(f.is_json());
    assert!(f.is_clip());
    assert!(!Formatter::new(CommandOptions::default()).is_json());
}
