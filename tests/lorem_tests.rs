use giv::entropy::Entropy;
use giv::lorem::{
    capitalize_first, clean_spacing, generate_lorem, generate_lorem_text, generate_words,
    get_classic_words, LoremUnit,
};

fn entropy() -> Entropy {
    Entropy::from_os().unwrap()
}

#[test]
fn test_generate_lorem() {
    let mut e = entropy();
    let text = generate_lorem_text(&mut e, 10, LoremUnit::Words).unwrap();
    assert!(!text.is_empty());
    let text = generate_lorem_text(&mut e, 3, LoremUnit::Sentences).unwrap();
    assert!(!text.is_empty());
    assert!(text.contains('.'));
    let text = generate_lorem_text(&mut e, 2, LoremUnit::Paragraphs).unwrap();
    assert!(!text.is_empty());
    assert!(text.contains("\n\n") || text.split("\n\n").count() >= 1);
}

#[test]
fn test_generate_lorem_zero() {
    let mut e = entropy();
    let text = generate_lorem_text(&mut e, 0, LoremUnit::Words).unwrap();
    assert!(text.is_empty() || text.len() < 10);
}

#[test]
fn test_words_classic_opening() {
    let mut e = entropy();
    let text = generate_lorem_text(&mut e, 5, LoremUnit::Words).unwrap();
    assert_eq!(text, "Lorem ipsum dolor sit amet.");
    let text = generate_lorem_text(&mut e, 3, LoremUnit::Words).unwrap();
    assert_eq!(text, "Lorem ipsum dolor.");
    let text = generate_lorem_text(&mut e, 10, LoremUnit::Words).unwrap();
    assert!(text.starts_with("Lorem ipsum dolor sit amet"));
}

#[test]
fn test_sentences_classic_opening() {
    let mut e = entropy();
    let text = generate_lorem_text(&mut e, 1, LoremUnit::Sentences).unwrap();
    assert!(text.starts_with("Lorem ipsum dolor sit amet"));
    let text = generate_lorem_text(&mut e, 3, LoremUnit::Sentences).unwrap();
    assert!(text.starts_with("Lorem ipsum dolor sit amet"));
}

#[test]
fn test_paragraphs_classic_opening() {
    let mut e = entropy();
    let text = generate_lorem_text(&mut e, 1, LoremUnit::Paragraphs).unwrap();
    let classic = lipsum::LOREM_IPSUM.trim();
    assert_eq!(text, classic);
    let text = generate_lorem_text(&mut e, 2, LoremUnit::Paragraphs).unwrap();
    assert!(text.starts_with(classic));
    assert!(text.contains("\n\n"));
}

#[test]
fn test_get_classic_words() {
    let words = get_classic_words();
    assert!(!words.is_empty());
    assert_eq!(words[0], "Lorem");
    assert_eq!(words[1], "ipsum");
    assert_eq!(words[2], "dolor");
    assert_eq!(words[3], "sit");
    assert_eq!(words[4], "amet");
}

#[test]
fn test_generate_words() {
    let mut e = entropy();
    let words = generate_words(&mut e, 5, true);
    assert_eq!(words.len(), 5);
    assert_eq!(words[0], "Lorem");
    assert_eq!(words[1], "ipsum");
    assert_eq!(words[2], "dolor");
    assert_eq!(words[3], "sit");
    assert_eq!(words[4], "amet");
    let words = generate_words(&mut e, 5, false);
    assert_eq!(words.len(), 5);
    assert_ne!(words[0], "Lorem");
}

#[test]
fn spacing_is_cleaned() {
    assert_eq!(clean_spacing("a   b  ."), "a b.");
    assert_eq!(clean_spacing("x \n\n  y ."), "x \n\n y.");
    assert_eq!(clean_spacing(""), "");
    assert_eq!(capitalize_first("lorem"), "Lorem");
    assert_eq!(capitalize_first(""), "");
}

#[test]
fn word_counts_are_exact() {
    let mut e = entropy();
    for n in [1usize, 5, 6, 50] {
        let text = generate_lorem(&mut e, Some(n), LoremUnit::Words).unwrap().lorem;
        assert_eq!(text.split(' ').count(), n);
        assert!(text.ends_with('.'));
    }
    let text = generate_lorem(&mut e, None, LoremUnit::Words).unwrap().lorem;
    assert_eq!(text.split(' ').count(), 50);
}
