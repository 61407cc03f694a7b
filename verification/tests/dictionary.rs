use wordle::app::TemplateApp;
use wordle::dict::Dictionary;
use wordle::world::LENGTH;

fn sample() -> Dictionary {
    let words: Vec<String> = vec![
        "crate".to_owned(),
        "toolong".to_owned(),
        "abc".to_owned(),
        "world".to_owned(),
        "".to_owned(),
        "hello".to_owned(),
    ];
    Dictionary::new(words)
}

#[test]
fn only_full_length_words_are_kept() {
    let d = sample();
    assert_eq!(d.len(), 3);
    assert!(d.contains(&"crate".to_owned()));
    assert!(d.contains(&"world".to_owned()));
    assert!(d.contains(&"hello".to_owned()));
    assert!(!d.contains(&"toolong".to_owned()));
    assert!(!d.contains(&"abc".to_owned()));
    assert!(!d.contains(&"".to_owned()));
    assert!(!d.contains(&"trace".to_owned()));
}

#[test]
fn random_word_is_a_dictionary_word_of_full_length() {
    let d = sample();
    for _ in 0..50 {
        let w = d.random_word();
        assert_eq!(w.chars().count(), LENGTH);
        assert!(d.contains(&w));
    }
}

#[test]
fn random_word_from_a_single_entry() {
    let d = Dictionary::new(vec!["crate".to_owned()]);
    assert_eq!(d.random_word(), "crate");
}

#[test]
fn default_app_state() {
    let app = TemplateApp::default();
    assert_eq!(app.label, "Hello World!");
    assert_eq!(app.world.cursor, (0, 0));
    let secret: String = app.world.result.iter().collect();
    assert_eq!(secret, "hello");
}
