use wordle::{ConfigurationError, Dictionary, EnglishDictionary};

fn lines(words: &[&str]) -> Vec<String> {
    words.iter().map(|w| w.to_string()).collect()
}

#[test]
fn an_empty_word_list_gives_no_dictionary() {
    let made = EnglishDictionary::new(5, Vec::new());
    assert!(matches!(made, Err(ConfigurationError::Empty)));
}

#[test]
fn knows_its_words_in_any_case() {
    let dict = EnglishDictionary::new(5, lines(&["sound", "Wrong", "BOOST"])).unwrap();
    assert!(dict.contains_word("sound"));
    assert!(dict.contains_word("SOUND"));
    assert!(dict.contains_word("SoUnD"));
    assert!(dict.contains_word("wrong"));
    assert!(dict.contains_word("boost"));
    assert!(!dict.contains_word("groot"));
    assert!(!dict.contains_word("soun"));
    assert!(!dict.contains_word(""));
}

#[test]
fn picks_a_word_of_the_list() {
    let dict = EnglishDictionary::new(5, lines(&["sound", "wrong", "boost"])).unwrap();
    for _ in 0..200 {
        let word = dict.get_random_word(5).unwrap();
        assert!(word == "SOUND" || word == "WRONG" || word == "BOOST");
        assert!(dict.contains_word(&word));
    }
}

#[test]
fn picks_the_only_word() {
    let dict = EnglishDictionary::new(5, lines(&["sound"])).unwrap();
    for _ in 0..20 {
        assert_eq!("SOUND", dict.get_random_word(5).unwrap());
    }
}

#[test]
fn holds_a_repeated_line_once() {
    // With SOUND held three times, a pick would give it about three times in four.
    let dict = EnglishDictionary::new(5, lines(&["sound", "SOUND", "Sound", "wrong"])).unwrap();
    let mut sound = 0;
    let mut wrong = 0;
    for _ in 0..2000 {
        match dict.get_random_word(5).unwrap().as_str() {
            "SOUND" => sound += 1,
            "WRONG" => wrong += 1,
            other => panic!("{} is not in the list", other),
        }
    }
    assert_eq!(2000, sound + wrong);
    assert!(sound < 1300);
    assert!(wrong > 700);
}

#[test]
fn refuses_a_word_of_another_size() {
    let dict = EnglishDictionary::new(5, lines(&["sound", "wrong"])).unwrap();
    assert_eq!(
        Err(ConfigurationError::WrongSize {
            requested: 4,
            available: 5
        }),
        dict.get_random_word(4)
    );
    assert_eq!(
        Err(ConfigurationError::WrongSize {
            requested: 0,
            available: 5
        }),
        dict.get_random_word(0)
    );
}

#[test]
fn offers_the_letters_a_to_z() {
    let dict = EnglishDictionary::new(5, lines(&["sound"])).unwrap();
    let chars = dict.available_chars();
    assert_eq!(
        vec![
            'A', 'B', 'C', 'D', 'E', 'F', 'G', 'H', 'I', 'J', 'K', 'L', 'M', 'N', 'O', 'P', 'Q',
            'R', 'S', 'T', 'U', 'V', 'W', 'X', 'Y', 'Z'
        ],
        chars
    );
}

#[test]
fn passes_over_lines_of_another_size() {
    let dict = EnglishDictionary::new(5, lines(&["sound", "toolong", "abc", "", "wrong "])).unwrap();
    assert!(dict.contains_word("sound"));
    assert!(!dict.contains_word("toolong"));
    assert!(!dict.contains_word("abc"));
    assert!(!dict.contains_word(""));
    assert!(!dict.contains_word("wrong"));
    assert!(!dict.contains_word("wrong "));
    for _ in 0..50 {
        assert_eq!("SOUND", dict.get_random_word(5).unwrap());
    }
}

#[test]
fn a_list_without_a_line_of_the_size_gives_no_dictionary() {
    let made = EnglishDictionary::new(5, lines(&["toolong", "abc"]));
    assert!(matches!(made, Err(ConfigurationError::Empty)));
}

#[test]
fn measures_a_line_in_upper_case_and_in_letters() {
    // Five letters in six bytes.
    let dict = EnglishDictionary::new(5, lines(&["señor"])).unwrap();
    assert!(dict.contains_word("SEÑOR"));
    assert_eq!("SEÑOR", dict.get_random_word(5).unwrap());
    // Four letters that make five in upper case.
    let five = EnglishDictionary::new(5, lines(&["stoß"])).unwrap();
    assert!(five.contains_word("stoss"));
    assert_eq!("STOSS", five.get_random_word(5).unwrap());
    assert!(matches!(
        EnglishDictionary::new(4, lines(&["stoß"])),
        Err(ConfigurationError::Empty)
    ));
}

#[test]
fn holds_each_word_at_one_place() {
    let dict = EnglishDictionary::new(5, lines(&["sound", "wrong", "SOUND", "boost", "toolong"]))
        .unwrap();
    assert_eq!(3, dict.word_count());
    let mut words: Vec<String> = (0..dict.word_count()).map(|i| dict.nth_word(i)).collect();
    words.sort();
    assert_eq!(vec!["BOOST", "SOUND", "WRONG"], words);
}

#[test]
fn holds_its_words_in_upper_case_only() {
    let dict = EnglishDictionary::new(5, lines(&["sound", "Wrong"])).unwrap();
    assert!(dict.holds_word(&"SOUND".to_string()));
    assert!(dict.holds_word(&"WRONG".to_string()));
    assert!(!dict.holds_word(&"sound".to_string()));
    assert!(!dict.holds_word(&"Wrong".to_string()));
    assert!(!dict.holds_word(&"BOOST".to_string()));
}
