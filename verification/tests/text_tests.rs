use contact::text::{capitalize, contains, join_words, lb, spaces, to_chars, trim};

#[test]
fn generates_spaces() {
    assert_eq!(spaces(5), "     ".to_string());
    assert_eq!(spaces(2), "  ".to_string());
    assert_eq!(spaces(17), "                 ".to_string());
    assert_eq!(spaces(7), "       ".to_string());
    assert_eq!(spaces(12), "            ".to_string());
}

#[test]
fn generates_lb() {
    assert_eq!(lb(&5), "-----".to_string());
    assert_eq!(lb(&2), "--".to_string());
    assert_eq!(lb(&17), "-----------------".to_string());
    assert_eq!(lb(&7), "-------".to_string());
    assert_eq!(lb(&12), "------------".to_string());
}

#[test]
fn capitalizes() {
    assert_eq!(capitalize(&"peacock".to_string()), "Peacock".to_string());
    assert_eq!(capitalize(&"peAcoCK".to_string()), "Peacock".to_string());
    assert_eq!(capitalize(&"PEACOCK".to_string()), "Peacock".to_string());
    assert_eq!(capitalize(&"p".to_string()), "P".to_string());
    assert_eq!(capitalize(&"alfred peacock".to_string()), "Alfred peacock".to_string());
}

#[test]
fn zero_spaces_is_empty() {
    assert_eq!(spaces(0), String::new());
    assert_eq!(lb(&0), String::new());
}

#[test]
fn padding_has_the_length_asked_for() {
    for n in [0usize, 1, 3, 22, 100] {
        let pad = spaces(n);
        assert_eq!(pad.chars().count(), n);
        assert!(pad.chars().all(|c| c == ' '));
        let rule = lb(&n);
        assert_eq!(rule.chars().count(), n);
        assert!(rule.chars().all(|c| c == '-'));
    }
}

#[test]
fn capitalize_keeps_the_empty_text() {
    assert_eq!(capitalize(&String::new()), String::new());
}

#[test]
fn capitalize_upper_cases_one_letter() {
    assert_eq!(capitalize(&"z".to_string()), "Z".to_string());
    assert_eq!(capitalize(&"Z".to_string()), "Z".to_string());
}

#[test]
fn capitalize_counts_characters_not_bytes() {
    assert_eq!(capitalize(&"émile".to_string()), "Émile".to_string());
    assert_eq!(capitalize(&"é".to_string()), "É".to_string());
    assert_eq!(capitalize(&"ÉMILE".to_string()), "Émile".to_string());
}

#[test]
fn capitalize_lower_cases_the_rest() {
    assert_eq!(capitalize(&"mCDONALD".to_string()), "Mcdonald".to_string());
    assert_eq!(capitalize(&"UNKNOWN".to_string()), "Unknown".to_string());
}

#[test]
fn trim_removes_white_space_at_both_ends() {
    assert_eq!(trim("  al  "), "al".to_string());
    assert_eq!(trim("\t al smith\n"), "al smith".to_string());
    assert_eq!(trim("al"), "al".to_string());
    assert_eq!(trim("\u{a0}al\u{2003}"), "al".to_string());
}

#[test]
fn trim_of_white_space_is_empty() {
    assert_eq!(trim(""), String::new());
    assert_eq!(trim("   "), String::new());
    assert_eq!(trim(" \t\r\n"), String::new());
}

#[test]
fn trim_keeps_inner_white_space() {
    assert_eq!(trim(" a  b "), "a  b".to_string());
}

#[test]
fn contains_finds_a_run_of_characters() {
    assert!(contains("al smith", "al"));
    assert!(contains("al smith", "smith"));
    assert!(contains("al smith", "l s"));
    assert!(contains("al smith", "al smith"));
    assert!(contains("5551234567", "123"));
}

#[test]
fn contains_rejects_what_is_not_there() {
    assert!(!contains("al smith", "jones"));
    assert!(!contains("al smith", "al  smith"));
    assert!(!contains("al", "al smith"));
    assert!(!contains("", "a"));
    assert!(!contains("abab", "abb"));
}

#[test]
fn contains_finds_the_empty_text_everywhere() {
    assert!(contains("al", ""));
    assert!(contains("", ""));
}

#[test]
fn contains_agrees_with_the_standard_library() {
    let hays = ["", "a", "ab", "aab", "abcabd", "émile zola", "aaa"];
    let needles = ["", "a", "b", "ab", "abd", "é", "zola", "aaaa", "le z"];
    for hay in hays {
        for needle in needles {
            assert_eq!(contains(hay, needle), hay.contains(needle));
        }
    }
}

#[test]
fn join_words_puts_one_space_between() {
    assert_eq!(join_words("Al", "Smith"), "Al Smith".to_string());
    assert_eq!(join_words("", ""), " ".to_string());
}

#[test]
fn to_chars_lists_the_characters() {
    assert_eq!(to_chars("aé-"), vec!['a', 'é', '-']);
    assert_eq!(to_chars(""), Vec::<char>::new());
}
