use agent_of_empires::civilizations::{generate_random_title, numbered_title, to_roman, CIVILIZATIONS};

#[test]
fn test_to_roman() {
    assert_eq!(to_roman(1), "I");
    assert_eq!(to_roman(2), "II");
    assert_eq!(to_roman(3), "III");
    assert_eq!(to_roman(4), "IV");
    assert_eq!(to_roman(5), "V");
    assert_eq!(to_roman(9), "IX");
    assert_eq!(to_roman(10), "X");
    assert_eq!(to_roman(49), "XLIX");
    assert_eq!(to_roman(50), "L");
    assert_eq!(to_roman(100), "C");
    assert_eq!(to_roman(500), "D");
    assert_eq!(to_roman(1000), "M");
}

#[test]
fn test_generate_random_title_returns_civ() {
    let title = generate_random_title(&[]);
    assert!(CIVILIZATIONS.contains(&title.as_str()));
}

#[test]
fn test_generate_random_title_avoids_existing() {
    let existing = vec!["Britons", "Franks", "Vikings"];
    let title = generate_random_title(&existing);
    assert!(!existing.contains(&title.as_str()));
}

#[test]
fn test_generate_random_title_with_all_taken_uses_roman_numerals() {
    let existing: Vec<&str> = CIVILIZATIONS.to_vec();
    let title = generate_random_title(&existing);
    assert!(title.contains(" II"));
}

#[test]
fn roman_numerals_of_larger_values() {
    assert_eq!(to_roman(1994), "MCMXCIV");
    assert_eq!(to_roman(3999), "MMMCMXCIX");
    assert_eq!(to_roman(0), "");
}

#[test]
fn numbered_title_skips_taken_numbers() {
    let existing = vec!["Aztecs", "Aztecs II", "Aztecs III"];
    assert_eq!(numbered_title("Aztecs", &existing).unwrap(), "Aztecs IV");
}
