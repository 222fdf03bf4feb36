use passgen::list::Items;
use passgen::password::PasswordType;

const SYMBOLS: &str = "!#$%&()*+-/:;<=>?@[]^_{|}";

fn random(numbers: bool, symbols: bool) -> PasswordType {
    PasswordType::Random { numbers, symbols, state: Items::default() }
}

#[test]
fn pin_is_digits_of_each_length() {
    for length in 3..=12usize {
        let s = PasswordType::Pin.generate(length);
        assert_eq!(s.chars().count(), length);
        assert!(s.chars().all(|c| c.is_ascii_digit()));
    }
}

#[test]
fn pin_of_three_a_thousand_times() {
    for _ in 0..1000 {
        let s = PasswordType::Pin.generate(3);
        assert_eq!(s.chars().count(), 3);
        assert!(s.chars().all(|c| c.is_ascii_digit()));
    }
}

#[test]
fn pin_digits_vary() {
    let mut seen_other = false;
    for _ in 0..50 {
        let s = PasswordType::Pin.generate(12);
        if s.chars().any(|c| c != '0') {
            seen_other = true;
        }
    }
    assert!(seen_other);
}

#[test]
fn full_random_covers_every_class() {
    for length in [4usize, 8, 20, 100] {
        for _ in 0..50 {
            let s = random(true, true).generate(length);
            assert_eq!(s.chars().count(), length);
            assert!(s.chars().any(|c| c.is_ascii_digit()));
            assert!(s.chars().any(|c| c.is_ascii_lowercase()));
            assert!(s.chars().any(|c| c.is_ascii_uppercase()));
            assert!(s.chars().any(|c| SYMBOLS.contains(c)));
            assert!(s.chars().all(|c| c.is_ascii_alphanumeric() || SYMBOLS.contains(c)));
        }
    }
}

#[test]
fn full_random_prefix_follows_class_order() {
    let s: Vec<char> = random(true, true).generate(8).chars().collect();
    assert!(s[0].is_ascii_digit());
    assert!(s[1].is_ascii_lowercase());
    assert!(s[2].is_ascii_uppercase());
    assert!(SYMBOLS.contains(s[3]));
}

#[test]
fn letters_only_random() {
    for length in [1usize, 2, 8, 100] {
        for _ in 0..50 {
            let s = random(false, false).generate(length);
            assert_eq!(s.chars().count(), length);
            assert!(s.chars().all(|c| c.is_ascii_alphabetic()));
        }
    }
}

#[test]
fn numbers_without_symbols() {
    for _ in 0..50 {
        let s = random(true, false).generate(30);
        assert_eq!(s.chars().count(), 30);
        assert!(s.chars().next().unwrap().is_ascii_digit());
        assert!(s.chars().all(|c| c.is_ascii_alphanumeric()));
    }
}

#[test]
fn symbols_without_numbers() {
    let mut seen_symbols = std::collections::HashSet::new();
    for _ in 0..50 {
        let s: Vec<char> = random(false, true).generate(30).chars().collect();
        assert_eq!(s.len(), 30);
        assert!(s[0].is_ascii_lowercase());
        assert!(s[1].is_ascii_uppercase());
        assert!(SYMBOLS.contains(s[2]));
        assert!(s.iter().all(|c| c.is_ascii_alphabetic() || SYMBOLS.contains(*c)));
        seen_symbols.extend(s.iter().filter(|c| SYMBOLS.contains(**c)).copied());
    }
    assert!(seen_symbols.len() > 1);
}

#[test]
fn short_length_drops_coverage() {
    let s: Vec<char> = random(true, true).generate(2).chars().collect();
    assert_eq!(s.len(), 2);
    assert!(s[0].is_ascii_digit());
    assert!(s[1].is_ascii_lowercase());
}

#[test]
fn zero_length_is_empty() {
    assert_eq!(PasswordType::Pin.generate(0), "");
    assert_eq!(random(true, true).generate(0), "");
}
