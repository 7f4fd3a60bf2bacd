use randstr::alphabet::CharClass;
use randstr::sorting::sort_dedup;

const CLASSES: [CharClass; 6] = [
    CharClass::Upper,
    CharClass::Lower,
    CharClass::Letter,
    CharClass::Digit,
    CharClass::Symbol,
    CharClass::Whitespace,
];

#[test]
fn upper_table_is_a_to_z() {
    assert_eq!(CharClass::Upper.bytes(), b"ABCDEFGHIJKLMNOPQRSTUVWXYZ".to_vec());
}

#[test]
fn lower_table_is_a_to_z() {
    assert_eq!(CharClass::Lower.bytes(), b"abcdefghijklmnopqrstuvwxyz".to_vec());
}

#[test]
fn letter_table_lists_lowercase_first() {
    assert_eq!(
        CharClass::Letter.bytes(),
        b"abcdefghijklmnopqrstuvwxyzABCDEFGHIJKLMNOPQRSTUVWXYZ".to_vec()
    );
}

#[test]
fn digit_table_is_0_to_9() {
    assert_eq!(CharClass::Digit.bytes(), b"0123456789".to_vec());
}

#[test]
fn whitespace_table_has_five_members() {
    assert_eq!(CharClass::Whitespace.bytes(), vec![0x09, 0x0a, 0x0c, 0x0d, 0x20]);
}

#[test]
fn symbol_table_is_ascii_punctuation() {
    assert_eq!(
        CharClass::Symbol.bytes(),
        b"!\"#$%&'()*+,-./:;<=>?@[\\]^_`{|}~".to_vec()
    );
}

#[test]
fn tables_agree_with_std_classification() {
    for b in 0u8..=255 {
        let c = b as char;
        assert_eq!(CharClass::Upper.contains(b), c.is_ascii_uppercase());
        assert_eq!(CharClass::Lower.contains(b), c.is_ascii_lowercase());
        assert_eq!(CharClass::Letter.contains(b), c.is_ascii_alphabetic());
        assert_eq!(CharClass::Digit.contains(b), c.is_ascii_digit());
        assert_eq!(CharClass::Whitespace.contains(b), c.is_ascii_whitespace());
        assert_eq!(
            CharClass::Symbol.contains(b),
            b < 127
                && !(c.is_ascii_control() || c.is_ascii_alphanumeric() || c.is_ascii_whitespace())
        );
    }
}

#[test]
fn table_holds_what_the_class_contains() {
    for class in CLASSES {
        let table = class.bytes();
        for b in 0u8..=255 {
            assert_eq!(table.contains(&b), class.contains(b));
        }
        assert!(!table.is_empty());
    }
}

#[test]
fn class_edges() {
    assert!(CharClass::Upper.contains(b'A'));
    assert!(CharClass::Upper.contains(b'Z'));
    assert!(!CharClass::Upper.contains(b'@'));
    assert!(!CharClass::Upper.contains(b'['));
    assert!(CharClass::Digit.contains(b'0'));
    assert!(CharClass::Digit.contains(b'9'));
    assert!(!CharClass::Digit.contains(b'/'));
    assert!(!CharClass::Digit.contains(b':'));
    assert!(!CharClass::Whitespace.contains(0x0b));
    assert!(!CharClass::Symbol.contains(b' '));
    assert!(!CharClass::Symbol.contains(0x7f));
    assert!(CharClass::Symbol.contains(b'~'));
    assert!(CharClass::Symbol.contains(b'!'));
}

#[test]
fn sort_dedup_sorts_and_drops_repeats() {
    assert_eq!(sort_dedup(&vec![3, 1, 2, 3, 1]), vec![1, 2, 3]);
    assert_eq!(sort_dedup(&vec![255, 0, 255, 0, 7]), vec![0, 7, 255]);
    assert_eq!(sort_dedup(&vec![9]), vec![9]);
}

#[test]
fn sort_dedup_of_nothing_is_nothing() {
    assert_eq!(sort_dedup(&Vec::new()), Vec::<u8>::new());
}

#[test]
fn sort_dedup_agrees_with_std() {
    let pool: Vec<u8> = b"the quick brown fox jumps over the lazy dog".to_vec();
    let mut expected = pool.clone();
    expected.sort_unstable();
    expected.dedup();
    assert_eq!(sort_dedup(&pool), expected);
}

#[test]
fn registry_lists_every_table() {
    let registry = randstr::AlphabetRegistry::new();
    for class in CLASSES {
        assert_eq!(*registry.table(class), class.bytes());
    }
}
