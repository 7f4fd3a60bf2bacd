use randstr::alphabet::CharClass;
use randstr::{randstr, Error};

#[test]
fn nothing_enabled_is_no_alphabet() {
    assert!(matches!(randstr().try_build(), Err(Error::NoAlphabet)));
    assert!(matches!(randstr().len(16).try_build(), Err(Error::NoAlphabet)));
}

#[test]
fn empty_custom_alone_is_no_alphabet() {
    assert!(matches!(randstr().custom("").len(4).try_build(), Err(Error::NoAlphabet)));
}

#[test]
fn no_alphabet_comes_before_too_short() {
    assert!(matches!(randstr().must_custom("").len(0).try_build(), Err(Error::NoAlphabet)));
}

#[test]
fn two_mandatory_classes_in_length_one_is_too_short() {
    let built = randstr().must_upper().must_digit().len(1).try_build();
    assert!(matches!(built, Err(Error::TooShort)));
}

#[test]
fn seven_mandatory_classes_need_length_seven() {
    let mut builder = randstr();
    builder
        .must_upper()
        .must_lower()
        .must_letter()
        .must_digit()
        .must_symbol()
        .must_whitespace()
        .must_custom("xyz");
    assert!(matches!(builder.len(6).try_build(), Err(Error::TooShort)));
    assert!(builder.len(7).try_build().is_ok());
}

#[test]
fn length_equal_to_mandatory_count_builds() {
    assert!(randstr().must_upper().must_digit().len(2).try_build().is_ok());
    assert!(randstr().must_digit().len(1).try_build().is_ok());
}

#[test]
fn length_zero_builds_without_mandatory_classes() {
    let generator = randstr().upper().try_build().unwrap();
    assert_eq!(generator.length(), 0);
}

#[test]
fn alphabet_is_sorted_union_without_repeats() {
    let generator = randstr().upper().digit().len(8).build();
    assert_eq!(generator.alphabet(), b"0123456789ABCDEFGHIJKLMNOPQRSTUVWXYZ".to_vec());
}

#[test]
fn letter_with_upper_and_lower_repeats_nothing() {
    let generator = randstr().letter().upper().lower().len(8).build();
    assert_eq!(
        generator.alphabet(),
        b"ABCDEFGHIJKLMNOPQRSTUVWXYZabcdefghijklmnopqrstuvwxyz".to_vec()
    );
}

#[test]
fn all_is_letters_digits_and_symbols() {
    let generator = randstr().all().len(8).build();
    let alphabet = generator.alphabet();
    assert_eq!(alphabet.len(), 94);
    assert_eq!(alphabet, (0x21u8..=0x7e).collect::<Vec<u8>>());
    assert!(generator.mandatory().is_empty());
}

#[test]
fn custom_merges_into_the_alphabet() {
    let generator = randstr().digit().custom("zz9a").len(3).build();
    assert_eq!(generator.alphabet(), b"0123456789az".to_vec());
}

#[test]
fn later_custom_replaces_earlier() {
    let generator = randstr().custom("abc").custom("xy").len(3).build();
    assert_eq!(generator.alphabet(), b"xy".to_vec());
}

#[test]
fn mandatory_sets_keep_their_order() {
    let mut builder = randstr();
    builder
        .must_custom("ba")
        .must_symbol()
        .must_whitespace()
        .must_digit()
        .must_letter()
        .must_lower()
        .must_upper()
        .len(10);
    let generator = builder.build();
    assert_eq!(
        generator.mandatory(),
        vec![
            CharClass::Upper.bytes(),
            CharClass::Lower.bytes(),
            CharClass::Letter.bytes(),
            CharClass::Digit.bytes(),
            CharClass::Whitespace.bytes(),
            CharClass::Symbol.bytes(),
            b"ba".to_vec(),
        ]
    );
}

#[test]
fn mandatory_custom_set_keeps_repeats() {
    let generator = randstr().must_custom("aab").len(2).build();
    assert_eq!(generator.mandatory(), vec![b"aab".to_vec()]);
    assert_eq!(generator.alphabet(), b"ab".to_vec());
}

#[test]
fn mandatory_class_is_enabled() {
    let mut builder = randstr();
    builder.must_whitespace();
    assert!(builder.is_enabled(CharClass::Whitespace));
    assert!(builder.is_mandatory(CharClass::Whitespace));
    assert!(!builder.is_enabled(CharClass::Symbol));
    let generator = builder.len(4).build();
    assert_eq!(generator.alphabet(), CharClass::Whitespace.bytes());
}

#[test]
fn every_must_setter_enables_its_class() {
    let mut builder = randstr();
    builder.must_upper().must_lower().must_letter().must_digit().must_symbol();
    for class in [
        CharClass::Upper,
        CharClass::Lower,
        CharClass::Letter,
        CharClass::Digit,
        CharClass::Symbol,
    ] {
        assert!(builder.is_enabled(class));
        assert!(builder.is_mandatory(class));
    }
    assert!(!builder.is_enabled(CharClass::Whitespace));
    assert!(!builder.is_mandatory(CharClass::Whitespace));
}

#[test]
fn must_custom_sets_the_custom_characters() {
    let mut builder = randstr();
    assert_eq!(builder.custom_chars(), None);
    builder.must_custom("q!");
    assert_eq!(builder.custom_chars(), Some(String::from("q!")));
    assert!(builder.is_custom_mandatory());
    builder.custom("r");
    assert_eq!(builder.custom_chars(), Some(String::from("r")));
    assert!(builder.is_custom_mandatory());
}

#[test]
fn fresh_builder_has_nothing_set() {
    let builder = randstr();
    for class in [
        CharClass::Upper,
        CharClass::Lower,
        CharClass::Letter,
        CharClass::Digit,
        CharClass::Symbol,
        CharClass::Whitespace,
    ] {
        assert!(!builder.is_enabled(class));
        assert!(!builder.is_mandatory(class));
    }
    assert_eq!(builder.custom_chars(), None);
    assert!(!builder.is_custom_mandatory());
    assert_eq!(builder.length(), 0);
}

#[test]
fn enabling_twice_is_enabling_once() {
    let once = randstr().upper().len(5).build();
    let twice = randstr().upper().upper().len(5).build();
    assert_eq!(once.alphabet(), twice.alphabet());
    assert_eq!(once.mandatory(), twice.mandatory());
    assert_eq!(once.length(), twice.length());
}

#[test]
fn requiring_twice_is_requiring_once() {
    let once = randstr().must_digit().len(5).build();
    let twice = randstr().must_digit().must_digit().len(5).build();
    assert_eq!(once.alphabet(), twice.alphabet());
    assert_eq!(once.mandatory(), twice.mandatory());
    assert_eq!(twice.mandatory().len(), 1);
}

#[test]
fn all_twice_is_all_once() {
    let once = randstr().all().len(5).build();
    let twice = randstr().all().all().len(5).build();
    assert_eq!(once.alphabet(), twice.alphabet());
}

#[test]
fn last_length_wins() {
    let mut builder = randstr();
    builder.digit().len(3).len(9);
    assert_eq!(builder.length(), 9);
    assert_eq!(builder.build().length(), 9);
}

#[test]
fn builder_can_be_built_more_than_once() {
    let mut builder = randstr();
    builder.lower().len(6);
    let first = builder.build();
    let second = builder.build();
    assert_eq!(first.alphabet(), second.alphabet());
    assert_eq!(first.length(), second.length());
}

#[test]
fn error_messages() {
    assert_eq!(Error::NoAlphabet.message(), "No alphabet specified");
    assert_eq!(
        Error::TooShort.message(),
        "Length is too short to contain all mandatory alphabets"
    );
}

#[test]
fn errors_compare() {
    assert_eq!(Error::NoAlphabet, Error::NoAlphabet);
    assert_ne!(Error::NoAlphabet, Error::TooShort);
}
