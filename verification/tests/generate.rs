use randstr::alphabet::CharClass;
use randstr::randstr;

#[test]
fn length_is_exact_over_many_calls() {
    for length in [0usize, 1, 2, 7, 64, 300] {
        let mut generator = randstr().all().len(length).build();
        for _ in 0..50 {
            assert_eq!(generator.generate().chars().count(), length);
        }
    }
}

#[test]
fn length_is_exact_with_mandatory_classes() {
    let mut generator = randstr()
        .must_upper()
        .must_lower()
        .must_digit()
        .must_symbol()
        .len(4)
        .build();
    for _ in 0..200 {
        let text = generator.generate();
        assert_eq!(text.len(), 4);
        assert_eq!(text.chars().count(), 4);
    }
}

#[test]
fn empty_string_for_length_zero() {
    let mut generator = randstr().digit().len(0).build();
    assert_eq!(generator.generate(), "");
}

#[test]
fn only_symbols() {
    let mut generator = randstr().symbol().len(512).build();
    assert!(generator.generate().chars().all(|c| c.is_ascii_punctuation()));
}

#[test]
fn only_whitespace() {
    let mut generator = randstr().whitespace().len(512).build();
    assert!(generator.generate().chars().all(|c| c.is_ascii_whitespace()));
}

#[test]
fn only_letters() {
    let mut generator = randstr().letter().len(512).build();
    assert!(generator.generate().chars().all(|c| c.is_ascii_alphabetic()));
}

#[test]
fn only_custom_characters() {
    let mut generator = randstr().custom("xyz").len(512).build();
    assert!(generator.generate().chars().all(|c| "xyz".contains(c)));
}

#[test]
fn every_character_is_in_the_alphabet() {
    let mut generator = randstr().upper().digit().custom("-_").len(256).build();
    let alphabet = generator.alphabet();
    for _ in 0..20 {
        assert!(generator.generate().bytes().all(|b| alphabet.contains(&b)));
    }
}

#[test]
fn single_character_with_mandatory_digit_is_a_digit() {
    let mut generator = randstr().all().must_digit().len(1).build();
    for _ in 0..200 {
        let text = generator.generate();
        assert_eq!(text.len(), 1);
        assert!(text.chars().all(|c| c.is_ascii_digit()));
    }
}

#[test]
fn lone_mandatory_class_is_always_met() {
    let mut generator = randstr().all().must_custom("#").len(3).build();
    for _ in 0..500 {
        assert!(generator.generate().contains('#'));
    }
}

#[test]
fn nested_mandatory_classes_are_always_met() {
    let mut generator = randstr().digit().must_upper().must_letter().len(2).build();
    for _ in 0..500 {
        let text = generator.generate();
        assert!(text.chars().any(|c| c.is_ascii_uppercase()));
        assert!(text.chars().any(|c| c.is_ascii_alphabetic()));
    }
}

#[test]
fn mandatory_whitespace_gives_whitespace() {
    let mut generator = randstr().must_whitespace().len(3).build();
    for _ in 0..50 {
        let text = generator.generate();
        assert_eq!(text.len(), 3);
        assert!(text.chars().all(|c| c.is_ascii_whitespace()));
    }
}

#[test]
fn built_in_classes_are_drawable() {
    assert!(randstr().all().whitespace().must_digit().len(5).build().is_drawable());
    assert!(randstr().custom("abc").must_custom("abc").len(5).build().is_drawable());
}

#[test]
fn empty_mandatory_custom_is_not_drawable() {
    let generator = randstr().digit().must_custom("").len(5).build();
    assert!(!generator.is_drawable());
}

#[test]
fn custom_beyond_ascii_is_not_drawable() {
    let generator = randstr().custom("\u{e9}").len(2).build();
    assert_eq!(generator.alphabet(), vec![0xa9, 0xc3]);
    assert!(!generator.is_drawable());
    assert!(randstr().custom("\u{e9}").len(0).build().is_drawable());
}

#[test]
fn every_alphabet_byte_turns_up() {
    let mut generator = randstr().digit().len(2000).build();
    let text = generator.generate();
    for digit in CharClass::Digit.bytes() {
        assert!(text.bytes().any(|b| b == digit));
    }
}

#[test]
fn draws_are_spread_evenly() {
    let mut generator = randstr().digit().len(1000).build();
    let mut counts = [0usize; 10];
    for _ in 0..20 {
        for b in generator.generate().bytes() {
            counts[(b - b'0') as usize] += 1;
        }
    }
    // 20000 draws over 10 digits: 2000 each, give or take a standard
    // deviation of about 42.
    for count in counts {
        assert!(1600 < count && count < 2400);
    }
    let expected = 2000.0f64;
    let chi_squared: f64 = counts
        .iter()
        .map(|&count| (count as f64 - expected) * (count as f64 - expected) / expected)
        .sum();
    // Nine degrees of freedom: a value above 60 has a chance below one in
    // a thousand million.
    assert!(chi_squared < 60.0);
}

#[test]
fn added_byte_does_not_stay_at_the_end() {
    let mut generator = randstr().upper().must_custom("x").len(20).build();
    let mut with_one = 0usize;
    let mut at_the_end = 0usize;
    for _ in 0..2000 {
        let text = generator.generate();
        if text.matches('x').count() == 1 {
            with_one += 1;
            if text.ends_with('x') {
                at_the_end += 1;
            }
        }
    }
    assert!(with_one > 500);
    assert!(at_the_end * 3 < with_one);
}

#[test]
fn strings_differ_from_call_to_call() {
    let mut generator = randstr().all().len(32).build();
    let first = generator.generate();
    let mut differs = false;
    for _ in 0..10 {
        if generator.generate() != first {
            differs = true;
        }
    }
    assert!(differs);
}

#[test]
fn injected_random_source_is_used() {
    let mut generator = randstr().rng(rand::thread_rng()).lower().len(16).build();
    let text = generator.generate();
    assert_eq!(text.len(), 16);
    assert!(text.chars().all(|c| c.is_ascii_lowercase()));
}
