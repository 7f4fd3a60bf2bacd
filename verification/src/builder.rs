//! Collecting what a generator is to do, and compiling it.

use crate::alphabet::{lemma_table_members, AlphabetRegistry, CharClass};
use crate::error::Error;
use crate::generator::{byte_sets, Compiled, RandStr};
use crate::sorting::{distinct_sorted, lemma_distinct_sorted, sort_dedup};
use rand::rngs::ThreadRng;
use vstd::prelude::*;
use vstd::string::StrSliceExecFns;
use vstd::utf8::encode_utf8;

verus! {

/// What a builder has been told: which classes may appear, which must, the
/// custom class if there is one, and the length.
pub struct Config {
    pub upper: bool,
    pub lower: bool,
    pub letter: bool,
    pub digit: bool,
    pub symbol: bool,
    pub whitespace: bool,
    pub custom: Option<Seq<char>>,
    pub must_upper: bool,
    pub must_lower: bool,
    pub must_letter: bool,
    pub must_digit: bool,
    pub must_symbol: bool,
    pub must_whitespace: bool,
    pub must_custom: bool,
    pub len: nat,
}

/// `bytes` if `on`, else nothing.
pub open spec fn part(on: bool, bytes: Seq<u8>) -> Seq<u8> {
    if on {
        bytes
    } else {
        Seq::empty()
    }
}

/// The one set `bytes` if `on`, else no set.
pub open spec fn entry(on: bool, bytes: Seq<u8>) -> Seq<Seq<u8>> {
    if on {
        seq![bytes]
    } else {
        Seq::empty()
    }
}

impl Config {
    /// Nothing enabled, nothing mandatory, length 0.
    pub open spec fn empty() -> Config {
        Config {
            upper: false,
            lower: false,
            letter: false,
            digit: false,
            symbol: false,
            whitespace: false,
            custom: None,
            must_upper: false,
            must_lower: false,
            must_letter: false,
            must_digit: false,
            must_symbol: false,
            must_whitespace: false,
            must_custom: false,
            len: 0,
        }
    }

    /// Whether `class` may appear.
    pub open spec fn enabled(self, class: CharClass) -> bool {
        match class {
            CharClass::Upper => self.upper,
            CharClass::Lower => self.lower,
            CharClass::Letter => self.letter,
            CharClass::Digit => self.digit,
            CharClass::Symbol => self.symbol,
            CharClass::Whitespace => self.whitespace,
        }
    }

    /// Whether `class` must appear.
    pub open spec fn required(self, class: CharClass) -> bool {
        match class {
            CharClass::Upper => self.must_upper,
            CharClass::Lower => self.must_lower,
            CharClass::Letter => self.must_letter,
            CharClass::Digit => self.must_digit,
            CharClass::Symbol => self.must_symbol,
            CharClass::Whitespace => self.must_whitespace,
        }
    }

    /// The configuration with `class` enabled.
    pub open spec fn enable(self, class: CharClass) -> Config {
        match class {
            CharClass::Upper => Config { upper: true, ..self },
            CharClass::Lower => Config { lower: true, ..self },
            CharClass::Letter => Config { letter: true, ..self },
            CharClass::Digit => Config { digit: true, ..self },
            CharClass::Symbol => Config { symbol: true, ..self },
            CharClass::Whitespace => Config { whitespace: true, ..self },
        }
    }

    /// The configuration with `class` enabled and mandatory.
    pub open spec fn require(self, class: CharClass) -> Config {
        match class {
            CharClass::Upper => Config { upper: true, must_upper: true, ..self },
            CharClass::Lower => Config { lower: true, must_lower: true, ..self },
            CharClass::Letter => Config { letter: true, must_letter: true, ..self },
            CharClass::Digit => Config { digit: true, must_digit: true, ..self },
            CharClass::Symbol => Config { symbol: true, must_symbol: true, ..self },
            CharClass::Whitespace => Config { whitespace: true, must_whitespace: true, ..self },
        }
    }

    /// The configuration with letters, digits and symbols enabled.
    pub open spec fn enable_all(self) -> Config {
        self.enable(CharClass::Letter).enable(CharClass::Digit).enable(CharClass::Symbol)
    }

    /// The configuration with `chars` as its custom class, in place of any
    /// earlier one.
    pub open spec fn with_custom(self, chars: Seq<char>) -> Config {
        Config { custom: Some(chars), ..self }
    }

    /// The configuration with `chars` as its custom class, which is mandatory.
    pub open spec fn require_custom(self, chars: Seq<char>) -> Config {
        Config { custom: Some(chars), must_custom: true, ..self }
    }

    /// The configuration with length `len`.
    pub open spec fn with_len(self, len: nat) -> Config {
        Config { len, ..self }
    }

    /// A class is mandatory only if it is enabled.
    pub open spec fn wf(self) -> bool {
        &&& self.must_upper ==> self.upper
        &&& self.must_lower ==> self.lower
        &&& self.must_letter ==> self.letter
        &&& self.must_digit ==> self.digit
        &&& self.must_symbol ==> self.symbol
        &&& self.must_whitespace ==> self.whitespace
        &&& self.must_custom ==> self.custom is Some
    }

    /// The bytes of the custom class: its characters in UTF-8.
    pub open spec fn custom_bytes(self) -> Seq<u8> {
        match self.custom {
            Some(chars) => encode_utf8(chars),
            None => Seq::empty(),
        }
    }

    /// The bytes of all enabled classes, one class after the other, repeats
    /// included.
    pub open spec fn pool(self) -> Seq<u8> {
        part(self.upper, CharClass::Upper.table()) + part(self.lower, CharClass::Lower.table())
            + part(self.letter, CharClass::Letter.table()) + part(
            self.digit,
            CharClass::Digit.table(),
        ) + part(self.symbol, CharClass::Symbol.table()) + part(
            self.whitespace,
            CharClass::Whitespace.table(),
        ) + self.custom_bytes()
    }

    /// Whether some enabled class holds byte `b`.
    pub open spec fn allows(self, b: u8) -> bool {
        ||| self.upper && CharClass::Upper.admits(b)
        ||| self.lower && CharClass::Lower.admits(b)
        ||| self.letter && CharClass::Letter.admits(b)
        ||| self.digit && CharClass::Digit.admits(b)
        ||| self.symbol && CharClass::Symbol.admits(b)
        ||| self.whitespace && CharClass::Whitespace.admits(b)
        ||| self.custom_bytes().contains(b)
    }

    /// Whether `set` is the byte set of a class that is mandatory.
    pub open spec fn is_mandatory_set(self, set: Seq<u8>) -> bool {
        ||| self.must_upper && set == CharClass::Upper.table()
        ||| self.must_lower && set == CharClass::Lower.table()
        ||| self.must_letter && set == CharClass::Letter.table()
        ||| self.must_digit && set == CharClass::Digit.table()
        ||| self.must_symbol && set == CharClass::Symbol.table()
        ||| self.must_whitespace && set == CharClass::Whitespace.table()
        ||| self.must_custom && set == self.custom_bytes()
    }

    /// The byte sets of the mandatory classes, in the order in which a
    /// generator looks for them.
    pub open spec fn mandatory(self) -> Seq<Seq<u8>> {
        entry(self.must_upper, CharClass::Upper.table()) + entry(
            self.must_lower,
            CharClass::Lower.table(),
        ) + entry(self.must_letter, CharClass::Letter.table()) + entry(
            self.must_digit,
            CharClass::Digit.table(),
        ) + entry(self.must_whitespace, CharClass::Whitespace.table()) + entry(
            self.must_symbol,
            CharClass::Symbol.table(),
        ) + entry(self.must_custom, self.custom_bytes())
    }

    /// What compiling the configuration gives: the generator's parts, or the
    /// reason why there is none.
    pub open spec fn compile(self) -> Result<Compiled, Error> {
        if self.pool().len() == 0 {
            Err(Error::NoAlphabet)
        } else if self.len < self.mandatory().len() {
            Err(Error::TooShort)
        } else {
            Ok(
                Compiled {
                    alphabet: distinct_sorted(self.pool()),
                    mandatory: self.mandatory(),
                    length: self.len,
                },
            )
        }
    }
}

/// Builder for generators of random strings.
pub struct RandStrBuilder {
    upper: bool,
    lower: bool,
    letter: bool,
    digit: bool,
    symbol: bool,
    whitespace: bool,
    custom: Option<String>,
    must_upper: bool,
    must_lower: bool,
    must_letter: bool,
    must_digit: bool,
    must_symbol: bool,
    must_whitespace: bool,
    must_custom: bool,
    len: usize,
    rng: Option<ThreadRng>,
}

impl View for RandStrBuilder {
    type V = Config;

    closed spec fn view(&self) -> Config {
        Config {
            upper: self.upper,
            lower: self.lower,
            letter: self.letter,
            digit: self.digit,
            symbol: self.symbol,
            whitespace: self.whitespace,
            custom: match self.custom {
                Some(chars) => Some(chars@),
                None => None,
            },
            must_upper: self.must_upper,
            must_lower: self.must_lower,
            must_letter: self.must_letter,
            must_digit: self.must_digit,
            must_symbol: self.must_symbol,
            must_whitespace: self.must_whitespace,
            must_custom: self.must_custom,
            len: self.len as nat,
        }
    }
}

/// Adds `table` to `pool` if `on`.
fn add_class(pool: &mut Vec<u8>, on: bool, table: &Vec<u8>)
    ensures
        final(pool)@ == old(pool)@ + part(on, table@),
{
    if on {
        let mut copy = table.clone();
        pool.append(&mut copy);
    } else {
        assert(pool@ =~= pool@ + Seq::<u8>::empty());
    }
}

/// Adds `table` to `sets` as one more set if `on`.
fn add_mandatory(sets: &mut Vec<Vec<u8>>, on: bool, table: &Vec<u8>)
    ensures
        byte_sets(final(sets)@) == byte_sets(old(sets)@) + entry(on, table@),
{
    if on {
        sets.push(table.clone());
    }
    assert(byte_sets(sets@) =~= byte_sets(old(sets)@) + entry(on, table@));
}

impl RandStrBuilder {
    #[verifier::type_invariant]
    spec fn inv(self) -> bool {
        self@.wf()
    }

    /// The random source that was handed in, if any.
    pub closed spec fn source(self) -> Option<ThreadRng> {
        self.rng
    }

    fn new() -> (builder: Self)
        ensures
            builder@ == Config::empty(),
            builder.source() is None,
    {
        RandStrBuilder {
            upper: false,
            lower: false,
            letter: false,
            digit: false,
            symbol: false,
            whitespace: false,
            custom: None,
            must_upper: false,
            must_lower: false,
            must_letter: false,
            must_digit: false,
            must_symbol: false,
            must_whitespace: false,
            must_custom: false,
            rng: None,
            len: 0,
        }
    }

    /// Tells whether `class` may appear.
    pub fn is_enabled(&self, class: CharClass) -> (enabled: bool)
        ensures
            enabled == self@.enabled(class),
    {
        match class {
            CharClass::Upper => self.upper,
            CharClass::Lower => self.lower,
            CharClass::Letter => self.letter,
            CharClass::Digit => self.digit,
            CharClass::Symbol => self.symbol,
            CharClass::Whitespace => self.whitespace,
        }
    }

    /// Tells whether `class` must appear.
    pub fn is_mandatory(&self, class: CharClass) -> (mandatory: bool)
        ensures
            mandatory == self@.required(class),
    {
        match class {
            CharClass::Upper => self.must_upper,
            CharClass::Lower => self.must_lower,
            CharClass::Letter => self.must_letter,
            CharClass::Digit => self.must_digit,
            CharClass::Symbol => self.must_symbol,
            CharClass::Whitespace => self.must_whitespace,
        }
    }

    /// The custom characters, if any were given.
    pub fn custom_chars(&self) -> (chars: Option<String>)
        ensures
            chars is Some <==> self@.custom is Some,
            chars matches Some(text) ==> self@.custom == Some(text@),
    {
        match &self.custom {
            Some(chars) => Some(chars.clone()),
            None => None,
        }
    }

    /// Tells whether a custom character must appear.
    pub fn is_custom_mandatory(&self) -> (mandatory: bool)
        ensures
            mandatory == self@.must_custom,
    {
        self.must_custom
    }

    /// The length that the generated strings are to have.
    pub fn length(&self) -> (length: usize)
        ensures
            length == self@.len,
    {
        self.len
    }

    /// Allows the generator to produce uppercase letters.
    pub fn upper(&mut self) -> (builder: &mut Self)
        ensures
            builder@ == old(self)@.enable(CharClass::Upper),
            builder.source() == old(self).source(),
            *final(self) == *final(builder),
    {
        proof {
            use_type_invariant(&*self);
        }
        self.upper = true;
        self
    }

    /// Allows the generator to produce lowercase letters.
    pub fn lower(&mut self) -> (builder: &mut Self)
        ensures
            builder@ == old(self)@.enable(CharClass::Lower),
            builder.source() == old(self).source(),
            *final(self) == *final(builder),
    {
        proof {
            use_type_invariant(&*self);
        }
        self.lower = true;
        self
    }

    /// Allows the generator to produce uppercase and lowercase letters.
    pub fn letter(&mut self) -> (builder: &mut Self)
        ensures
            builder@ == old(self)@.enable(CharClass::Letter),
            builder.source() == old(self).source(),
            *final(self) == *final(builder),
    {
        proof {
            use_type_invariant(&*self);
        }
        self.letter = true;
        self
    }

    /// Allows the generator to produce whitespace.
    pub fn whitespace(&mut self) -> (builder: &mut Self)
        ensures
            builder@ == old(self)@.enable(CharClass::Whitespace),
            builder.source() == old(self).source(),
            *final(self) == *final(builder),
    {
        proof {
            use_type_invariant(&*self);
        }
        self.whitespace = true;
        self
    }

    /// Allows the generator to produce digits.
    pub fn digit(&mut self) -> (builder: &mut Self)
        ensures
            builder@ == old(self)@.enable(CharClass::Digit),
            builder.source() == old(self).source(),
            *final(self) == *final(builder),
    {
        proof {
            use_type_invariant(&*self);
        }
        self.digit = true;
        self
    }

    /// Allows the generator to produce symbols.
    pub fn symbol(&mut self) -> (builder: &mut Self)
        ensures
            builder@ == old(self)@.enable(CharClass::Symbol),
            builder.source() == old(self).source(),
            *final(self) == *final(builder),
    {
        proof {
            use_type_invariant(&*self);
        }
        self.symbol = true;
        self
    }

    /// Allows the generator to produce the characters of `custom`, which
    /// replace any custom characters given before.
    pub fn custom(&mut self, custom: &str) -> (builder: &mut Self)
        ensures
            builder@ == old(self)@.with_custom(custom@),
            builder.source() == old(self).source(),
            *final(self) == *final(builder),
    {
        proof {
            use_type_invariant(&*self);
        }
        self.custom = Some(custom.to_owned());
        self
    }

    /// Allows the generator to produce letters, digits and symbols.
    pub fn all(&mut self) -> (builder: &mut Self)
        ensures
            builder@ == old(self)@.enable_all(),
            builder.source() == old(self).source(),
            *final(self) == *final(builder),
    {
        self.letter().digit().symbol()
    }

    /// Forces the generator to produce strings containing uppercase letters.
    pub fn must_upper(&mut self) -> (builder: &mut Self)
        ensures
            builder@ == old(self)@.require(CharClass::Upper),
            builder.source() == old(self).source(),
            *final(self) == *final(builder),
    {
        proof {
            use_type_invariant(&*self);
        }
        self.upper = true;
        self.must_upper = true;
        self
    }

    /// Forces the generator to produce strings containing lowercase letters.
    pub fn must_lower(&mut self) -> (builder: &mut Self)
        ensures
            builder@ == old(self)@.require(CharClass::Lower),
            builder.source() == old(self).source(),
            *final(self) == *final(builder),
    {
        proof {
            use_type_invariant(&*self);
        }
        self.lower = true;
        self.must_lower = true;
        self
    }

    /// Forces the generator to produce strings containing letters.
    pub fn must_letter(&mut self) -> (builder: &mut Self)
        ensures
            builder@ == old(self)@.require(CharClass::Letter),
            builder.source() == old(self).source(),
            *final(self) == *final(builder),
    {
        proof {
            use_type_invariant(&*self);
        }
        self.letter = true;
        self.must_letter = true;
        self
    }

    /// Forces the generator to produce strings containing digits.
    pub fn must_digit(&mut self) -> (builder: &mut Self)
        ensures
            builder@ == old(self)@.require(CharClass::Digit),
            builder.source() == old(self).source(),
            *final(self) == *final(builder),
    {
        proof {
            use_type_invariant(&*self);
        }
        self.digit = true;
        self.must_digit = true;
        self
    }

    /// Forces the generator to produce strings containing symbols.
    pub fn must_symbol(&mut self) -> (builder: &mut Self)
        ensures
            builder@ == old(self)@.require(CharClass::Symbol),
            builder.source() == old(self).source(),
            *final(self) == *final(builder),
    {
        proof {
            use_type_invariant(&*self);
        }
        self.symbol = true;
        self.must_symbol = true;
        self
    }

    /// Forces the generator to produce strings containing whitespace.
    pub fn must_whitespace(&mut self) -> (builder: &mut Self)
        ensures
            builder@ == old(self)@.require(CharClass::Whitespace),
            builder.source() == old(self).source(),
            *final(self) == *final(builder),
    {
        proof {
            use_type_invariant(&*self);
        }
        self.whitespace = true;
        self.must_whitespace = true;
        self
    }

    /// Forces the generator to produce strings containing a character of
    /// `custom`, which replaces any custom characters given before.
    pub fn must_custom(&mut self, custom: &str) -> (builder: &mut Self)
        ensures
            builder@ == old(self)@.require_custom(custom@),
            builder.source() == old(self).source(),
            *final(self) == *final(builder),
    {
        proof {
            use_type_invariant(&*self);
        }
        self.custom = Some(custom.to_owned());
        self.must_custom = true;
        self
    }

    /// Sets the random number generator to use.
    pub fn rng(&mut self, rng: ThreadRng) -> (builder: &mut Self)
        ensures
            builder@ == old(self)@,
            builder.source() == Some(rng),
            *final(self) == *final(builder),
    {
        proof {
            use_type_invariant(&*self);
        }
        self.rng = Some(rng);
        self
    }

    /// Sets the length of the generated strings.
    pub fn len(&mut self, len: usize) -> (builder: &mut Self)
        ensures
            builder@ == old(self)@.with_len(len as nat),
            builder.source() == old(self).source(),
            *final(self) == *final(builder),
    {
        proof {
            use_type_invariant(&*self);
        }
        self.len = len;
        self
    }

    /// Builds the generator. The configuration must be one that compiles.
    pub fn build(&self) -> (generator: RandStr)
        requires
            self@.compile() is Ok,
        ensures
            self@.compile() == Ok::<Compiled, Error>(generator@),
    {
        self.try_build().unwrap()
    }

    /// Builds the generator, or tells why the configuration does not compile:
    /// `NoAlphabet` where the enabled classes hold no byte at all, `TooShort`
    /// where there are more mandatory classes than the length has room for.
    pub fn try_build(&self) -> (built: Result<RandStr, Error>)
        ensures
            self@.wf(),
            match built {
                Ok(generator) => self@.compile() == Ok::<Compiled, Error>(generator@),
                Err(error) => self@.compile() == Err::<Compiled, Error>(error),
            },
    {
        proof {
            use_type_invariant(self);
        }
        let registry = AlphabetRegistry::new();
        let pool = self.collect_pool(&registry);
        if pool.len() == 0 {
            return Err(Error::NoAlphabet);
        }
        let alphabet = sort_dedup(&pool);
        let sets = self.collect_mandatory(&registry);
        if self.len < sets.len() {
            return Err(Error::TooShort);
        }
        let rng = match &self.rng {
            Some(rng) => rng.clone(),
            None => rand::thread_rng(),
        };
        proof {
            lemma_compiled_wf(self@);
        }
        Ok(RandStr::new(alphabet, sets, self.len, rng))
    }

    /// The bytes of all enabled classes, one class after the other.
    fn collect_pool(&self, registry: &AlphabetRegistry) -> (pool: Vec<u8>)
        ensures
            pool@ == self@.pool(),
    {
        let mut pool: Vec<u8> = Vec::new();
        add_class(&mut pool, self.upper, registry.table(CharClass::Upper));
        add_class(&mut pool, self.lower, registry.table(CharClass::Lower));
        add_class(&mut pool, self.letter, registry.table(CharClass::Letter));
        add_class(&mut pool, self.digit, registry.table(CharClass::Digit));
        add_class(&mut pool, self.symbol, registry.table(CharClass::Symbol));
        add_class(&mut pool, self.whitespace, registry.table(CharClass::Whitespace));
        match &self.custom {
            Some(chars) => {
                let mut bytes = chars.as_str().as_bytes_vec();
                pool.append(&mut bytes);
            },
            None => {},
        }
        assert(pool@ =~= self@.pool());
        pool
    }

    /// The byte sets of the mandatory classes, in the order in which a
    /// generator looks for them.
    fn collect_mandatory(&self, registry: &AlphabetRegistry) -> (sets: Vec<Vec<u8>>)
        ensures
            byte_sets(sets@) == self@.mandatory(),
    {
        proof {
            use_type_invariant(self);
        }
        let mut sets: Vec<Vec<u8>> = Vec::new();
        assert(byte_sets(sets@) =~= Seq::<Seq<u8>>::empty());
        add_mandatory(&mut sets, self.must_upper, registry.table(CharClass::Upper));
        add_mandatory(&mut sets, self.must_lower, registry.table(CharClass::Lower));
        add_mandatory(&mut sets, self.must_letter, registry.table(CharClass::Letter));
        add_mandatory(&mut sets, self.must_digit, registry.table(CharClass::Digit));
        add_mandatory(&mut sets, self.must_whitespace, registry.table(CharClass::Whitespace));
        add_mandatory(&mut sets, self.must_symbol, registry.table(CharClass::Symbol));
        if self.must_custom {
            let ghost before = sets@;
            let chars = self.custom.as_ref().expect("custom characters are set");
            sets.push(chars.as_str().as_bytes_vec());
            assert(byte_sets(sets@) =~= byte_sets(before) + entry(true, self@.custom_bytes()));
        }
        assert(byte_sets(sets@) =~= self@.mandatory());
        sets
    }
}

/// Creates a builder with nothing enabled and length 0.
pub fn randstr() -> (builder: RandStrBuilder)
    ensures
        builder@ == Config::empty(),
        builder.source() is None,
{
    RandStrBuilder::new()
}

/// An element of two sequences joined is an element of one of them.
pub proof fn lemma_joined_contains<T>(left: Seq<T>, right: Seq<T>, x: T)
    ensures
        (left + right).contains(x) <==> left.contains(x) || right.contains(x),
{
    let joined = left + right;
    if joined.contains(x) {
        let i = choose|i: int| 0 <= i < joined.len() && joined[i] == x;
        if i < left.len() {
            assert(left[i] == x);
        } else {
            assert(right[i - left.len()] == x);
        }
    }
    if left.contains(x) {
        let i = choose|i: int| 0 <= i < left.len() && left[i] == x;
        assert(joined[i] == x);
    }
    if right.contains(x) {
        let i = choose|i: int| 0 <= i < right.len() && right[i] == x;
        assert(joined[left.len() + i] == x);
    }
}

/// The pool holds the bytes of the enabled classes and no others.
pub proof fn lemma_pool_members(cfg: Config, b: u8)
    ensures
        cfg.pool().contains(b) <==> cfg.allows(b),
{
    let upper = part(cfg.upper, CharClass::Upper.table());
    let lower = part(cfg.lower, CharClass::Lower.table());
    let letter = part(cfg.letter, CharClass::Letter.table());
    let digit = part(cfg.digit, CharClass::Digit.table());
    let symbol = part(cfg.symbol, CharClass::Symbol.table());
    let whitespace = part(cfg.whitespace, CharClass::Whitespace.table());
    let custom = cfg.custom_bytes();
    lemma_table_members(CharClass::Upper);
    lemma_table_members(CharClass::Lower);
    lemma_table_members(CharClass::Letter);
    lemma_table_members(CharClass::Digit);
    lemma_table_members(CharClass::Symbol);
    lemma_table_members(CharClass::Whitespace);
    lemma_joined_contains(upper, lower, b);
    lemma_joined_contains(upper + lower, letter, b);
    lemma_joined_contains(upper + lower + letter, digit, b);
    lemma_joined_contains(upper + lower + letter + digit, symbol, b);
    lemma_joined_contains(upper + lower + letter + digit + symbol, whitespace, b);
    lemma_joined_contains(upper + lower + letter + digit + symbol + whitespace, custom, b);
}

/// Every mandatory set is the table of a class that is mandatory, or the
/// custom class where that is mandatory.
pub proof fn lemma_mandatory_sets(cfg: Config, j: int)
    requires
        0 <= j < cfg.mandatory().len(),
    ensures
        cfg.is_mandatory_set(cfg.mandatory()[j]),
{
    let upper = entry(cfg.must_upper, CharClass::Upper.table());
    let lower = entry(cfg.must_lower, CharClass::Lower.table());
    let letter = entry(cfg.must_letter, CharClass::Letter.table());
    let digit = entry(cfg.must_digit, CharClass::Digit.table());
    let whitespace = entry(cfg.must_whitespace, CharClass::Whitespace.table());
    let symbol = entry(cfg.must_symbol, CharClass::Symbol.table());
    let custom = entry(cfg.must_custom, cfg.custom_bytes());
    let set = cfg.mandatory()[j];
    lemma_joined_contains(upper, lower, set);
    lemma_joined_contains(upper + lower, letter, set);
    lemma_joined_contains(upper + lower + letter, digit, set);
    lemma_joined_contains(upper + lower + letter + digit, whitespace, set);
    lemma_joined_contains(upper + lower + letter + digit + whitespace, symbol, set);
    lemma_joined_contains(upper + lower + letter + digit + whitespace + symbol, custom, set);
    assert(cfg.mandatory().contains(set));
    assert forall|on: bool, bytes: Seq<u8>| #[trigger]
        entry(on, bytes).contains(set) implies on && bytes == set by {
        let i = choose|i: int| 0 <= i < entry(on, bytes).len() && entry(on, bytes)[i] == set;
        assert(entry(on, bytes)[i] == bytes);
    }
}

/// What a well-formed configuration compiles to is a well-formed generator.
pub proof fn lemma_compiled_wf(cfg: Config)
    requires
        cfg.wf(),
    ensures
        cfg.compile() matches Ok(compiled) ==> compiled.wf(),
{
    if let Ok(compiled) = cfg.compile() {
        lemma_distinct_sorted(cfg.pool());
        assert forall|j: int, k: int|
            0 <= j < compiled.mandatory.len() && 0 <= k < compiled.mandatory[j].len()
                implies compiled.alphabet.contains(#[trigger] compiled.mandatory[j][k]) by {
            let set = compiled.mandatory[j];
            let b = set[k];
            assert(set.contains(b));
            lemma_mandatory_sets(cfg, j);
            lemma_table_members(CharClass::Upper);
            lemma_table_members(CharClass::Lower);
            lemma_table_members(CharClass::Letter);
            lemma_table_members(CharClass::Digit);
            lemma_table_members(CharClass::Symbol);
            lemma_table_members(CharClass::Whitespace);
            lemma_pool_members(cfg, b);
        }
    }
}

} // verus!
