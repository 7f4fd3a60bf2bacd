//! The built-in character classes.
//!
//! Each class is a rule on the bytes below 127, and its table lists the bytes
//! that meet the rule.

use crate::sorting::{ascending_where, lemma_ascending_where, lemma_ascending_where_step};
use vstd::prelude::*;

verus! {

/// One of the six built-in classes of ASCII characters.
#[derive(Clone, Copy, Debug)]
pub enum CharClass {
    /// `A` to `Z`.
    Upper,
    /// `a` to `z`.
    Lower,
    /// The lowercase letters followed by the uppercase ones.
    Letter,
    /// `0` to `9`.
    Digit,
    /// Printable characters that are neither letters, digits nor whitespace.
    Symbol,
    /// Space, tab, line feed, form feed and carriage return.
    Whitespace,
}

/// The number of byte values that the class rules look at: 0 to 126.
pub const ASCII_SPAN: u8 = 127;

/// `A` to `Z`.
pub open spec fn is_upper(b: u8) -> bool {
    0x41 <= b <= 0x5a
}

/// `a` to `z`.
pub open spec fn is_lower(b: u8) -> bool {
    0x61 <= b <= 0x7a
}

/// `0` to `9`.
pub open spec fn is_digit(b: u8) -> bool {
    0x30 <= b <= 0x39
}

/// Space, tab, line feed, form feed or carriage return.
pub open spec fn is_whitespace(b: u8) -> bool {
    b == 0x20 || b == 0x09 || b == 0x0a || b == 0x0c || b == 0x0d
}

/// Below the space, or the delete character.
pub open spec fn is_control(b: u8) -> bool {
    b < 0x20 || b == 0x7f
}

/// Printable, and neither alphanumeric nor whitespace.
pub open spec fn is_symbol(b: u8) -> bool {
    b < ASCII_SPAN && !is_control(b) && !is_upper(b) && !is_lower(b) && !is_digit(b)
        && !is_whitespace(b)
}

impl CharClass {
    /// Whether byte `b` belongs to the class.
    pub open spec fn admits(self, b: u8) -> bool {
        match self {
            CharClass::Upper => is_upper(b),
            CharClass::Lower => is_lower(b),
            CharClass::Letter => is_lower(b) || is_upper(b),
            CharClass::Digit => is_digit(b),
            CharClass::Symbol => is_symbol(b),
            CharClass::Whitespace => is_whitespace(b),
        }
    }

    /// The members of the class in ascending order.
    pub open spec fn ascending(self) -> Seq<u8> {
        ascending_where(ASCII_SPAN as int, |b: u8| self.admits(b))
    }

    /// The table of the class. Every class lists its members in ascending
    /// order, except `Letter`, which lists the lowercase letters first.
    pub open spec fn table(self) -> Seq<u8> {
        match self {
            CharClass::Letter => CharClass::Lower.ascending() + CharClass::Upper.ascending(),
            _ => self.ascending(),
        }
    }

    /// Tells whether `b` belongs to the class.
    pub fn contains(&self, b: u8) -> (found: bool)
        ensures
            found == self.admits(b),
    {
        match self {
            CharClass::Upper => 0x41 <= b && b <= 0x5a,
            CharClass::Lower => 0x61 <= b && b <= 0x7a,
            CharClass::Letter => (0x61 <= b && b <= 0x7a) || (0x41 <= b && b <= 0x5a),
            CharClass::Digit => 0x30 <= b && b <= 0x39,
            CharClass::Symbol => (0x21 <= b && b <= 0x2f) || (0x3a <= b && b <= 0x40) || (0x5b <= b
                && b <= 0x60) || (0x7b <= b && b <= 0x7e),
            CharClass::Whitespace => b == 0x20 || b == 0x09 || b == 0x0a || b == 0x0c || b == 0x0d,
        }
    }

    /// Collects the members of the class in ascending order.
    fn collect(&self) -> (found: Vec<u8>)
        ensures
            found@ == self.ascending(),
    {
        let ghost keep = |x: u8| self.admits(x);
        let mut found: Vec<u8> = Vec::new();
        let mut b: u8 = 0;
        proof {
            lemma_ascending_where(0, keep);
            assert(ascending_where(0, keep) =~= Seq::<u8>::empty());
        }
        while b < ASCII_SPAN
            invariant
                b <= ASCII_SPAN,
                keep == (|x: u8| self.admits(x)),
                found@ == ascending_where(b as int, keep),
            decreases ASCII_SPAN - b,
        {
            proof {
                lemma_ascending_where_step(b as int, keep);
            }
            if self.contains(b) {
                found.push(b);
            }
            b = b + 1;
        }
        found
    }

    /// The table of the class, drawn up afresh.
    pub fn bytes(&self) -> (table: Vec<u8>)
        ensures
            table@ == self.table(),
    {
        match self {
            CharClass::Letter => {
                let mut table = CharClass::Lower.collect();
                let mut upper = CharClass::Upper.collect();
                table.append(&mut upper);
                table
            },
            _ => self.collect(),
        }
    }
}

/// The tables of the six classes, drawn up once and only read from then on.
pub struct AlphabetRegistry {
    upper: Vec<u8>,
    lower: Vec<u8>,
    letter: Vec<u8>,
    digit: Vec<u8>,
    symbol: Vec<u8>,
    whitespace: Vec<u8>,
}

impl AlphabetRegistry {
    /// What the registry lists for `class`.
    pub closed spec fn lists(self, class: CharClass) -> Seq<u8> {
        match class {
            CharClass::Upper => self.upper@,
            CharClass::Lower => self.lower@,
            CharClass::Letter => self.letter@,
            CharClass::Digit => self.digit@,
            CharClass::Symbol => self.symbol@,
            CharClass::Whitespace => self.whitespace@,
        }
    }

    /// The registry lists the table of every class.
    pub open spec fn complete(self) -> bool {
        forall|class: CharClass| #[trigger] self.lists(class) == class.table()
    }

    #[verifier::type_invariant]
    spec fn inv(self) -> bool {
        self.complete()
    }

    /// Draws up the tables of all classes.
    pub fn new() -> (registry: Self)
        ensures
            registry.complete(),
    {
        let lower = CharClass::Lower.collect();
        let upper = CharClass::Upper.collect();
        let mut letter = lower.clone();
        let mut upper_again = upper.clone();
        letter.append(&mut upper_again);
        let registry = AlphabetRegistry {
            upper,
            lower,
            letter,
            digit: CharClass::Digit.collect(),
            symbol: CharClass::Symbol.collect(),
            whitespace: CharClass::Whitespace.collect(),
        };
        assert forall|class: CharClass| #[trigger] registry.lists(class) == class.table() by {
            assert(registry.lists(class) =~= class.table());
        }
        registry
    }

    /// The table of `class`.
    pub fn table(&self, class: CharClass) -> (table: &Vec<u8>)
        ensures
            table@ == class.table(),
    {
        proof {
            use_type_invariant(self);
            assert(self.lists(class) == class.table());
        }
        match class {
            CharClass::Upper => &self.upper,
            CharClass::Lower => &self.lower,
            CharClass::Letter => &self.letter,
            CharClass::Digit => &self.digit,
            CharClass::Symbol => &self.symbol,
            CharClass::Whitespace => &self.whitespace,
        }
    }
}

/// The table of a class holds the bytes that the class admits and no others,
/// it is not empty, and all of it lies below `ASCII_SPAN`.
pub proof fn lemma_table_members(class: CharClass)
    ensures
        forall|b: u8| #[trigger] class.table().contains(b) <==> class.admits(b),
        forall|i: int| 0 <= i < class.table().len() ==> #[trigger] class.table()[i] < ASCII_SPAN,
        class.table().len() > 0,
{
    let table = class.table();
    match class {
        CharClass::Letter => {
            let lower = CharClass::Lower.ascending();
            let upper = CharClass::Upper.ascending();
            lemma_ascending_where(ASCII_SPAN as int, |b: u8| CharClass::Lower.admits(b));
            lemma_ascending_where(ASCII_SPAN as int, |b: u8| CharClass::Upper.admits(b));
            assert forall|b: u8| #[trigger] table.contains(b) <==> class.admits(b) by {
                if table.contains(b) {
                    let i = choose|i: int| 0 <= i < table.len() && table[i] == b;
                    if i < lower.len() {
                        assert(lower.contains(lower[i]));
                    } else {
                        assert(upper.contains(upper[i - lower.len()]));
                    }
                }
                if is_lower(b) {
                    assert(lower.contains(b));
                    let i = choose|i: int| 0 <= i < lower.len() && lower[i] == b;
                    assert(table[i] == b);
                }
                if is_upper(b) {
                    assert(upper.contains(b));
                    let i = choose|i: int| 0 <= i < upper.len() && upper[i] == b;
                    assert(table[lower.len() + i] == b);
                }
            }
        },
        _ => {
            lemma_ascending_where(ASCII_SPAN as int, |b: u8| class.admits(b));
        },
    }
    assert forall|i: int| 0 <= i < table.len() implies #[trigger] table[i] < ASCII_SPAN by {
        assert(table.contains(table[i]));
    }
    let sample: u8 = match class {
        CharClass::Upper => 0x41,
        CharClass::Lower => 0x61,
        CharClass::Letter => 0x61,
        CharClass::Digit => 0x30,
        CharClass::Symbol => 0x21,
        CharClass::Whitespace => 0x20,
    };
    assert(table.contains(sample));
}

} // verus!
