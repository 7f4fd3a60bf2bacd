//! The compiled generator.

use crate::laws::lemma_nested_mandatory_classes_met;
use crate::random::{choose_byte, shuffle_bytes};
use crate::sampling::{keep_last, last_n, lemma_reordered, meets, meets_any, topped_up, within};
use crate::sorting::strictly_ascending;
use crate::text::{all_ascii, as_bytes, as_text, lemma_ascii_is_text, string_from_utf8};
use rand::rngs::ThreadRng;
use vstd::prelude::*;
use vstd::utf8::is_ascii_chars;

verus! {

/// What a generator was compiled to.
pub struct Compiled {
    /// The bytes to draw from, in ascending order without repeats.
    pub alphabet: Seq<u8>,
    /// The byte sets of the mandatory classes, in the order in which they
    /// are looked for.
    pub mandatory: Seq<Seq<u8>>,
    /// The number of bytes in every output.
    pub length: nat,
}

impl Compiled {
    /// What compiling establishes: there is something to draw from, the
    /// output has room for one byte of each mandatory class, and the
    /// mandatory classes are part of the alphabet.
    pub open spec fn wf(self) -> bool {
        &&& self.alphabet.len() > 0
        &&& strictly_ascending(self.alphabet)
        &&& self.mandatory.len() <= self.length
        &&& forall|j: int, k: int|
            0 <= j < self.mandatory.len() && 0 <= k < self.mandatory[j].len()
                ==> self.alphabet.contains(#[trigger] self.mandatory[j][k])
    }

    /// Whether strings can be drawn: every mandatory class has a byte to
    /// offer, and, unless the strings are empty, the alphabet is all ASCII,
    /// so that any bytes drawn from it are text.
    pub open spec fn drawable(self) -> bool {
        &&& self.length > 0 ==> all_ascii(self.alphabet)
        &&& forall|j: int|
            0 <= j < self.mandatory.len() ==> (#[trigger] self.mandatory[j]).len() > 0
    }

    /// Whether the mandatory classes lie inside one another: of any two, one
    /// holds every byte of the other. A single class does, and so do the
    /// uppercase letters together with the letters.
    pub open spec fn nested(self) -> bool {
        forall|i: int, j: int|
            0 <= i < self.mandatory.len() && 0 <= j < self.mandatory.len() ==> within(
                #[trigger] self.mandatory[i],
                #[trigger] self.mandatory[j],
            ) || within(self.mandatory[j], self.mandatory[i])
    }

    /// Whether `free` and `picks` can be what the random source gives in one
    /// run: `free` holds the bytes drawn from the alphabet, one for each
    /// position, and `picks` one byte of each mandatory set.
    pub open spec fn admits_draws(self, free: Seq<u8>, picks: Seq<u8>) -> bool {
        &&& free.len() == self.length
        &&& forall|i: int| 0 <= i < free.len() ==> self.alphabet.contains(#[trigger] free[i])
        &&& picks.len() == self.mandatory.len()
        &&& forall|j: int|
            0 <= j < picks.len() ==> (#[trigger] self.mandatory[j]).contains(picks[j])
    }

    /// The buffer that a run with these draws ends with, before it is
    /// shuffled: the free draws, topped up for each mandatory set that they
    /// miss, and cut back to the last `length` bytes.
    pub open spec fn settled(self, free: Seq<u8>, picks: Seq<u8>) -> Seq<u8> {
        last_n(topped_up(free, self.mandatory, picks), self.length)
    }

    /// The free draws that are left after the cut: one is cut off at the
    /// front for every byte that was added.
    pub open spec fn surviving(self, free: Seq<u8>, picks: Seq<u8>) -> Seq<u8> {
        free.skip(topped_up(free, self.mandatory, picks).len() - self.length)
    }

    /// Whether a run can end with the bytes `out`: some draws settle to the
    /// same bytes, in some order.
    pub open spec fn may_yield(self, out: Seq<u8>) -> bool {
        exists|free: Seq<u8>, picks: Seq<u8>|
            #![trigger self.settled(free, picks)]
            self.admits_draws(free, picks) && out.to_multiset() == self.settled(
                free,
                picks,
            ).to_multiset()
    }
}

/// The byte sets that the vectors hold.
pub open spec fn byte_sets(sets: Seq<Vec<u8>>) -> Seq<Seq<u8>> {
    Seq::new(sets.len(), |j: int| sets[j]@)
}

/// The compiled parts of a generator. No call changes them.
struct Plan {
    alphabet: Vec<u8>,
    must_alphabets: Vec<Vec<u8>>,
    len: usize,
}

impl View for Plan {
    type V = Compiled;

    closed spec fn view(&self) -> Compiled {
        Compiled {
            alphabet: self.alphabet@,
            mandatory: byte_sets(self.must_alphabets@),
            length: self.len as nat,
        }
    }
}

impl Plan {
    #[verifier::type_invariant]
    spec fn inv(self) -> bool {
        self@.wf()
    }
}

/// The generator of random strings.
pub struct RandStr {
    plan: Plan,
    rng: ThreadRng,
}

impl View for RandStr {
    type V = Compiled;

    closed spec fn view(&self) -> Compiled {
        self.plan@
    }
}

impl RandStr {
    /// Puts a generator together from its compiled parts.
    pub(crate) fn new(
        alphabet: Vec<u8>,
        must_alphabets: Vec<Vec<u8>>,
        len: usize,
        rng: ThreadRng,
    ) -> (generator: RandStr)
        requires
            (Compiled {
                alphabet: alphabet@,
                mandatory: byte_sets(must_alphabets@),
                length: len as nat,
            }).wf(),
        ensures
            generator@ == (Compiled {
                alphabet: alphabet@,
                mandatory: byte_sets(must_alphabets@),
                length: len as nat,
            }),
    {
        RandStr { plan: Plan { alphabet, must_alphabets, len }, rng }
    }

    /// The bytes that the strings are drawn from.
    pub fn alphabet(&self) -> (alphabet: Vec<u8>)
        ensures
            alphabet@ == self@.alphabet,
    {
        self.plan.alphabet.clone()
    }

    /// The byte sets of the mandatory classes, in the order in which they are
    /// looked for.
    pub fn mandatory(&self) -> (sets: Vec<Vec<u8>>)
        ensures
            byte_sets(sets@) == self@.mandatory,
    {
        let mut sets: Vec<Vec<u8>> = Vec::new();
        let mut j: usize = 0;
        while j < self.plan.must_alphabets.len()
            invariant
                j <= self.plan.must_alphabets@.len(),
                sets@.len() == j,
                forall|m: int| 0 <= m < j ==> sets@[m]@ == self.plan.must_alphabets@[m]@,
            decreases self.plan.must_alphabets@.len() - j,
        {
            sets.push(self.plan.must_alphabets[j].clone());
            j = j + 1;
        }
        assert(byte_sets(sets@) =~= self@.mandatory);
        sets
    }

    /// The number of characters in every string.
    pub fn length(&self) -> (length: usize)
        ensures
            length == self@.length,
    {
        self.plan.len
    }

    /// Tells whether strings can be drawn from this generator.
    pub fn is_drawable(&self) -> (drawable: bool)
        ensures
            drawable == self@.drawable(),
    {
        proof {
            use_type_invariant(&self.plan);
        }
        let mut j: usize = 0;
        while j < self.plan.must_alphabets.len()
            invariant
                j <= self.plan.must_alphabets@.len(),
                forall|m: int| 0 <= m < j ==> (#[trigger] self@.mandatory[m]).len() > 0,
            decreases self.plan.must_alphabets@.len() - j,
        {
            if self.plan.must_alphabets[j].len() == 0 {
                assert(self@.mandatory[j as int].len() == 0);
                return false;
            }
            j = j + 1;
        }
        if self.plan.len == 0 {
            return true;
        }
        // The alphabet is in ascending order: its last byte is the largest.
        let top = self.plan.alphabet[self.plan.alphabet.len() - 1];
        if top < 128 {
            assert(all_ascii(self@.alphabet));
            true
        } else {
            false
        }
    }

    /// Generates a new random string.
    ///
    /// `length` bytes are drawn from the alphabet. Then each mandatory set
    /// that has no byte among those in the buffer adds one of its own to the
    /// end. If any did, the buffer is cut back to its last `length` bytes and
    /// shuffled.
    ///
    /// The string has the generator's length and is made of bytes of the
    /// alphabet. It holds a byte of every mandatory class where those classes
    /// lie inside one another, as a single class does. Where they do not, the
    /// cut may take away the only byte of a class that the first draws had
    /// covered.
    pub fn generate(&mut self) -> (text: String)
        requires
            old(self)@.drawable(),
        ensures
            final(self)@ == old(self)@,
            old(self)@.wf(),
            text@.len() == old(self)@.length,
            forall|i: int|
                0 <= i < text@.len() ==> old(self)@.alphabet.contains(
                    #[trigger] as_bytes(text@)[i],
                ),
            is_ascii_chars(text@),
            text@ == as_text(as_bytes(text@)),
            old(self)@.may_yield(as_bytes(text@)),
            old(self)@.nested() ==> forall|j: int|
                0 <= j < old(self)@.mandatory.len() ==> meets(
                    as_bytes(text@),
                    #[trigger] old(self)@.mandatory[j],
                ),
    {
        proof {
            use_type_invariant(&self.plan);
        }
        let ghost compiled = self@;
        let mut result: Vec<u8> = Vec::new();
        let mut i: usize = 0;
        while i < self.plan.len
            invariant
                self@ == compiled,
                compiled.wf(),
                i <= self.plan.len,
                result@.len() == i,
                forall|n: int| 0 <= n < i ==> compiled.alphabet.contains(#[trigger] result@[n]),
            decreases self.plan.len - i,
        {
            let byte = choose_byte(&self.plan.alphabet, &mut self.rng).unwrap();
            result.push(byte);
            i = i + 1;
        }
        let ghost free = result@;
        let ghost mut picks: Seq<u8> = Seq::empty();
        let mut rearrange = false;
        let mut j: usize = 0;
        while j < self.plan.must_alphabets.len()
            invariant
                self@ == compiled,
                compiled.wf(),
                compiled.drawable(),
                j <= compiled.mandatory.len(),
                compiled.mandatory.len() == self.plan.must_alphabets@.len(),
                free.len() == compiled.length,
                picks.len() == j,
                forall|m: int| 0 <= m < j ==> (#[trigger] compiled.mandatory[m]).contains(picks[m]),
                result@ == topped_up(free, compiled.mandatory.take(j as int), picks),
                rearrange <==> result@.len() > free.len(),
                free.len() <= result@.len() <= free.len() + j,
                forall|n: int|
                    0 <= n < result@.len() ==> compiled.alphabet.contains(#[trigger] result@[n]),
            decreases self.plan.must_alphabets@.len() - j,
        {
            let ghost earlier = picks;
            let ghost sets = compiled.mandatory.take(j + 1);
            proof {
                assert(sets.drop_last() =~= compiled.mandatory.take(j as int));
                assert(sets.last() == compiled.mandatory[j as int]);
                assert(self.plan.must_alphabets@[j as int]@ == compiled.mandatory[j as int]);
            }
            if !meets_any(&result, &self.plan.must_alphabets[j]) {
                rearrange = true;
                let byte = choose_byte(&self.plan.must_alphabets[j], &mut self.rng).unwrap();
                result.push(byte);
                proof {
                    picks = picks.push(byte);
                }
            } else {
                proof {
                    picks = picks.push(compiled.mandatory[j as int][0]);
                }
            }
            proof {
                assert(picks.drop_last() =~= earlier);
            }
            j = j + 1;
        }
        proof {
            assert(compiled.mandatory.take(j as int) =~= compiled.mandatory);
            assert(compiled.admits_draws(free, picks));
        }
        if rearrange {
            result = keep_last(result, self.plan.len);
            let ghost kept = result@;
            shuffle_bytes(&mut result, &mut self.rng);
            proof {
                lemma_reordered(kept, result@);
                assert(kept == compiled.settled(free, picks));
                assert forall|n: int| 0 <= n < result@.len() implies compiled.alphabet.contains(
                    #[trigger] result@[n],
                ) by {
                    assert(result@.contains(result@[n]));
                    let m = choose|m: int| 0 <= m < kept.len() && kept[m] == result@[n];
                    assert(compiled.alphabet.contains(kept[m]));
                }
            }
        }
        proof {
            assert(result@.to_multiset() == compiled.settled(free, picks).to_multiset());
            assert(all_ascii(result@)) by {
                assert forall|n: int| 0 <= n < result@.len() implies #[trigger] result@[n]
                    < 128 by {
                    assert(compiled.alphabet.contains(result@[n]));
                }
            }
            lemma_ascii_is_text(result@);
        }
        let ghost bytes = result@;
        let text = string_from_utf8(result).unwrap();
        proof {
            // The string and the plain reading of the bytes have the same
            // bytes, so they are the same characters.
            vstd::utf8::encode_utf8_decode_utf8(text@);
            vstd::utf8::decode_utf8_encode_utf8(bytes);
            assert(text@ == as_text(bytes));
            if compiled.nested() {
                lemma_nested_mandatory_classes_met(compiled, bytes);
            }
        }
        text
    }
}

} // verus!
