//! What holds of every configuration and of every string that a generator
//! can give.

use crate::alphabet::{lemma_table_members, CharClass};
use crate::builder::{lemma_compiled_wf, lemma_pool_members, Config};
use crate::error::Error;
use crate::generator::Compiled;
use crate::sampling::{
    lemma_first_added, lemma_reordered, lemma_topped_up, meets, topped_up, within,
};
use crate::sorting::lemma_distinct_sorted;
use crate::text::all_ascii;
use vstd::prelude::*;
use vstd::utf8::is_ascii_chars;

verus! {

/// Every string that a generator can give has exactly the generator's length.
pub proof fn lemma_outcome_length(generator: Compiled, out: Seq<u8>)
    requires
        generator.wf(),
        generator.may_yield(out),
    ensures
        out.len() == generator.length,
{
    let (free, picks) = choose|free: Seq<u8>, picks: Seq<u8>|
        #![trigger generator.settled(free, picks)]
        generator.admits_draws(free, picks) && out.to_multiset() == generator.settled(
            free,
            picks,
        ).to_multiset();
    lemma_topped_up(free, generator.mandatory, picks);
    lemma_reordered(generator.settled(free, picks), out);
}

/// Every byte of a string that a generator can give is a byte of the
/// generator's alphabet.
pub proof fn lemma_outcome_in_alphabet(generator: Compiled, out: Seq<u8>)
    requires
        generator.wf(),
        generator.may_yield(out),
    ensures
        forall|i: int| 0 <= i < out.len() ==> generator.alphabet.contains(#[trigger] out[i]),
{
    let (free, picks) = choose|free: Seq<u8>, picks: Seq<u8>|
        #![trigger generator.settled(free, picks)]
        generator.admits_draws(free, picks) && out.to_multiset() == generator.settled(
            free,
            picks,
        ).to_multiset();
    let topped = topped_up(free, generator.mandatory, picks);
    let settled = generator.settled(free, picks);
    lemma_topped_up(free, generator.mandatory, picks);
    lemma_reordered(settled, out);
    assert forall|i: int| 0 <= i < topped.len() implies generator.alphabet.contains(
        #[trigger] topped[i],
    ) by {
        if i < free.len() {
            assert(topped[i] == free[i]);
        } else {
            assert(picks.contains(topped[i]));
            let j = choose|j: int| 0 <= j < picks.len() && picks[j] == topped[i];
            assert(generator.mandatory[j].contains(picks[j]));
            let k = choose|k: int|
                0 <= k < generator.mandatory[j].len() && generator.mandatory[j][k] == picks[j];
            assert(generator.alphabet.contains(generator.mandatory[j][k]));
        }
    }
    assert forall|i: int| 0 <= i < out.len() implies generator.alphabet.contains(
        #[trigger] out[i],
    ) by {
        assert(out.contains(out[i]));
        let m = choose|m: int| 0 <= m < settled.len() && settled[m] == out[i];
        if topped.len() > generator.length {
            assert(settled[m] == topped[m + topped.len() - generator.length]);
        }
    }
}

/// Where the mandatory classes of a generator lie inside one another, every
/// string that it can give holds a byte of each of them.
///
/// For classes that do not, this need not hold: a class that the free draws
/// covered may lose its only byte when the front of the buffer is cut to make
/// room for the byte of another class.
pub proof fn lemma_nested_mandatory_classes_met(generator: Compiled, out: Seq<u8>)
    requires
        generator.wf(),
        generator.may_yield(out),
        generator.nested(),
    ensures
        forall|j: int|
            0 <= j < generator.mandatory.len() ==> meets(out, #[trigger] generator.mandatory[j]),
{
    let (free, picks) = choose|free: Seq<u8>, picks: Seq<u8>|
        #![trigger generator.settled(free, picks)]
        generator.admits_draws(free, picks) && out.to_multiset() == generator.settled(
            free,
            picks,
        ).to_multiset();
    let sets = generator.mandatory;
    let topped = topped_up(free, sets, picks);
    let settled = generator.settled(free, picks);
    let cut = topped.len() - generator.length;
    lemma_topped_up(free, sets, picks);
    lemma_reordered(settled, out);
    assert forall|j: int| 0 <= j < sets.len() implies meets(out, #[trigger] sets[j]) by {
        assert(meets(topped, sets[j]));
        let k = choose|k: int| 0 <= k < sets[j].len() && topped.contains(#[trigger] sets[j][k]);
        let p = choose|p: int| 0 <= p < topped.len() && topped[p] == sets[j][k];
        if cut <= 0 {
            assert(settled == topped);
            assert(out.contains(sets[j][k]));
        } else if p >= cut {
            assert(settled[p - cut] == sets[j][k]);
            assert(out.contains(sets[j][k]));
        } else {
            // The byte found is cut off. The first byte added stays, and it
            // belongs to a set that the free draws did not meet.
            lemma_first_added(free, sets, picks);
            let t = choose|t: int|
                0 <= t < sets.len() && !meets(free, #[trigger] sets[t]) && topped[free.len() as int]
                    == picks[t];
            assert(free[p] == sets[j][k]);
            assert(free.contains(sets[j][k]));
            if within(sets[j], sets[t]) {
                assert(sets[t].contains(sets[j][k]));
                let m = choose|m: int| 0 <= m < sets[t].len() && sets[t][m] == sets[j][k];
                assert(free.contains(sets[t][m]));
                assert(meets(free, sets[t]));
            } else {
                assert(within(sets[t], sets[j]));
                assert(sets[t].contains(picks[t]));
                let m = choose|m: int| 0 <= m < sets[t].len() && sets[t][m] == picks[t];
                assert(sets[j].contains(sets[t][m]));
                let n = choose|n: int| 0 <= n < sets[j].len() && sets[j][n] == picks[t];
                assert(settled[free.len() - cut] == sets[j][n]);
                assert(settled.contains(sets[j][n]));
                assert(out.contains(sets[j][n]));
            }
        }
    }
}

/// Where a generator has a single mandatory class, every string that it can
/// give holds a byte of that class.
pub proof fn lemma_lone_mandatory_class_met(generator: Compiled, out: Seq<u8>)
    requires
        generator.wf(),
        generator.may_yield(out),
        generator.mandatory.len() <= 1,
    ensures
        forall|j: int|
            0 <= j < generator.mandatory.len() ==> meets(out, #[trigger] generator.mandatory[j]),
{
    lemma_within_itself(generator.mandatory);
    lemma_nested_mandatory_classes_met(generator, out);
}

/// Every set lies inside itself.
proof fn lemma_within_itself(sets: Seq<Seq<u8>>)
    ensures
        forall|j: int| 0 <= j < sets.len() ==> within(#[trigger] sets[j], sets[j]),
{
    assert forall|j: int| 0 <= j < sets.len() implies within(#[trigger] sets[j], sets[j]) by {
        assert forall|k: int| 0 <= k < sets[j].len() implies sets[j].contains(
            #[trigger] sets[j][k],
        ) by {}
    }
}

/// Whatever the classes are, a run ends with a byte of a mandatory class
/// unless the free draws met that class only in the part that is cut off: a
/// class that the free draws miss altogether is met by a byte that was added,
/// and added bytes stay.
pub proof fn lemma_class_met_unless_cut_off(
    generator: Compiled,
    free: Seq<u8>,
    picks: Seq<u8>,
    j: int,
)
    requires
        generator.wf(),
        generator.admits_draws(free, picks),
        0 <= j < generator.mandatory.len(),
        meets(free, generator.mandatory[j]) ==> meets(
            generator.surviving(free, picks),
            generator.mandatory[j],
        ),
    ensures
        meets(generator.settled(free, picks), generator.mandatory[j]),
{
    let set = generator.mandatory[j];
    let topped = topped_up(free, generator.mandatory, picks);
    let settled = generator.settled(free, picks);
    let cut = topped.len() - generator.length;
    let kept = generator.surviving(free, picks);
    lemma_topped_up(free, generator.mandatory, picks);
    if meets(free, set) {
        let k = choose|k: int| 0 <= k < set.len() && kept.contains(#[trigger] set[k]);
        let p = choose|p: int| 0 <= p < kept.len() && kept[p] == set[k];
        assert(settled[p] == set[k]);
    } else {
        assert(meets(topped, set));
        let k = choose|k: int| 0 <= k < set.len() && topped.contains(#[trigger] set[k]);
        let p = choose|p: int| 0 <= p < topped.len() && topped[p] == set[k];
        if p < free.len() {
            assert(free[p] == set[k]);
            assert(free.contains(set[k]));
        }
        if cut > 0 {
            assert(settled[p - cut] == set[k]);
        }
    }
}

/// Where the free draws meet every mandatory class, nothing is added and
/// nothing is cut: the buffer settles to the free draws themselves, which
/// meet every class.
pub proof fn lemma_covered_draws_stay(generator: Compiled, free: Seq<u8>, picks: Seq<u8>)
    requires
        generator.admits_draws(free, picks),
        forall|j: int|
            0 <= j < generator.mandatory.len() ==> meets(free, #[trigger] generator.mandatory[j]),
    ensures
        generator.settled(free, picks) == free,
{
    lemma_covered_needs_no_byte(free, generator.mandatory, picks);
}

/// Topping up leaves a buffer as it is where the buffer meets every set.
proof fn lemma_covered_needs_no_byte(buffer: Seq<u8>, sets: Seq<Seq<u8>>, picks: Seq<u8>)
    requires
        forall|j: int| 0 <= j < sets.len() ==> meets(buffer, #[trigger] sets[j]),
    ensures
        topped_up(buffer, sets, picks) == buffer,
    decreases sets.len(),
{
    if sets.len() > 0 {
        assert forall|j: int| 0 <= j < sets.drop_last().len() implies meets(
            buffer,
            #[trigger] sets.drop_last()[j],
        ) by {
            assert(meets(buffer, sets[j]));
        }
        lemma_covered_needs_no_byte(buffer, sets.drop_last(), picks.drop_last());
        assert(meets(buffer, sets[sets.len() - 1]));
    }
}

/// Every byte of a string that a compiled configuration can give belongs to
/// one of the enabled classes.
pub proof fn lemma_outcome_allowed(cfg: Config, out: Seq<u8>)
    requires
        cfg.wf(),
        cfg.compile() is Ok,
        cfg.compile()->Ok_0.may_yield(out),
    ensures
        forall|i: int| 0 <= i < out.len() ==> cfg.allows(#[trigger] out[i]),
{
    let generator = cfg.compile()->Ok_0;
    lemma_compiled_wf(cfg);
    lemma_outcome_in_alphabet(generator, out);
    lemma_distinct_sorted(cfg.pool());
    assert forall|i: int| 0 <= i < out.len() implies cfg.allows(#[trigger] out[i]) by {
        assert(generator.alphabet.contains(out[i]));
        lemma_pool_members(cfg, out[i]);
    }
}

/// Where a single built-in class is enabled and nothing else, every byte of
/// every string that the generator can give belongs to that class.
pub proof fn lemma_single_class_only(cfg: Config, class: CharClass, out: Seq<u8>)
    requires
        cfg.wf(),
        forall|other: CharClass| cfg.enabled(other) <==> other == class,
        cfg.custom is None,
        cfg.compile() is Ok,
        cfg.compile()->Ok_0.may_yield(out),
    ensures
        forall|i: int| 0 <= i < out.len() ==> class.admits(#[trigger] out[i]),
        forall|i: int| 0 <= i < out.len() ==> class.table().contains(#[trigger] out[i]),
{
    lemma_outcome_allowed(cfg, out);
    lemma_table_members(class);
    assert(cfg.enabled(CharClass::Upper) <==> CharClass::Upper == class);
    assert(cfg.enabled(CharClass::Lower) <==> CharClass::Lower == class);
    assert(cfg.enabled(CharClass::Letter) <==> CharClass::Letter == class);
    assert(cfg.enabled(CharClass::Digit) <==> CharClass::Digit == class);
    assert(cfg.enabled(CharClass::Symbol) <==> CharClass::Symbol == class);
    assert(cfg.enabled(CharClass::Whitespace) <==> CharClass::Whitespace == class);
    assert forall|i: int| 0 <= i < out.len() implies class.admits(#[trigger] out[i]) by {
        assert(cfg.allows(out[i]));
    }
}

/// Where only the custom class is enabled, every byte of every string that
/// the generator can give is a byte of the custom characters.
pub proof fn lemma_custom_class_only(cfg: Config, out: Seq<u8>)
    requires
        cfg.wf(),
        forall|other: CharClass| !cfg.enabled(other),
        cfg.compile() is Ok,
        cfg.compile()->Ok_0.may_yield(out),
    ensures
        forall|i: int| 0 <= i < out.len() ==> cfg.custom_bytes().contains(#[trigger] out[i]),
{
    lemma_outcome_allowed(cfg, out);
    assert(!cfg.enabled(CharClass::Upper));
    assert(!cfg.enabled(CharClass::Lower));
    assert(!cfg.enabled(CharClass::Letter));
    assert(!cfg.enabled(CharClass::Digit));
    assert(!cfg.enabled(CharClass::Symbol));
    assert(!cfg.enabled(CharClass::Whitespace));
    assert forall|i: int| 0 <= i < out.len() implies cfg.custom_bytes().contains(
        #[trigger] out[i],
    ) by {
        assert(cfg.allows(out[i]));
    }
}

/// A configuration with no class enabled and no custom characters does not
/// compile: there is no alphabet.
pub proof fn lemma_nothing_enabled(cfg: Config)
    requires
        forall|class: CharClass| !cfg.enabled(class),
        cfg.custom is None,
    ensures
        cfg.compile() == Err::<Compiled, Error>(Error::NoAlphabet),
{
    assert(!cfg.enabled(CharClass::Upper));
    assert(!cfg.enabled(CharClass::Lower));
    assert(!cfg.enabled(CharClass::Letter));
    assert(!cfg.enabled(CharClass::Digit));
    assert(!cfg.enabled(CharClass::Symbol));
    assert(!cfg.enabled(CharClass::Whitespace));
    assert(cfg.pool() =~= Seq::<u8>::empty());
}

/// A configuration whose length is smaller than the number of its mandatory
/// classes does not compile: it is too short. This is said of configurations
/// with an alphabet; one without fails for want of an alphabet first.
pub proof fn lemma_too_short(cfg: Config)
    requires
        cfg.pool().len() > 0,
        cfg.len < cfg.mandatory().len(),
    ensures
        cfg.compile() == Err::<Compiled, Error>(Error::TooShort),
{
}

/// A configuration with a built-in class enabled has an alphabet.
pub proof fn lemma_class_gives_alphabet(cfg: Config, class: CharClass)
    requires
        cfg.enabled(class),
    ensures
        cfg.pool().len() > 0,
{
    lemma_table_members(class);
}

/// Enabling a class twice is enabling it once.
pub proof fn lemma_enable_idempotent(cfg: Config, class: CharClass)
    ensures
        cfg.enable(class).enable(class) == cfg.enable(class),
        cfg.enable_all().enable_all() == cfg.enable_all(),
{
}

/// Making a class mandatory twice is making it mandatory once.
pub proof fn lemma_require_idempotent(cfg: Config, class: CharClass)
    ensures
        cfg.require(class).require(class) == cfg.require(class),
{
}

/// Giving the same custom characters, or the same length, twice is giving
/// them once.
pub proof fn lemma_custom_and_len_idempotent(cfg: Config, chars: Seq<char>, len: nat)
    ensures
        cfg.with_custom(chars).with_custom(chars) == cfg.with_custom(chars),
        cfg.require_custom(chars).require_custom(chars) == cfg.require_custom(chars),
        cfg.with_len(len).with_len(len) == cfg.with_len(len),
{
}

/// Every setting keeps a configuration well-formed.
pub proof fn lemma_settings_keep_wf(cfg: Config, class: CharClass, chars: Seq<char>, len: nat)
    requires
        cfg.wf(),
    ensures
        Config::empty().wf(),
        cfg.enable(class).wf(),
        cfg.require(class).wf(),
        cfg.enable_all().wf(),
        cfg.with_custom(chars).wf(),
        cfg.require_custom(chars).wf(),
        cfg.with_len(len).wf(),
{
}

/// Strings can be drawn from what a configuration compiles to where its
/// custom characters, if it has any, are ASCII, and are not empty if they
/// are mandatory.
pub proof fn lemma_plain_custom_is_drawable(cfg: Config)
    requires
        cfg.wf(),
        cfg.compile() is Ok,
        cfg.custom matches Some(chars) ==> is_ascii_chars(chars),
        cfg.must_custom ==> cfg.custom_bytes().len() > 0,
    ensures
        cfg.compile()->Ok_0.drawable(),
{
    let generator = cfg.compile()->Ok_0;
    lemma_distinct_sorted(cfg.pool());
    assert(all_ascii(generator.alphabet)) by {
        assert forall|i: int| 0 <= i < generator.alphabet.len() implies #[trigger]
            generator.alphabet[i] < 128 by {
            let b = generator.alphabet[i];
            assert(generator.alphabet.contains(b));
            lemma_pool_members(cfg, b);
            if cfg.custom_bytes().contains(b) {
                let chars = cfg.custom->Some_0;
                vstd::utf8::is_ascii_chars_encode_utf8(chars);
                let k = choose|k: int|
                    0 <= k < cfg.custom_bytes().len() && cfg.custom_bytes()[k] == b;
                assert(chars[k] as u8 == b);
            }
        }
    }
    assert forall|j: int| 0 <= j < generator.mandatory.len() implies (
    #[trigger] generator.mandatory[j]).len() > 0 by {
        crate::builder::lemma_mandatory_sets(cfg, j);
        lemma_table_members(CharClass::Upper);
        lemma_table_members(CharClass::Lower);
        lemma_table_members(CharClass::Letter);
        lemma_table_members(CharClass::Digit);
        lemma_table_members(CharClass::Symbol);
        lemma_table_members(CharClass::Whitespace);
    }
}

} // verus!
