//! Chords and their canonical form.
//!
//! A chord is written as tokens joined by `+`: any number of modifiers, then
//! the main key. Two chords that differ only in the order of their modifiers
//! are the same chord; the canonical form lists the modifiers in
//! lexicographic order.

use crate::text::{
    from_chars, join_chars, join_with, lemma_lex_total, lex_order, sort_parts, split_chars,
    split_on, to_chars, views,
};
use vstd::prelude::*;
use vstd::relations::*;

verus! {

/// The character that joins the tokens of a chord.
pub open spec fn chord_separator() -> char {
    '+'
}

/// The modifiers of a chord: every token but the last.
pub open spec fn modifiers_of(chord: Seq<char>) -> Seq<Seq<char>> {
    split_on(chord, chord_separator()).drop_last()
}

/// The main key of a chord: its last token.
pub open spec fn main_key_of(chord: Seq<char>) -> Seq<char> {
    split_on(chord, chord_separator()).last()
}

/// The chord made of `modifiers`, in the order given, and `main`.
pub open spec fn chord_text(modifiers: Seq<Seq<char>>, main: Seq<char>) -> Seq<char> {
    join_with(modifiers.push(main), chord_separator())
}

/// The canonical form of a chord: its modifiers sorted, then its main key.
pub open spec fn canonical(chord: Seq<char>) -> Seq<char> {
    chord_text(modifiers_of(chord).sort_by(lex_order()), main_key_of(chord))
}

/// Whether a chord is written in canonical form.
pub open spec fn is_canonical(chord: Seq<char>) -> bool {
    canonical(chord) == chord
}

/// Rewrites a chord in canonical form.
pub fn normalize_keybind(keybind: &str) -> (r: String)
    ensures
        r@ == canonical(keybind@),
{
    let chars = to_chars(keybind);
    let mut parts = split_chars(&chars, '+');
    let ghost all = views(parts@);
    let main = parts.pop().unwrap();
    proof {
        assert(views(parts@) =~= all.drop_last());
    }
    let mut sorted = sort_parts(parts);
    proof {
        assert(views(sorted@.push(main)) =~= views(sorted@).push(main@));
    }
    sorted.push(main);
    let joined = join_chars(&sorted, '+');
    from_chars(&joined)
}

/// Holds when no token of `parts` contains the separator.
pub open spec fn free_of(parts: Seq<Seq<char>>, sep: char) -> bool {
    forall|i: int| 0 <= i < parts.len() ==> !(#[trigger] parts[i]).contains(sep)
}

/// The pieces that splitting yields never contain the separator.
pub proof fn lemma_split_free(s: Seq<char>, sep: char)
    ensures
        free_of(split_on(s, sep), sep),
        split_on(s, sep).len() >= 1,
    decreases s.len(),
{
    if s.len() > 0 {
        lemma_split_free(s.drop_last(), sep);
        let before = split_on(s.drop_last(), sep);
        let now = split_on(s, sep);
        assert forall|i: int| 0 <= i < now.len() implies !(#[trigger] now[i]).contains(sep) by {
            if i < before.len() - 1 {
                assert(now[i] == before[i]);
            } else if s.last() == sep {
                if i == before.len() - 1 {
                    assert(now[i] == before[i]);
                }
            } else {
                let grown = before.last().push(s.last());
                assert(now[i] == grown);
                if grown.contains(sep) {
                    let k = choose|k: int| 0 <= k < grown.len() && grown[k] == sep;
                    assert(before.last()[k] == sep);
                    assert(before.last().contains(sep));
                }
            }
        }
    }
}

/// Splitting undoes appending text that holds no separator.
pub proof fn lemma_split_append(s: Seq<char>, tail: Seq<char>, sep: char)
    requires
        !tail.contains(sep),
    ensures
        split_on(s + tail, sep) == split_on(s, sep).drop_last().push(split_on(s, sep).last() + tail),
    decreases tail.len(),
{
    lemma_split_free(s, sep);
    let parts = split_on(s, sep);
    if tail.len() == 0 {
        assert(s + tail =~= s);
        assert(parts.last() + tail =~= parts.last());
        assert(parts.drop_last().push(parts.last()) =~= parts);
    } else {
        let shorter = tail.drop_last();
        assert(!shorter.contains(sep)) by {
            if shorter.contains(sep) {
                let k = choose|k: int| 0 <= k < shorter.len() && shorter[k] == sep;
                assert(tail[k] == sep);
            }
        }
        lemma_split_append(s, shorter, sep);
        assert((s + tail).drop_last() =~= s + shorter);
        assert((s + tail).last() == tail.last());
        assert(tail.last() != sep) by {
            assert(tail[tail.len() - 1] == tail.last());
        }
        let mid = parts.drop_last().push(parts.last() + shorter);
        assert(mid.drop_last() =~= parts.drop_last());
        assert((parts.last() + shorter).push(tail.last()) =~= parts.last() + tail);
    }
}

/// Splitting undoes joining, as long as no token holds the separator.
pub proof fn lemma_split_join(parts: Seq<Seq<char>>, sep: char)
    requires
        parts.len() >= 1,
        free_of(parts, sep),
    ensures
        split_on(join_with(parts, sep), sep) == parts,
    decreases parts.len(),
{
    if parts.len() == 1 {
        let only = parts[0];
        lemma_split_append(Seq::<char>::empty(), only, sep);
        assert(Seq::<char>::empty() + only =~= only);
        assert(split_on(Seq::<char>::empty(), sep) =~= seq![Seq::<char>::empty()]);
        assert(seq![Seq::<char>::empty()].drop_last().push(Seq::<char>::empty() + only) =~= parts);
    } else {
        let init = parts.drop_last();
        assert(free_of(init, sep)) by {
            assert forall|i: int| 0 <= i < init.len() implies !(#[trigger] init[i]).contains(
                sep,
            ) by {
                assert(init[i] == parts[i]);
            }
        }
        lemma_split_join(init, sep);
        let head = join_with(init, sep).push(sep);
        assert(head.drop_last() =~= join_with(init, sep));
        assert(split_on(head, sep) == init.push(Seq::<char>::empty()));
        lemma_split_append(head, parts.last(), sep);
        assert(init.push(Seq::<char>::empty()).drop_last() =~= init);
        assert(Seq::<char>::empty() + parts.last() =~= parts.last());
        assert(init.push(parts.last()) =~= parts);
    }
}

/// Splitting two texts joined by a separator gives the pieces of the first,
/// then the pieces of the second.
pub proof fn lemma_split_concat(s: Seq<char>, t: Seq<char>, sep: char)
    ensures
        split_on(s.push(sep) + t, sep) == split_on(s, sep) + split_on(t, sep),
    decreases t.len(),
{
    let a = split_on(s, sep);
    lemma_split_free(s, sep);
    if t.len() == 0 {
        assert(s.push(sep) + t =~= s.push(sep));
        assert(s.push(sep).drop_last() =~= s);
        assert(a.push(Seq::<char>::empty()) =~= a + split_on(t, sep));
    } else {
        let whole = s.push(sep) + t;
        let b = split_on(t.drop_last(), sep);
        lemma_split_concat(s, t.drop_last(), sep);
        lemma_split_free(t.drop_last(), sep);
        assert(whole.drop_last() =~= s.push(sep) + t.drop_last());
        assert(whole.last() == t.last());
        if t.last() == sep {
            assert((a + b).push(Seq::<char>::empty()) =~= a + b.push(Seq::<char>::empty()));
        } else {
            let grown = b.last().push(t.last());
            assert((a + b).last() == b.last());
            assert((a + b).drop_last() =~= a + b.drop_last());
            assert((a + b.drop_last()).push(grown) =~= a + b.drop_last().push(grown));
        }
    }
}

/// A chord put together from modifiers without `+` comes apart into those
/// modifiers, then the pieces of its main key.
pub proof fn lemma_chord_text_split(modifiers: Seq<Seq<char>>, main: Seq<char>)
    requires
        free_of(modifiers, chord_separator()),
    ensures
        split_on(chord_text(modifiers, main), chord_separator()) == modifiers + split_on(
            main,
            chord_separator(),
        ),
{
    let sep = chord_separator();
    let parts = modifiers.push(main);
    if modifiers.len() == 0 {
        assert(modifiers + split_on(main, sep) =~= split_on(main, sep));
    } else {
        assert(parts.drop_last() =~= modifiers);
        lemma_split_join(modifiers, sep);
        lemma_split_concat(join_with(modifiers, sep), main, sep);
    }
}

/// A chord put together from tokens without `+` comes apart into the same
/// tokens.
pub proof fn lemma_chord_text_parts(modifiers: Seq<Seq<char>>, main: Seq<char>)
    requires
        free_of(modifiers, chord_separator()),
        !main.contains(chord_separator()),
    ensures
        modifiers_of(chord_text(modifiers, main)) == modifiers,
        main_key_of(chord_text(modifiers, main)) == main,
{
    let parts = modifiers.push(main);
    assert(free_of(parts, chord_separator())) by {
        assert forall|i: int| 0 <= i < parts.len() implies !(#[trigger] parts[i]).contains(
            chord_separator(),
        ) by {
            if i < modifiers.len() {
                assert(parts[i] == modifiers[i]);
            }
        }
    }
    lemma_split_join(parts, chord_separator());
    assert(parts.drop_last() =~= modifiers);
}

/// The canonical form does not depend on the order in which the modifiers
/// are written: chords with the same main key and the same modifiers, each as
/// often, have one canonical form.
pub proof fn lemma_canonical_ignores_modifier_order(a: Seq<char>, b: Seq<char>)
    requires
        main_key_of(a) == main_key_of(b),
        modifiers_of(a).to_multiset() == modifiers_of(b).to_multiset(),
    ensures
        canonical(a) == canonical(b),
{
    lemma_lex_total();
    let x = modifiers_of(a);
    let y = modifiers_of(b);
    x.lemma_sort_by_ensures(lex_order());
    y.lemma_sort_by_ensures(lex_order());
    vstd::seq_lib::lemma_sorted_unique(x.sort_by(lex_order()), y.sort_by(lex_order()), lex_order());
}

/// Swapping two neighbouring modifiers of a chord leaves its canonical form
/// as it was.
pub proof fn lemma_canonical_commutes(first: Seq<char>, second: Seq<char>, main: Seq<char>)
    requires
        !first.contains(chord_separator()),
        !second.contains(chord_separator()),
        !main.contains(chord_separator()),
    ensures
        canonical(chord_text(seq![first, second], main)) == canonical(
            chord_text(seq![second, first], main),
        ),
{
    broadcast use vstd::seq_lib::group_to_multiset_ensures;

    let x = seq![first, second];
    let y = seq![second, first];
    lemma_chord_text_parts(x, main);
    lemma_chord_text_parts(y, main);
    assert(x =~= Seq::<Seq<char>>::empty().push(first).push(second));
    assert(y =~= Seq::<Seq<char>>::empty().push(second).push(first));
    assert(x.to_multiset() =~= y.to_multiset());
    lemma_canonical_ignores_modifier_order(chord_text(x, main), chord_text(y, main));
}

/// The canonical form of a chord is itself canonical.
pub proof fn lemma_canonical_idempotent(chord: Seq<char>)
    ensures
        is_canonical(canonical(chord)),
{
    lemma_lex_total();
    lemma_split_free(chord, chord_separator());
    let parts = split_on(chord, chord_separator());
    let mods = modifiers_of(chord);
    let sorted = mods.sort_by(lex_order());
    mods.lemma_sort_by_ensures(lex_order());
    assert(free_of(sorted, chord_separator())) by {
        assert forall|i: int| 0 <= i < sorted.len() implies !(#[trigger] sorted[i]).contains(
            chord_separator(),
        ) by {
            assert(sorted.contains(sorted[i]));
            assert(mods.contains(sorted[i]));
            let k = choose|k: int| 0 <= k < mods.len() && mods[k] == sorted[i];
            assert(parts[k] == mods[k]);
        }
    }
    assert(!main_key_of(chord).contains(chord_separator())) by {
        assert(parts[parts.len() - 1] == parts.last());
    }
    lemma_chord_text_parts(sorted, main_key_of(chord));
    sorted.lemma_sort_by_ensures(lex_order());
    vstd::seq_lib::lemma_sorted_unique(sorted.sort_by(lex_order()), sorted, lex_order());
}

} // verus!
