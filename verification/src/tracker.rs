//! The keys that are held down, and the chord that they spell.

use crate::chord::{
    canonical, chord_separator, chord_text, free_of, lemma_canonical_ignores_modifier_order,
    lemma_chord_text_split, lemma_split_free,
};
use crate::keys::{is_modifier, lemma_modifier_labels, token_label, token_name, KeyToken};
use crate::text::{
    from_chars, join_chars, lemma_lex_transitive, lex_le, lex_order, split_on, to_chars, views,
};
use vstd::prelude::*;
use vstd::relations::sorted_by;

verus! {

/// `held` with every occurrence of `token` taken out.
pub open spec fn without(held: Seq<KeyToken>, token: KeyToken) -> Seq<KeyToken>
    decreases held.len(),
{
    if held.len() == 0 {
        held
    } else if held.last() == token {
        without(held.drop_last(), token)
    } else {
        without(held.drop_last(), token).push(held.last())
    }
}

/// The held keys after `token` went down: it is now the most recent one.
pub open spec fn after_press(held: Seq<KeyToken>, token: KeyToken) -> Seq<KeyToken> {
    without(held, token).push(token)
}

/// The held keys after `token` went up.
pub open spec fn after_release(held: Seq<KeyToken>, token: KeyToken) -> Seq<KeyToken> {
    without(held, token)
}

/// The label of `token` if it is held, and nothing otherwise.
pub open spec fn label_if_held(held: Seq<KeyToken>, token: KeyToken) -> Seq<Seq<char>> {
    if held.contains(token) {
        seq![token_label(token)]
    } else {
        Seq::<Seq<char>>::empty()
    }
}

/// The labels of the held modifiers, in alphabetical order.
pub open spec fn held_modifiers(held: Seq<KeyToken>) -> Seq<Seq<char>> {
    label_if_held(held, KeyToken::Alt) + label_if_held(held, KeyToken::Ctrl) + label_if_held(
        held,
        KeyToken::Meta,
    ) + label_if_held(held, KeyToken::Shift)
}

/// The main key among the held ones: the most recently pressed key that is
/// not a modifier.
pub open spec fn main_token(held: Seq<KeyToken>) -> Option<KeyToken>
    decreases held.len(),
{
    if held.len() == 0 {
        None
    } else if !is_modifier(held.last()) {
        Some(held.last())
    } else {
        main_token(held.drop_last())
    }
}

/// The chord that the held keys spell: the held modifiers and the main key.
/// Modifiers alone spell nothing.
pub open spec fn candidate_chord(held: Seq<KeyToken>) -> Option<Seq<char>> {
    match main_token(held) {
        Some(main) => Some(chord_text(held_modifiers(held), token_name(main))),
        None => None,
    }
}

/// Taking a token out leaves the others, in their order, and no trace of it.
pub proof fn lemma_without(held: Seq<KeyToken>, token: KeyToken)
    ensures
        !without(held, token).contains(token),
        forall|t: KeyToken| t != token ==> (without(held, token).contains(t) <==> held.contains(t)),
        held.no_duplicates() ==> without(held, token).no_duplicates(),
        without(held, token).len() <= held.len(),
    decreases held.len(),
{
    let out = without(held, token);
    if held.len() > 0 {
        let init = held.drop_last();
        let rest = without(init, token);
        lemma_without(init, token);
        assert(held =~= init.push(held.last()));
        assert forall|t: KeyToken| t != token implies (out.contains(t) <==> held.contains(t)) by {
            assert(rest.contains(t) <==> init.contains(t));
            if out.contains(t) {
                let k = choose|k: int| 0 <= k < out.len() && out[k] == t;
                if k < rest.len() {
                    assert(rest[k] == t);
                    assert(rest.contains(t));
                    assert(init.contains(t));
                    let j = choose|j: int| 0 <= j < init.len() && init[j] == t;
                    assert(held[j] == t);
                } else {
                    assert(held[held.len() - 1] == t);
                }
            }
            if held.contains(t) {
                let j = choose|j: int| 0 <= j < held.len() && held[j] == t;
                if j < init.len() {
                    assert(init[j] == t);
                    assert(init.contains(t));
                    assert(rest.contains(t));
                    let k = choose|k: int| 0 <= k < rest.len() && rest[k] == t;
                    assert(out[k] == t);
                } else {
                    assert(out[out.len() - 1] == t);
                }
            }
        }
        if out.contains(token) {
            let k = choose|k: int| 0 <= k < out.len() && out[k] == token;
            if k < rest.len() {
                assert(rest.contains(token));
            }
        }
        if held.no_duplicates() {
            assert(init.no_duplicates());
            if held.last() != token {
                assert(!rest.contains(held.last())) by {
                    if init.contains(held.last()) {
                        let j = choose|j: int| 0 <= j < init.len() && init[j] == held.last();
                        assert(held[j] == held[held.len() - 1]);
                    }
                }
                assert forall|a: int, b: int| 0 <= a < out.len() && 0 <= b < out.len() && a
                    != b implies out[a] != out[b] by {
                    if a < rest.len() && b < rest.len() {
                    } else if a < rest.len() {
                        assert(rest.contains(rest[a]));
                    } else {
                        assert(rest.contains(rest[b]));
                    }
                }
            }
        }
    }
}

/// As sets, a key going down adds its token and a key going up removes it.
pub proof fn lemma_held_set(held: Seq<KeyToken>, token: KeyToken)
    ensures
        after_press(held, token).to_set() == held.to_set().insert(token),
        after_release(held, token).to_set() == held.to_set().remove(token),
        held.no_duplicates() ==> after_press(held, token).no_duplicates(),
        held.no_duplicates() ==> after_release(held, token).no_duplicates(),
{
    lemma_without(held, token);
    let rest = without(held, token);
    let down = after_press(held, token);
    assert forall|t: KeyToken| down.to_set().contains(t) <==> held.to_set().insert(
        token,
    ).contains(t) by {
        if down.contains(t) {
            let k = choose|k: int| 0 <= k < down.len() && down[k] == t;
            if k < rest.len() {
                assert(rest.contains(t));
            }
        }
        if t == token {
            assert(down[down.len() - 1] == t);
        } else if held.contains(t) {
            let k = choose|k: int| 0 <= k < rest.len() && rest[k] == t;
            assert(down[k] == t);
        }
    }
    assert(down.to_set() =~= held.to_set().insert(token));
    assert(rest.to_set() =~= held.to_set().remove(token));
    if held.no_duplicates() {
        assert forall|a: int, b: int| 0 <= a < down.len() && 0 <= b < down.len() && a
            != b implies down[a] != down[b] by {
            if a < rest.len() && b < rest.len() {
            } else if a < rest.len() {
                assert(rest.contains(rest[a]));
            } else {
                assert(rest.contains(rest[b]));
            }
        }
    }
}

/// Modifiers alone spell no chord.
pub proof fn lemma_modifiers_alone(held: Seq<KeyToken>)
    requires
        forall|i: int| 0 <= i < held.len() ==> is_modifier(#[trigger] held[i]),
    ensures
        candidate_chord(held) is None,
    decreases held.len(),
{
    if held.len() > 0 {
        lemma_modifiers_alone(held.drop_last());
    }
}

/// The main key is a held key that is no modifier, and no key pressed after
/// it is anything but a modifier.
pub proof fn lemma_main_token(held: Seq<KeyToken>)
    ensures
        match main_token(held) {
            Some(main) => exists|i: int|
                0 <= i < held.len() && held[i] == main && !is_modifier(main) && forall|j: int|
                    i < j < held.len() ==> is_modifier(#[trigger] held[j]),
            None => forall|i: int| 0 <= i < held.len() ==> is_modifier(#[trigger] held[i]),
        },
    decreases held.len(),
{
    if held.len() > 0 {
        let init = held.drop_last();
        lemma_main_token(init);
        if !is_modifier(held.last()) {
            assert(held[held.len() - 1] == held.last());
        } else {
            match main_token(init) {
                Some(main) => {
                    let i = choose|i: int|
                        0 <= i < init.len() && init[i] == main && !is_modifier(main) && forall|
                            j: int,
                        |
                            i < j < init.len() ==> is_modifier(#[trigger] init[j]);
                    assert(held[i] == main);
                    assert forall|j: int| i < j < held.len() implies is_modifier(
                        #[trigger] held[j],
                    ) by {
                        if j < init.len() {
                            assert(held[j] == init[j]);
                        }
                    }
                },
                None => {
                    assert forall|i: int| 0 <= i < held.len() implies is_modifier(
                        #[trigger] held[i],
                    ) by {
                        if i < init.len() {
                            assert(held[i] == init[i]);
                        }
                    }
                },
            }
        }
    }
}

/// The labels of the held modifiers hold no chord separator and stand in
/// lexicographic order.
pub proof fn lemma_held_modifiers(held: Seq<KeyToken>)
    ensures
        free_of(held_modifiers(held), chord_separator()),
        sorted_by(held_modifiers(held), lex_order()),
{
    lemma_modifier_labels();
    let alt = token_label(KeyToken::Alt);
    let ctrl = token_label(KeyToken::Ctrl);
    let meta = token_label(KeyToken::Meta);
    let shift = token_label(KeyToken::Shift);
    lemma_lex_transitive(alt, ctrl, meta);
    lemma_lex_transitive(alt, meta, shift);
    lemma_lex_transitive(ctrl, meta, shift);
    let all = seq![alt, ctrl, meta, shift];
    let mods = held_modifiers(held);
    let a = label_if_held(held, KeyToken::Alt).len() as int;
    let c = label_if_held(held, KeyToken::Ctrl).len() as int;
    let s = label_if_held(held, KeyToken::Meta).len() as int;
    // The place among the four labels of the one that stands at `i`.
    let slot = |i: int|
        if i < a {
            0int
        } else if i < a + c {
            1int
        } else if i < a + c + s {
            2int
        } else {
            3int
        };
    assert forall|i: int| 0 <= i < mods.len() implies #[trigger] mods[i] == all[slot(i)] by {}
    assert forall|i: int| 0 <= i < mods.len() implies !(#[trigger] mods[i]).contains(
        chord_separator(),
    ) by {
        assert(mods[i] == all[slot(i)]);
    }
    assert forall|x: int, y: int| 0 <= x < y < 4 implies lex_le(all[x], all[y]) by {}
    assert forall|i: int, j: int| 0 <= i < j < mods.len() implies #[trigger] lex_order()(
        mods[i],
        mods[j],
    ) by {
        assert(mods[i] == all[slot(i)]);
        assert(mods[j] == all[slot(j)]);
        assert(slot(i) < slot(j));
        assert(lex_le(all[slot(i)], all[slot(j)]));
    }
}

/// A chord written with the labels of the held modifiers, in whatever
/// order, and the name of the main key has the canonical form of the chord
/// that the held keys spell.
pub proof fn lemma_any_order_spells_candidate(held: Seq<KeyToken>, written: Seq<Seq<char>>)
    requires
        main_token(held) is Some,
        written.to_multiset() == held_modifiers(held).to_multiset(),
    ensures
        canonical(chord_text(written, token_name(main_token(held).unwrap()))) == canonical(
            candidate_chord(held).unwrap(),
        ),
{
    broadcast use vstd::seq_lib::group_to_multiset_ensures;

    let sep = chord_separator();
    let mods = held_modifiers(held);
    let name = token_name(main_token(held).unwrap());
    let tail = split_on(name, sep);
    lemma_held_modifiers(held);
    lemma_split_free(name, sep);
    assert forall|i: int| 0 <= i < written.len() implies !(#[trigger] written[i]).contains(
        sep,
    ) by {
        assert(written.contains(written[i]));
        assert(mods.to_multiset().count(written[i]) > 0);
        assert(mods.contains(written[i]));
        let k = choose|k: int| 0 <= k < mods.len() && mods[k] == written[i];
        assert(!mods[k].contains(sep));
    }
    lemma_chord_text_split(written, name);
    lemma_chord_text_split(mods, name);
    assert((written + tail).drop_last() =~= written + tail.drop_last());
    assert((mods + tail).drop_last() =~= mods + tail.drop_last());
    assert((written + tail).last() == tail.last());
    assert((mods + tail).last() == tail.last());
    vstd::seq_lib::lemma_multiset_commutative(written, tail.drop_last());
    vstd::seq_lib::lemma_multiset_commutative(mods, tail.drop_last());
    lemma_canonical_ignores_modifier_order(
        chord_text(written, name),
        chord_text(mods, name),
    );
}

/// The keys that are held down, oldest press first. No token is held twice.
pub struct PressedKeys {
    held: Vec<KeyToken>,
}

impl View for PressedKeys {
    type V = Seq<KeyToken>;

    closed spec fn view(&self) -> Seq<KeyToken> {
        self.held@
    }
}

impl PressedKeys {
    /// The invariant: no token is held twice.
    pub open spec fn wf(&self) -> bool {
        self@.no_duplicates()
    }

    /// No key held.
    pub fn new() -> (r: Self)
        ensures
            r@ == Seq::<KeyToken>::empty(),
            r.wf(),
    {
        PressedKeys { held: Vec::new() }
    }

    /// Whether `token` is held.
    pub fn contains(&self, token: KeyToken) -> (r: bool)
        ensures
            r == self@.contains(token),
    {
        let mut i: usize = 0;
        while i < self.held.len()
            invariant
                i <= self.held@.len(),
                forall|k: int| 0 <= k < i ==> self.held@[k] != token,
            decreases self.held@.len() - i,
        {
            if self.held[i] == token {
                return true;
            }
            i += 1;
        }
        false
    }

    /// How many keys are held.
    pub fn len(&self) -> (r: usize)
        ensures
            r == self@.len(),
    {
        self.held.len()
    }

    /// Takes `token` out of the held keys.
    fn drop_token(&mut self, token: KeyToken)
        ensures
            final(self)@ == without(old(self)@, token),
    {
        let mut kept: Vec<KeyToken> = Vec::new();
        let mut i: usize = 0;
        while i < self.held.len()
            invariant
                i <= self.held@.len(),
                kept@ == without(self.held@.take(i as int), token),
            decreases self.held@.len() - i,
        {
            proof {
                let t = self.held@.take(i + 1);
                assert(t.drop_last() =~= self.held@.take(i as int));
            }
            if self.held[i] != token {
                kept.push(self.held[i]);
            }
            i += 1;
        }
        proof {
            assert(self.held@.take(i as int) =~= self.held@);
        }
        self.held = kept;
    }

    /// Records that the key of `token` went down.
    pub fn press(&mut self, token: KeyToken)
        requires
            old(self).wf(),
        ensures
            final(self).wf(),
            final(self)@ == after_press(old(self)@, token),
    {
        proof {
            lemma_held_set(self@, token);
        }
        self.drop_token(token);
        self.held.push(token);
    }

    /// Records that the key of `token` went up.
    pub fn release(&mut self, token: KeyToken)
        requires
            old(self).wf(),
        ensures
            final(self).wf(),
            final(self)@ == after_release(old(self)@, token),
    {
        proof {
            lemma_held_set(self@, token);
        }
        self.drop_token(token);
    }

    /// The main key among the held ones.
    pub fn main_key(&self) -> (r: Option<KeyToken>)
        ensures
            r == main_token(self@),
    {
        let mut i: usize = self.held.len();
        proof {
            assert(self.held@.take(i as int) =~= self.held@);
        }
        while i > 0
            invariant
                i <= self.held@.len(),
                main_token(self@) == main_token(self.held@.take(i as int)),
            decreases i,
        {
            proof {
                let t = self.held@.take(i as int);
                assert(t.drop_last() =~= self.held@.take(i - 1));
                assert(t.last() == self.held@[i - 1]);
            }
            if !self.held[i - 1].is_modifier() {
                return Some(self.held[i - 1]);
            }
            i -= 1;
        }
        None
    }

    /// Adds the label of `token` to `parts` where the token is held.
    fn push_label(&self, parts: &mut Vec<Vec<char>>, token: KeyToken)
        ensures
            views(final(parts)@) == views(old(parts)@) + label_if_held(self@, token),
    {
        if self.contains(token) {
            let label = to_chars(token.label());
            proof {
                assert(views(parts@.push(label)) =~= views(parts@) + label_if_held(self@, token));
            }
            parts.push(label);
        } else {
            proof {
                assert(views(parts@) =~= views(parts@) + label_if_held(self@, token));
            }
        }
    }

    /// The chord that the held keys spell, if they spell one.
    pub fn candidate(&self) -> (r: Option<String>)
        ensures
            r.is_some() == candidate_chord(self@).is_some(),
            r.is_some() ==> r.unwrap()@ == candidate_chord(self@).unwrap(),
    {
        match self.main_key() {
            Some(main) => {
                let mut parts: Vec<Vec<char>> = Vec::new();
                proof {
                    assert(views(parts@) =~= Seq::<Seq<char>>::empty());
                }
                self.push_label(&mut parts, KeyToken::Alt);
                self.push_label(&mut parts, KeyToken::Ctrl);
                self.push_label(&mut parts, KeyToken::Meta);
                self.push_label(&mut parts, KeyToken::Shift);
                let name = to_chars(main.name());
                proof {
                    assert(views(parts@) =~= held_modifiers(self@));
                    assert(views(parts@.push(name)) =~= views(parts@).push(name@));
                }
                parts.push(name);
                let joined = join_chars(&parts, '+');
                Some(from_chars(&joined))
            },
            None => None,
        }
    }
}

} // verus!
