//! The engine: one object that owns the registry and the held keys, built
//! once and shared by the key listener and by whoever registers bindings.

use crate::chord::{canonical, chord_text, is_canonical};
use crate::keys::{token_name, token_of, Key, KeyToken};
use crate::registry::{
    after_register, conflicts, Action, ActionView, KeybindRegistry, RegistryError,
};
use crate::tracker::{
    after_press, after_release, candidate_chord, held_modifiers, lemma_any_order_spells_candidate,
    main_token, PressedKeys,
};
use vstd::prelude::*;

verus! {

/// What a key going down triggers: the action bound to the chord that the
/// held keys then spell, if they spell one and it is bound. The chord is
/// looked up under its canonical form, as it was stored.
pub open spec fn triggered(
    bound: Map<Seq<char>, ActionView>,
    held: Seq<KeyToken>,
) -> Option<ActionView> {
    match candidate_chord(held) {
        Some(chord) => if bound.contains_key(canonical(chord)) {
            Some(bound[canonical(chord)])
        } else {
            None
        },
        None => None,
    }
}

/// The registry, the held keys and the last tracked key that went down.
pub struct Engine {
    registry: KeybindRegistry,
    pressed: PressedKeys,
    last_key: Option<KeyToken>,
}

impl Engine {
    /// The bindings, from canonical chord to action.
    pub closed spec fn bindings(&self) -> Map<Seq<char>, ActionView> {
        self.registry@
    }

    /// The registered chords as `list_bindings` hands them out.
    pub closed spec fn chords(&self) -> Seq<Seq<char>> {
        self.registry.chords()
    }

    /// The held keys, oldest press first.
    pub closed spec fn held(&self) -> Seq<KeyToken> {
        self.pressed@
    }

    /// The last tracked key that went down.
    pub closed spec fn last_key(&self) -> Option<KeyToken> {
        self.last_key
    }

    /// The invariant of the engine: that of its registry and of its held keys.
    pub closed spec fn wf(&self) -> bool {
        &&& self.registry.wf()
        &&& self.pressed.wf()
    }

    /// What the invariant means for the bindings: the listed chords are
    /// exactly the bound ones, none is listed twice, each is canonical, and
    /// no action is bound to two chords. No token is held twice.
    pub proof fn lemma_wf(&self)
        requires
            self.wf(),
        ensures
            self.chords().no_duplicates(),
            forall|c: Seq<char>| self.chords().contains(c) <==> self.bindings().contains_key(c),
            forall|c: Seq<char>| self.bindings().contains_key(c) ==> is_canonical(c),
            forall|c: Seq<char>, d: Seq<char>|
                self.bindings().contains_key(c) && self.bindings().contains_key(d)
                    && self.bindings()[c] == self.bindings()[d] ==> c == d,
            self.held().no_duplicates(),
    {
        self.registry.lemma_wf();
    }

    /// An engine with no binding and no key held.
    pub fn new() -> (r: Self)
        ensures
            r.wf(),
            r.bindings() == Map::<Seq<char>, ActionView>::empty(),
            r.chords() == Seq::<Seq<char>>::empty(),
            r.held() == Seq::<KeyToken>::empty(),
            r.last_key() is None,
    {
        Engine { registry: KeybindRegistry::new(), pressed: PressedKeys::new(), last_key: None }
    }

    /// Binds `chord` to `action`, as `KeybindRegistry::register` does.
    pub fn register_binding(&mut self, chord: &str, action: Action) -> (r: Result<
        (),
        RegistryError,
    >)
        requires
            old(self).wf(),
        ensures
            final(self).wf(),
            final(self).bindings() == after_register(
                old(self).bindings(),
                canonical(chord@),
                action@,
            ),
            r == if conflicts(old(self).bindings(), canonical(chord@), action@) {
                Err::<(), RegistryError>(RegistryError::DuplicateBinding)
            } else {
                Ok::<(), RegistryError>(())
            },
            final(self).held() == old(self).held(),
            final(self).last_key() == old(self).last_key(),
    {
        self.registry.register(chord, action)
    }

    /// Releases `chord`.
    pub fn unregister_binding(&mut self, chord: &str)
        requires
            old(self).wf(),
        ensures
            final(self).wf(),
            final(self).bindings() == old(self).bindings().remove(canonical(chord@)),
            final(self).held() == old(self).held(),
            final(self).last_key() == old(self).last_key(),
    {
        self.registry.unregister(chord)
    }

    /// The registered chords, in canonical form.
    pub fn list_bindings(&self) -> (r: Vec<String>)
        ensures
            r@.map_values(|s: String| s@) == self.chords(),
    {
        self.registry.list()
    }

    /// Handles a key going down. A key without a token is ignored. Any other
    /// becomes the most recently held key, and the action bound to the
    /// chord that the held keys then spell is returned for the caller to
    /// carry out.
    pub fn on_key_down(&mut self, key: Key) -> (r: Option<Action>)
        requires
            old(self).wf(),
        ensures
            final(self).wf(),
            final(self).bindings() == old(self).bindings(),
            final(self).chords() == old(self).chords(),
            match token_of(key) {
                Some(token) => {
                    &&& final(self).held() == after_press(old(self).held(), token)
                    &&& final(self).last_key() == Some(token)
                    &&& r.is_some() == triggered(final(self).bindings(), final(self).held()).is_some()
                    &&& r.is_some() ==> r.unwrap()@ == triggered(
                        final(self).bindings(),
                        final(self).held(),
                    ).unwrap()
                },
                None => {
                    &&& final(self).held() == old(self).held()
                    &&& final(self).last_key() == old(self).last_key()
                    &&& r is None
                },
            },
    {
        match key.token() {
            Some(token) => {
                self.last_key = Some(token);
                self.pressed.press(token);
                match self.pressed.candidate() {
                    Some(chord) => self.registry.lookup(chord.as_str()),
                    None => None,
                }
            },
            None => None,
        }
    }

    /// Handles a key going up: its token is no longer held. Nothing is
    /// triggered.
    pub fn on_key_up(&mut self, key: Key)
        requires
            old(self).wf(),
        ensures
            final(self).wf(),
            final(self).bindings() == old(self).bindings(),
            final(self).chords() == old(self).chords(),
            final(self).last_key() == old(self).last_key(),
            final(self).held() == match token_of(key) {
                Some(token) => after_release(old(self).held(), token),
                None => old(self).held(),
            },
    {
        match key.token() {
            Some(token) => {
                self.pressed.release(token);
            },
            None => {},
        }
    }

    /// The name of the last tracked key that went down.
    pub fn last_key_press(&self) -> (r: Option<String>)
        ensures
            r.is_some() == self.last_key().is_some(),
            r.is_some() ==> r.unwrap()@ == token_name(self.last_key().unwrap()),
    {
        match self.last_key {
            Some(token) => Some(token.name().to_string()),
            None => None,
        }
    }
}

/// A chord fires once it is registered: where the held keys spell a chord
/// with the canonical form of the one that an action was registered under,
/// the action is what a key going down triggers.
pub proof fn lemma_registered_chord_fires(
    bound: Map<Seq<char>, ActionView>,
    chord: Seq<char>,
    action: ActionView,
    held: Seq<KeyToken>,
)
    requires
        !conflicts(bound, canonical(chord), action),
        candidate_chord(held) is Some,
        canonical(candidate_chord(held).unwrap()) == canonical(chord),
    ensures
        triggered(after_register(bound, canonical(chord), action), held) == Some(action),
{
}

/// A chord registered as the held keys spell it fires for those keys.
pub proof fn lemma_spelled_chord_fires(
    bound: Map<Seq<char>, ActionView>,
    action: ActionView,
    held: Seq<KeyToken>,
)
    requires
        main_token(held) is Some,
        !conflicts(bound, canonical(candidate_chord(held).unwrap()), action),
    ensures
        triggered(
            after_register(bound, canonical(candidate_chord(held).unwrap()), action),
            held,
        ) == Some(action),
{
}

/// A chord fires in whatever order its modifiers were written when it was
/// registered: written with the labels of the held modifiers and the name
/// of the main key, it is the chord that the held keys trigger.
pub proof fn lemma_chord_fires_in_any_order(
    bound: Map<Seq<char>, ActionView>,
    action: ActionView,
    held: Seq<KeyToken>,
    written: Seq<Seq<char>>,
)
    requires
        main_token(held) is Some,
        written.to_multiset() == held_modifiers(held).to_multiset(),
        !conflicts(
            bound,
            canonical(chord_text(written, token_name(main_token(held).unwrap()))),
            action,
        ),
    ensures
        triggered(
            after_register(
                bound,
                canonical(chord_text(written, token_name(main_token(held).unwrap()))),
                action,
            ),
            held,
        ) == Some(action),
{
    lemma_any_order_spells_candidate(held, written);
}

/// Held keys that spell no chord, modifiers alone among them, trigger
/// nothing, whatever is registered.
pub proof fn lemma_no_chord_no_action(bound: Map<Seq<char>, ActionView>, held: Seq<KeyToken>)
    requires
        main_token(held) is None,
    ensures
        triggered(bound, held) is None,
{
}

} // verus!
