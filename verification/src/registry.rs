//! The keybind registry: which chord triggers which action.

use crate::chord::{canonical, is_canonical, lemma_canonical_idempotent, normalize_keybind};
use vstd::prelude::*;

verus! {

/// What a chord triggers.
#[derive(Debug, PartialEq, Eq)]
pub enum Action {
    /// Play the sound with this identifier.
    PlaySound(String),
    /// Stop everything that is playing.
    StopAll,
}

/// An action as a mathematical value.
pub enum ActionView {
    PlaySound(Seq<char>),
    StopAll,
}

impl View for Action {
    type V = ActionView;

    open spec fn view(&self) -> ActionView {
        match self {
            Action::PlaySound(id) => ActionView::PlaySound(id@),
            Action::StopAll => ActionView::StopAll,
        }
    }
}

impl Clone for Action {
    fn clone(&self) -> (r: Self)
        ensures
            r@ == self@,
    {
        match self {
            Action::PlaySound(id) => Action::PlaySound(id.clone()),
            Action::StopAll => Action::StopAll,
        }
    }
}

impl Action {
    /// Whether two actions are the same action.
    pub fn same_as(&self, other: &Action) -> (r: bool)
        ensures
            r == (self@ == other@),
    {
        match (self, other) {
            (Action::PlaySound(a), Action::PlaySound(b)) => *a == *b,
            (Action::StopAll, Action::StopAll) => true,
            _ => false,
        }
    }
}

/// Why a registration was refused.
#[derive(Clone, Copy, Debug, PartialEq, Eq, Structural)]
pub enum RegistryError {
    /// The chord already triggers another action.
    DuplicateBinding,
}

/// A chord and what it triggers.
#[derive(Debug, PartialEq, Eq)]
pub struct Binding {
    /// The chord. Inside the registry it is in canonical form.
    pub chord: String,
    /// What the chord triggers.
    pub action: Action,
}

/// Whether registering `action` under `key` would take the chord away from
/// another action.
pub open spec fn conflicts(
    bound: Map<Seq<char>, ActionView>,
    key: Seq<char>,
    action: ActionView,
) -> bool {
    bound.contains_key(key) && bound[key] != action
}

/// The bindings after `action` has moved to `key`: whatever chord it had
/// before is free again, and every other binding stays.
pub open spec fn rebound(
    bound: Map<Seq<char>, ActionView>,
    key: Seq<char>,
    action: ActionView,
) -> Map<Seq<char>, ActionView> {
    Map::new(
        |c: Seq<char>| c == key || (bound.contains_key(c) && bound[c] != action),
        |c: Seq<char>|
            if c == key {
                action
            } else {
                bound[c]
            },
    )
}

/// The bindings after an attempt to register `action` under `key`: unchanged
/// where that conflicts, rebound otherwise.
pub open spec fn after_register(
    bound: Map<Seq<char>, ActionView>,
    key: Seq<char>,
    action: ActionView,
) -> Map<Seq<char>, ActionView> {
    if conflicts(bound, key, action) {
        bound
    } else {
        rebound(bound, key, action)
    }
}

/// The live bindings, each chord stored in canonical form and each action
/// bound to at most one chord.
pub struct KeybindRegistry {
    entries: Vec<Binding>,
}

impl View for KeybindRegistry {
    type V = Map<Seq<char>, ActionView>;

    /// The bindings as a map from canonical chord to action.
    closed spec fn view(&self) -> Map<Seq<char>, ActionView> {
        Map::new(
            |c: Seq<char>| self.position(c) is Some,
            |c: Seq<char>| self.entries@[self.position(c).unwrap()].action@,
        )
    }
}

impl KeybindRegistry {
    /// The index of the entry for `chord`, if there is one.
    closed spec fn position(&self, chord: Seq<char>) -> Option<int> {
        if exists|i: int| 0 <= i < self.entries@.len() && self.entries@[i].chord@ == chord {
            Some(choose|i: int| 0 <= i < self.entries@.len() && self.entries@[i].chord@ == chord)
        } else {
            None
        }
    }

    /// The registered chords as `list` hands them out.
    pub closed spec fn chords(&self) -> Seq<Seq<char>> {
        self.entries@.map_values(|b: Binding| b.chord@)
    }

    /// The invariant of the registry: every chord is canonical, no chord
    /// occurs twice, and no action is bound twice.
    pub closed spec fn wf(&self) -> bool {
        &&& forall|i: int|
            0 <= i < self.entries@.len() ==> is_canonical(#[trigger] self.entries@[i].chord@)
        &&& forall|i: int, j: int|
            0 <= i < j < self.entries@.len() ==> (#[trigger] self.entries@[i]).chord@ != (
            #[trigger] self.entries@[j]).chord@
        &&& forall|i: int, j: int|
            0 <= i < j < self.entries@.len() ==> (#[trigger] self.entries@[i]).action@ != (
            #[trigger] self.entries@[j]).action@
    }

    /// Each entry is found again under its own chord.
    proof fn lemma_position(&self, i: int)
        requires
            self.wf(),
            0 <= i < self.entries@.len(),
        ensures
            self.position(self.entries@[i].chord@) == Some(i),
            self@.contains_key(self.entries@[i].chord@),
            self@[self.entries@[i].chord@] == self.entries@[i].action@,
    {
        let c = self.entries@[i].chord@;
        let j = self.position(c).unwrap();
        if j < i {
            assert(self.entries@[j].chord@ != self.entries@[i].chord@);
        } else if i < j {
            assert(self.entries@[i].chord@ != self.entries@[j].chord@);
        }
    }

    /// A chord that no entry holds is not bound.
    proof fn lemma_absent(&self, chord: Seq<char>)
        requires
            forall|i: int| 0 <= i < self.entries@.len() ==> self.entries@[i].chord@ != chord,
        ensures
            !self@.contains_key(chord),
    {
    }

    /// A bound chord has an entry.
    proof fn lemma_present(&self, chord: Seq<char>) -> (i: int)
        requires
            self.wf(),
            self@.contains_key(chord),
        ensures
            0 <= i < self.entries@.len(),
            self.entries@[i].chord@ == chord,
            self.entries@[i].action@ == self@[chord],
    {
        let i = self.position(chord).unwrap();
        self.lemma_position(i);
        i
    }

    /// An empty registry.
    pub fn new() -> (r: Self)
        ensures
            r.wf(),
            r@ == Map::<Seq<char>, ActionView>::empty(),
            r.chords() == Seq::<Seq<char>>::empty(),
    {
        let r = KeybindRegistry { entries: Vec::new() };
        proof {
            assert(r@ =~= Map::<Seq<char>, ActionView>::empty());
            assert(r.chords() =~= Seq::<Seq<char>>::empty());
        }
        r
    }

    /// The index of the entry whose chord is exactly `key`.
    fn find_chord(&self, key: &String) -> (r: Option<usize>)
        requires
            self.wf(),
        ensures
            match r {
                Some(i) => i < self.entries@.len() && self.entries@[i as int].chord@ == key@,
                None => !self@.contains_key(key@),
            },
    {
        let mut i: usize = 0;
        while i < self.entries.len()
            invariant
                i <= self.entries@.len(),
                forall|k: int| 0 <= k < i ==> self.entries@[k].chord@ != key@,
            decreases self.entries@.len() - i,
        {
            if self.entries[i].chord == *key {
                return Some(i);
            }
            i += 1;
        }
        proof {
            self.lemma_absent(key@);
        }
        None
    }

    /// The index of the entry that binds `action`.
    fn find_action(&self, action: &Action) -> (r: Option<usize>)
        ensures
            match r {
                Some(i) => i < self.entries@.len() && self.entries@[i as int].action@ == action@,
                None => forall|k: int|
                    0 <= k < self.entries@.len() ==> self.entries@[k].action@ != action@,
            },
    {
        let mut i: usize = 0;
        while i < self.entries.len()
            invariant
                i <= self.entries@.len(),
                forall|k: int| 0 <= k < i ==> self.entries@[k].action@ != action@,
            decreases self.entries@.len() - i,
        {
            if self.entries[i].action.same_as(action) {
                return Some(i);
            }
            i += 1;
        }
        None
    }

    /// Binds `chord` to `action`. The chord is stored in canonical form, and a
    /// chord that `action` was bound to before is released. A chord that
    /// already triggers another action is refused, and nothing changes.
    pub fn register(&mut self, chord: &str, action: Action) -> (r: Result<(), RegistryError>)
        requires
            old(self).wf(),
        ensures
            final(self).wf(),
            final(self)@ == after_register(old(self)@, canonical(chord@), action@),
            r == if conflicts(old(self)@, canonical(chord@), action@) {
                Err::<(), RegistryError>(RegistryError::DuplicateBinding)
            } else {
                Ok::<(), RegistryError>(())
            },
            r is Err ==> final(self).chords() == old(self).chords(),
    {
        let key = normalize_keybind(chord);
        proof {
            lemma_canonical_idempotent(chord@);
        }
        match self.find_chord(&key) {
            Some(i) => {
                proof {
                    self.lemma_position(i as int);
                }
                if !self.entries[i].action.same_as(&action) {
                    return Err(RegistryError::DuplicateBinding);
                }
            },
            None => {},
        }
        let ghost before = *self;
        match self.find_action(&action) {
            Some(i) => {
                self.entries.remove(i);
            },
            None => {},
        }
        let ghost mid = *self;
        proof {
            assert forall|k: int| 0 <= k < mid.entries@.len() implies (#[trigger] mid.entries@[k]).chord@
                != key@ && mid.entries@[k].action@ != action@ && exists|o: int|
                0 <= o < before.entries@.len() && before.entries@[o] == mid.entries@[k] by {
                let o = if before.entries@.len() == mid.entries@.len() {
                    k
                } else {
                    let removed = choose|x: int|
                        0 <= x < before.entries@.len() && mid.entries@ == before.entries@.remove(x)
                            && before.entries@[x].action@ == action@;
                    if k < removed {
                        k
                    } else {
                        k + 1
                    }
                };
                assert(before.entries@[o] == mid.entries@[k]);
                before.lemma_position(o);
            }
        }
        self.entries.push(Binding { chord: key, action });
        proof {
            let expected = after_register(before@, key@, action@);
            let n = mid.entries@.len() as int;
            assert(self.entries@[n].chord@ == key@);
            assert(self.wf()) by {
                assert forall|i: int| 0 <= i < self.entries@.len() implies is_canonical(
                    #[trigger] self.entries@[i].chord@,
                ) by {
                    if i < n {
                        assert(self.entries@[i] == mid.entries@[i]);
                        let o = choose|o: int|
                            0 <= o < before.entries@.len() && before.entries@[o]
                                == mid.entries@[i];
                    }
                }
                assert forall|i: int, j: int| 0 <= i < j < self.entries@.len() implies (
                #[trigger] self.entries@[i]).chord@ != (#[trigger] self.entries@[j]).chord@ && (
                self.entries@[i]).action@ != (self.entries@[j]).action@ by {
                    assert(self.entries@[i] == mid.entries@[i]);
                    if j < n {
                        assert(self.entries@[j] == mid.entries@[j]);
                        Self::lemma_subsequence_distinct(before, mid, i, j);
                    }
                }
            }
            assert forall|c: Seq<char>| self@.contains_key(c) <==> expected.contains_key(c) by {
                if self@.contains_key(c) {
                    let i = self.lemma_present(c);
                    if i < n {
                        assert(self.entries@[i] == mid.entries@[i]);
                        let o = choose|o: int|
                            0 <= o < before.entries@.len() && before.entries@[o]
                                == mid.entries@[i];
                        before.lemma_position(o);
                    }
                }
                if expected.contains_key(c) && c != key@ {
                    let o = before.lemma_present(c);
                    let k = Self::lemma_survivor(before, mid, o, action@);
                    assert(self.entries@[k] == mid.entries@[k]);
                    self.lemma_position(k);
                }
                if c == key@ {
                    self.lemma_position(n);
                }
            }
            assert forall|c: Seq<char>| #[trigger] self@.contains_key(c) implies self@[c]
                == expected[c] by {
                let i = self.lemma_present(c);
                if i < n {
                    assert(self.entries@[i] == mid.entries@[i]);
                    let o = choose|o: int|
                        0 <= o < before.entries@.len() && before.entries@[o] == mid.entries@[i];
                    before.lemma_position(o);
                }
            }
            assert(self@ =~= expected);
        }
        Ok(())
    }

    /// Releases `chord`, whatever the order in which its modifiers are
    /// written. Every other binding stays.
    pub fn unregister(&mut self, chord: &str)
        requires
            old(self).wf(),
        ensures
            final(self).wf(),
            final(self)@ == old(self)@.remove(canonical(chord@)),
    {
        let key = normalize_keybind(chord);
        let ghost before = *self;
        match self.find_chord(&key) {
            Some(i) => {
                self.entries.remove(i);
                proof {
                    let x = i as int;
                    assert(self.wf()) by {
                        assert forall|a: int| 0 <= a < self.entries@.len() implies is_canonical(
                            #[trigger] self.entries@[a].chord@,
                        ) by {
                            let o = if a < x {
                                a
                            } else {
                                a + 1
                            };
                            assert(self.entries@[a] == before.entries@[o]);
                        }
                        assert forall|a: int, b: int|
                            0 <= a < b < self.entries@.len() implies (
                        #[trigger] self.entries@[a]).chord@ != (
                        #[trigger] self.entries@[b]).chord@ && (self.entries@[a]).action@ != (
                        self.entries@[b]).action@ by {
                            Self::lemma_subsequence_distinct(before, *self, a, b);
                        }
                    }
                    let expected = before@.remove(key@);
                    assert forall|c: Seq<char>| self@.contains_key(c) <==> expected.contains_key(
                        c,
                    ) by {
                        if self@.contains_key(c) {
                            let a = self.lemma_present(c);
                            let o = if a < x {
                                a
                            } else {
                                a + 1
                            };
                            assert(self.entries@[a] == before.entries@[o]);
                            before.lemma_position(o);
                            before.lemma_position(x);
                        }
                        if expected.contains_key(c) {
                            let o = before.lemma_present(c);
                            let a = if o < x {
                                o
                            } else {
                                o - 1
                            };
                            assert(self.entries@[a] == before.entries@[o]);
                            self.lemma_position(a);
                        }
                    }
                    assert forall|c: Seq<char>| #[trigger] self@.contains_key(c) implies self@[c]
                        == expected[c] by {
                        let a = self.lemma_present(c);
                        let o = if a < x {
                            a
                        } else {
                            a + 1
                        };
                        assert(self.entries@[a] == before.entries@[o]);
                        before.lemma_position(o);
                    }
                    assert(self@ =~= expected);
                }
            },
            None => {
                proof {
                    assert(self@ =~= before@.remove(key@));
                }
            },
        }
    }

    /// The action bound to exactly this chord text. The text is compared as it
    /// stands: a chord whose modifiers are not in canonical order finds
    /// nothing.
    pub fn action_for(&self, chord: &str) -> (r: Option<Action>)
        requires
            self.wf(),
        ensures
            match r {
                Some(action) => self@.contains_key(chord@) && self@[chord@] == action@,
                None => !self@.contains_key(chord@),
            },
    {
        let key = chord.to_string();
        match self.find_chord(&key) {
            Some(i) => {
                proof {
                    self.lemma_position(i as int);
                }
                Some(self.entries[i].action.clone())
            },
            None => None,
        }
    }

    /// The action bound to `chord`, whatever the order in which its
    /// modifiers are written.
    pub fn lookup(&self, chord: &str) -> (r: Option<Action>)
        requires
            self.wf(),
        ensures
            match r {
                Some(action) => self@.contains_key(canonical(chord@)) && self@[canonical(chord@)]
                    == action@,
                None => !self@.contains_key(canonical(chord@)),
            },
    {
        let key = normalize_keybind(chord);
        self.action_for(key.as_str())
    }

    /// The registered chords, each in canonical form and each once.
    pub fn list(&self) -> (r: Vec<String>)
        ensures
            r@.map_values(|s: String| s@) == self.chords(),
    {
        let mut out: Vec<String> = Vec::new();
        let mut i: usize = 0;
        while i < self.entries.len()
            invariant
                i <= self.entries@.len(),
                out@.len() == i,
                self.chords().len() == self.entries@.len(),
                out@.map_values(|s: String| s@) == self.chords().take(i as int),
            decreases self.entries@.len() - i,
        {
            let chord = self.entries[i].chord.clone();
            proof {
                let grown = out@.push(chord).map_values(|s: String| s@);
                let prior = out@.map_values(|s: String| s@);
                assert(chord@ == self.chords()[i as int]);
                assert forall|k: int| 0 <= k < grown.len() implies grown[k] == self.chords().take(
                    i + 1,
                )[k] by {
                    if k < i {
                        assert(grown[k] == prior[k]);
                    }
                }
                assert(grown =~= self.chords().take(i + 1));
            }
            out.push(chord);
            i += 1;
        }
        proof {
            assert(self.chords().take(i as int) =~= self.chords());
        }
        out
    }

    /// How many chords are bound.
    pub fn len(&self) -> (r: usize)
        ensures
            r == self.chords().len(),
    {
        self.entries.len()
    }

    /// What the invariant means for the bindings: the listed chords are
    /// exactly the bound ones, none is listed twice, each is canonical, and
    /// no action is bound to two chords.
    pub proof fn lemma_wf(&self)
        requires
            self.wf(),
        ensures
            self.chords().no_duplicates(),
            forall|c: Seq<char>| self.chords().contains(c) <==> self@.contains_key(c),
            forall|c: Seq<char>| self@.contains_key(c) ==> is_canonical(c),
            forall|c: Seq<char>, d: Seq<char>|
                self@.contains_key(c) && self@.contains_key(d) && self@[c] == self@[d] ==> c == d,
    {
        assert forall|i: int, j: int|
            0 <= i < self.chords().len() && 0 <= j < self.chords().len() && i
                != j implies self.chords()[i] != self.chords()[j] by {
            if i < j {
                assert(self.entries@[i].chord@ != self.entries@[j].chord@);
            } else {
                assert(self.entries@[j].chord@ != self.entries@[i].chord@);
            }
        }
        assert forall|c: Seq<char>| self.chords().contains(c) <==> self@.contains_key(c) by {
            if self.chords().contains(c) {
                let i = choose|i: int| 0 <= i < self.chords().len() && self.chords()[i] == c;
                self.lemma_position(i);
            }
            if self@.contains_key(c) {
                let i = self.lemma_present(c);
                assert(self.chords()[i] == c);
            }
        }
        assert forall|c: Seq<char>| self@.contains_key(c) implies is_canonical(c) by {
            let i = self.lemma_present(c);
        }
        assert forall|c: Seq<char>, d: Seq<char>|
            self@.contains_key(c) && self@.contains_key(d) && self@[c] == self@[d] implies c
            == d by {
            let i = self.lemma_present(c);
            let j = self.lemma_present(d);
            if i < j {
                assert(self.entries@[i].action@ != self.entries@[j].action@);
            } else if j < i {
                assert(self.entries@[j].action@ != self.entries@[i].action@);
            }
        }
    }

    /// Entries that stay keep their order, so they stay distinct.
    proof fn lemma_subsequence_distinct(before: Self, mid: Self, i: int, j: int)
        requires
            before.wf(),
            0 <= i < j < mid.entries@.len(),
            mid.entries@ == before.entries@ || exists|x: int|
                0 <= x < before.entries@.len() && mid.entries@ == before.entries@.remove(x),
        ensures
            mid.entries@[i].chord@ != mid.entries@[j].chord@,
            mid.entries@[i].action@ != mid.entries@[j].action@,
    {
        if mid.entries@ == before.entries@ {
            assert(before.entries@[i].chord@ != before.entries@[j].chord@);
        } else {
            let x = choose|x: int|
                0 <= x < before.entries@.len() && mid.entries@ == before.entries@.remove(x);
            let oi = if i < x {
                i
            } else {
                i + 1
            };
            let oj = if j < x {
                j
            } else {
                j + 1
            };
            assert(mid.entries@[i] == before.entries@[oi]);
            assert(mid.entries@[j] == before.entries@[oj]);
            assert(before.entries@[oi].chord@ != before.entries@[oj].chord@);
        }
    }

    /// An entry that binds another action is still there after the entry of
    /// `action` has been taken out.
    proof fn lemma_survivor(before: Self, mid: Self, o: int, action: ActionView) -> (k: int)
        requires
            before.wf(),
            0 <= o < before.entries@.len(),
            before.entries@[o].action@ != action,
            mid.entries@ == before.entries@ || exists|x: int|
                0 <= x < before.entries@.len() && mid.entries@ == before.entries@.remove(x)
                    && before.entries@[x].action@ == action,
        ensures
            0 <= k < mid.entries@.len(),
            mid.entries@[k] == before.entries@[o],
    {
        if mid.entries@ == before.entries@ {
            o
        } else {
            let x = choose|x: int|
                0 <= x < before.entries@.len() && mid.entries@ == before.entries@.remove(x)
                    && before.entries@[x].action@ == action;
            if o < x {
                o
            } else {
                o - 1
            }
        }
    }
}

/// Registering an action under a second chord releases the first: where both
/// registrations go through and the two chords differ, the first chord is
/// bound to nothing afterwards and the second to the action.
pub proof fn lemma_rebinding_releases_prior(
    bound: Map<Seq<char>, ActionView>,
    first: Seq<char>,
    second: Seq<char>,
    action: ActionView,
)
    requires
        first != second,
        !conflicts(bound, first, action),
        !conflicts(after_register(bound, first, action), second, action),
    ensures
        ({
            let end = after_register(after_register(bound, first, action), second, action);
            &&& !end.contains_key(first)
            &&& end.contains_key(second)
            &&& end[second] == action
        }),
{
}

/// A refused registration changes nothing, and an accepted one leaves the
/// action bound to the new chord alone.
pub proof fn lemma_register_binds_once(
    bound: Map<Seq<char>, ActionView>,
    key: Seq<char>,
    action: ActionView,
)
    ensures
        conflicts(bound, key, action) ==> after_register(bound, key, action) == bound,
        !conflicts(bound, key, action) ==> forall|c: Seq<char>|
            (#[trigger] after_register(bound, key, action).contains_key(c) && after_register(
                bound,
                key,
                action,
            )[c] == action) <==> c == key,
{
}

/// Registering touches no binding of another action on another chord.
pub proof fn lemma_register_keeps_others(
    bound: Map<Seq<char>, ActionView>,
    key: Seq<char>,
    action: ActionView,
    other: Seq<char>,
)
    requires
        other != key,
        bound.contains_key(other),
        bound[other] != action,
    ensures
        after_register(bound, key, action).contains_key(other),
        after_register(bound, key, action)[other] == bound[other],
{
}

} // verus!
