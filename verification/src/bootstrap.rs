//! Bringing the saved bindings back at startup.

use crate::chord::canonical;
use crate::engine::Engine;
use crate::registry::{after_register, conflicts, Action, ActionView, Binding};
use crate::settings::SettingsView;
use crate::sound::{sound_views, SoundView};
use crate::state::AudioState;
use vstd::prelude::*;

verus! {

/// A binding as a mathematical value: the chord as it was written, and the
/// action.
pub open spec fn binding_views(bindings: Seq<Binding>) -> Seq<(Seq<char>, ActionView)> {
    bindings.map_values(|b: Binding| (b.chord@, b.action@))
}

/// The bindings that the first `upto` sounds ask for: one for each sound
/// that has a chord, in the order of the sounds.
pub open spec fn sound_bindings(sounds: Seq<SoundView>, upto: int) -> Seq<(Seq<char>, ActionView)>
    decreases upto,
{
    if upto <= 0 {
        Seq::empty()
    } else {
        let before = sound_bindings(sounds, upto - 1);
        match sounds[upto - 1].keybind {
            Some(chord) => before.push((chord, ActionView::PlaySound(sounds[upto - 1].id))),
            None => before,
        }
    }
}

/// The bindings that a saved board asks for: those of its sounds, then the
/// chord that stops everything, if one is set.
pub open spec fn saved_bindings(sounds: Seq<SoundView>, settings: SettingsView) -> Seq<
    (Seq<char>, ActionView),
> {
    let of_sounds = sound_bindings(sounds, sounds.len() as int);
    match settings.stop_all_keybind {
        Some(chord) => of_sounds.push((chord, ActionView::StopAll)),
        None => of_sounds,
    }
}

/// The bindings after the first `upto` of `wanted` have been registered, one
/// after the other.
pub open spec fn registered_all(
    bound: Map<Seq<char>, ActionView>,
    wanted: Seq<(Seq<char>, ActionView)>,
    upto: int,
) -> Map<Seq<char>, ActionView>
    decreases upto,
{
    if upto <= 0 {
        bound
    } else {
        after_register(
            registered_all(bound, wanted, upto - 1),
            canonical(wanted[upto - 1].0),
            wanted[upto - 1].1,
        )
    }
}

/// How many of the first `upto` of `wanted` are refused when they are
/// registered one after the other.
pub open spec fn refused_of(
    bound: Map<Seq<char>, ActionView>,
    wanted: Seq<(Seq<char>, ActionView)>,
    upto: int,
) -> int
    decreases upto,
{
    if upto <= 0 {
        0
    } else {
        refused_of(bound, wanted, upto - 1) + if conflicts(
            registered_all(bound, wanted, upto - 1),
            canonical(wanted[upto - 1].0),
            wanted[upto - 1].1,
        ) {
            1int
        } else {
            0int
        }
    }
}

impl AudioState {
    /// The bindings that the board asks for as it stands.
    pub fn wanted_bindings(&self) -> (r: Vec<Binding>)
        ensures
            binding_views(r@) == saved_bindings(self.sounds(), self.settings()),
    {
        let sounds = self.get_all();
        let settings = self.get_settings();
        let mut out: Vec<Binding> = Vec::new();
        let mut i: usize = 0;
        proof {
            assert(binding_views(out@) =~= sound_bindings(self.sounds(), 0));
        }
        while i < sounds.len()
            invariant
                i <= sounds.len(),
                sound_views(sounds@) == self.sounds(),
                binding_views(out@) == sound_bindings(self.sounds(), i as int),
            decreases sounds.len() - i,
        {
            proof {
                assert(self.sounds()[i as int] == sounds@[i as int]@);
            }
            match &sounds[i].keybind {
                Some(chord) => {
                    let binding = Binding {
                        chord: chord.clone(),
                        action: Action::PlaySound(sounds[i].id.clone()),
                    };
                    proof {
                        assert(binding_views(out@.push(binding)) =~= binding_views(out@).push(
                            (binding.chord@, binding.action@),
                        ));
                    }
                    out.push(binding);
                },
                None => {},
            }
            i += 1;
        }
        proof {
            assert(self.sounds().len() == sounds.len());
        }
        match settings.stop_all_keybind {
            Some(chord) => {
                let binding = Binding { chord, action: Action::StopAll };
                proof {
                    assert(binding_views(out@.push(binding)) =~= binding_views(out@).push(
                        (binding.chord@, binding.action@),
                    ));
                }
                out.push(binding);
            },
            None => {},
        }
        out
    }
}

impl Engine {
    /// Registers `wanted`, one binding after the other, and says how many
    /// were refused because their chord was taken.
    pub fn load_bindings(&mut self, wanted: &Vec<Binding>) -> (refused: usize)
        requires
            old(self).wf(),
        ensures
            final(self).wf(),
            final(self).bindings() == registered_all(
                old(self).bindings(),
                binding_views(wanted@),
                wanted.len() as int,
            ),
            refused == refused_of(
                old(self).bindings(),
                binding_views(wanted@),
                wanted.len() as int,
            ),
            final(self).held() == old(self).held(),
            final(self).last_key() == old(self).last_key(),
    {
        let ghost start = self.bindings();
        let ghost held = self.held();
        let ghost last = self.last_key();
        let ghost all = binding_views(wanted@);
        let mut refused: usize = 0;
        let mut i: usize = 0;
        while i < wanted.len()
            invariant
                i <= wanted.len(),
                self.wf(),
                all == binding_views(wanted@),
                self.bindings() == registered_all(start, all, i as int),
                refused == refused_of(start, all, i as int),
                refused <= i,
                self.held() == held,
                self.last_key() == last,
            decreases wanted.len() - i,
        {
            proof {
                assert(all[i as int] == (wanted@[i as int].chord@, wanted@[i as int].action@));
            }
            let action = wanted[i].action.clone();
            match self.register_binding(wanted[i].chord.as_str(), action) {
                Ok(_) => {},
                Err(_) => {
                    refused += 1;
                },
            }
            i += 1;
        }
        refused
    }
}

} // verus!
