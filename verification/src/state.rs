//! The state of the board: its sounds and its settings.

use crate::settings::{default_settings, Settings, SettingsView};
use crate::sound::{
    fresh_sound, place, place_of, sound_name, sound_views, text_of, untitled, Sound, SoundView,
};
use vstd::prelude::*;

verus! {

/// Why the board could not do what was asked.
#[derive(Clone, Copy, Debug, PartialEq, Eq, Structural)]
pub enum BoardError {
    /// No sound has this identifier.
    SoundNotFound,
    /// The file of the sound is not there.
    FileNotFound,
}

/// The position, from `from` on, of the sound with this identifier.
pub open spec fn position_from(sounds: Seq<SoundView>, id: Seq<char>, from: int) -> Option<int>
    decreases sounds.len() - from,
{
    if from < 0 || from >= sounds.len() {
        None
    } else if sounds[from].id == id {
        Some(from)
    } else {
        position_from(sounds, id, from + 1)
    }
}

/// The position of the sound with this identifier.
pub open spec fn position_of(sounds: Seq<SoundView>, id: Seq<char>) -> Option<int> {
    position_from(sounds, id, 0)
}

/// Holds when no two sounds share an identifier.
pub open spec fn distinct_ids(sounds: Seq<SoundView>) -> bool {
    forall|i: int, j: int|
        0 <= i < j < sounds.len() ==> (#[trigger] sounds[i]).id != (#[trigger] sounds[j]).id
}

/// The sounds with `sound` put in: in the place of the one that had its
/// identifier, or at the end.
pub open spec fn with_sound(sounds: Seq<SoundView>, sound: SoundView) -> Seq<SoundView> {
    match position_of(sounds, sound.id) {
        Some(at) => sounds.update(at, sound),
        None => sounds.push(sound),
    }
}

/// The sounds without the one that has this identifier.
pub open spec fn without_sound(sounds: Seq<SoundView>, id: Seq<char>) -> Seq<SoundView> {
    match position_of(sounds, id) {
        Some(at) => sounds.remove(at),
        None => sounds,
    }
}

/// The sounds with the one that has this identifier changed by `change`.
pub open spec fn with_changed(
    sounds: Seq<SoundView>,
    id: Seq<char>,
    change: spec_fn(SoundView) -> SoundView,
) -> Seq<SoundView> {
    match position_of(sounds, id) {
        Some(at) => sounds.update(at, change(sounds[at])),
        None => sounds,
    }
}

/// The sounds after each identifier of `ids`, up to position `upto`, has
/// given its sound the place that goes with the identifier's position.
pub open spec fn reordered(sounds: Seq<SoundView>, ids: Seq<Seq<char>>, upto: int) -> Seq<
    SoundView,
>
    decreases upto,
{
    if upto <= 0 {
        sounds
    } else {
        with_changed(
            reordered(sounds, ids, upto - 1),
            ids[upto - 1],
            |s: SoundView| SoundView { order: place_of(upto - 1), ..s },
        )
    }
}

/// Holds when the sounds stand by their place in the board's order.
pub open spec fn in_board_order(sounds: Seq<SoundView>) -> bool {
    forall|i: int, j: int|
        0 <= i < j < sounds.len() ==> (#[trigger] sounds[i]).order <= (#[trigger] sounds[j]).order
}

/// The sounds after the first `upto` of `loaded` have been put in, one after
/// the other.
pub open spec fn with_sounds(sounds: Seq<SoundView>, loaded: Seq<SoundView>, upto: int) -> Seq<
    SoundView,
>
    decreases upto,
{
    if upto <= 0 {
        sounds
    } else {
        with_sound(with_sounds(sounds, loaded, upto - 1), loaded[upto - 1])
    }
}

/// The sound found from `from` on is in the list, has the identifier, and is
/// the first that has it.
pub proof fn lemma_position_from(sounds: Seq<SoundView>, id: Seq<char>, from: int)
    requires
        0 <= from,
    ensures
        match position_from(sounds, id, from) {
            Some(at) => from <= at < sounds.len() && sounds[at].id == id && forall|j: int|
                from <= j < at ==> (#[trigger] sounds[j]).id != id,
            None => forall|j: int| from <= j < sounds.len() ==> (#[trigger] sounds[j]).id != id,
        },
    decreases sounds.len() - from,
{
    if from < sounds.len() && sounds[from].id != id {
        lemma_position_from(sounds, id, from + 1);
    }
}

/// Putting a sound in, taking one out and changing one all keep the
/// identifiers distinct, as long as a change leaves the identifier alone.
pub proof fn lemma_distinct_kept(sounds: Seq<SoundView>, sound: SoundView)
    requires
        distinct_ids(sounds),
    ensures
        distinct_ids(with_sound(sounds, sound)),
        distinct_ids(without_sound(sounds, sound.id)),
        forall|change: spec_fn(SoundView) -> SoundView|
            (forall|s: SoundView| (#[trigger] change(s)).id == s.id) ==> distinct_ids(
                #[trigger] with_changed(sounds, sound.id, change),
            ),
{
    lemma_position_from(sounds, sound.id, 0);
    let put = with_sound(sounds, sound);
    assert forall|i: int, j: int| 0 <= i < j < put.len() implies (#[trigger] put[i]).id != (
    #[trigger] put[j]).id by {
        match position_of(sounds, sound.id) {
            Some(at) => {
                assert(sounds[i].id != sounds[j].id);
            },
            None => {
                if j < sounds.len() {
                    assert(sounds[i].id != sounds[j].id);
                } else {
                    assert(sounds[i].id != sound.id);
                }
            },
        }
    }
    let out = without_sound(sounds, sound.id);
    assert forall|i: int, j: int| 0 <= i < j < out.len() implies (#[trigger] out[i]).id != (
    #[trigger] out[j]).id by {
        match position_of(sounds, sound.id) {
            Some(at) => {
                let oi = if i < at {
                    i
                } else {
                    i + 1
                };
                let oj = if j < at {
                    j
                } else {
                    j + 1
                };
                assert(sounds[oi].id != sounds[oj].id);
            },
            None => {
                assert(sounds[i].id != sounds[j].id);
            },
        }
    }
    assert forall|change: spec_fn(SoundView) -> SoundView|
        (forall|s: SoundView| (#[trigger] change(s)).id == s.id) implies distinct_ids(
        #[trigger] with_changed(sounds, sound.id, change),
    ) by {
        let changed = with_changed(sounds, sound.id, change);
        assert forall|i: int, j: int| 0 <= i < j < changed.len() implies (
        #[trigger] changed[i]).id != (#[trigger] changed[j]).id by {
            assert(sounds[i].id != sounds[j].id);
            match position_of(sounds, sound.id) {
                Some(at) => {
                    assert(change(sounds[at]).id == sounds[at].id);
                },
                None => {},
            }
        }
    }
}

/// The sounds and the settings of the board. No two sounds share an
/// identifier.
pub struct AudioState {
    sounds: Vec<Sound>,
    settings: Settings,
}

impl Default for AudioState {
    fn default() -> (r: Self)
        ensures
            r.wf(),
            r.sounds() == Seq::<SoundView>::empty(),
            r.settings() == default_settings(),
    {
        AudioState::new()
    }
}

impl AudioState {
    /// The sounds, in the order in which they were added.
    pub closed spec fn sounds(&self) -> Seq<SoundView> {
        sound_views(self.sounds@)
    }

    /// The settings.
    pub closed spec fn settings(&self) -> SettingsView {
        self.settings@
    }

    /// The invariant: no two sounds share an identifier.
    pub open spec fn wf(&self) -> bool {
        distinct_ids(self.sounds())
    }

    /// A board without sounds, with the default settings.
    pub fn new() -> (r: Self)
        ensures
            r.wf(),
            r.sounds() == Seq::<SoundView>::empty(),
            r.settings() == default_settings(),
    {
        let r = AudioState { sounds: Vec::new(), settings: Settings::default() };
        proof {
            assert(r.sounds() =~= Seq::<SoundView>::empty());
        }
        r
    }

    /// How many sounds there are.
    pub fn sound_count(&self) -> (r: usize)
        ensures
            r == self.sounds().len(),
    {
        self.sounds.len()
    }

    /// Copies of all sounds, in the order in which they were added.
    pub fn get_all(&self) -> (r: Vec<Sound>)
        ensures
            sound_views(r@) == self.sounds(),
    {
        let mut out: Vec<Sound> = Vec::new();
        let mut i: usize = 0;
        while i < self.sounds.len()
            invariant
                i <= self.sounds@.len(),
                out@.len() == i,
                self.sounds().len() == self.sounds@.len(),
                sound_views(out@) == self.sounds().take(i as int),
            decreases self.sounds@.len() - i,
        {
            let sound = self.sounds[i].clone();
            proof {
                assert(sound_views(out@.push(sound)) =~= self.sounds().take(i as int).push(
                    sound@,
                ));
                assert(self.sounds().take(i + 1) =~= self.sounds().take(i as int).push(sound@));
            }
            out.push(sound);
            i += 1;
        }
        proof {
            assert(self.sounds().take(i as int) =~= self.sounds());
        }
        out
    }

    /// A copy of the settings.
    pub fn get_settings(&self) -> (r: Settings)
        ensures
            r@ == self.settings(),
    {
        self.settings.clone()
    }

    /// Replaces the settings and leaves the sounds.
    pub fn apply_settings(&mut self, settings: Settings)
        ensures
            final(self).settings() == settings@,
            final(self).sounds() == old(self).sounds(),
    {
        self.settings = settings;
    }

    /// The position of the sound with this identifier.
    fn find(&self, id: &str) -> (r: Option<usize>)
        ensures
            match r {
                Some(at) => position_of(self.sounds(), id@) == Some(at as int) && at
                    < self.sounds@.len(),
                None => position_of(self.sounds(), id@) is None,
            },
    {
        let key = id.to_string();
        let mut i: usize = 0;
        while i < self.sounds.len()
            invariant
                i <= self.sounds@.len(),
                key@ == id@,
                self.sounds().len() == self.sounds@.len(),
                position_of(self.sounds(), id@) == position_from(self.sounds(), id@, i as int),
            decreases self.sounds@.len() - i,
        {
            proof {
                assert(self.sounds()[i as int] == self.sounds@[i as int]@);
            }
            if self.sounds[i].id == key {
                return Some(i);
            }
            i += 1;
        }
        None
    }

    /// A copy of the sound with this identifier.
    pub fn sound(&self, id: &str) -> (r: Option<Sound>)
        ensures
            match r {
                Some(sound) => position_of(self.sounds(), id@) is Some && sound@
                    == self.sounds()[position_of(self.sounds(), id@).unwrap()],
                None => position_of(self.sounds(), id@) is None,
            },
    {
        match self.find(id) {
            Some(at) => Some(self.sounds[at].clone()),
            None => None,
        }
    }

    /// The sounds by their place in the board's order, lowest first. Sounds
    /// that share a place come in no particular order.
    pub fn get_sounds(&self) -> (r: Vec<Sound>)
        ensures
            in_board_order(sound_views(r@)),
            sound_views(r@).to_multiset() == self.sounds().to_multiset(),
    {
        broadcast use vstd::seq_lib::group_to_multiset_ensures;

        let mut out: Vec<Sound> = Vec::new();
        let mut i: usize = 0;
        proof {
            assert(sound_views(out@) =~= Seq::<SoundView>::empty());
            assert(self.sounds().take(0) =~= Seq::<SoundView>::empty());
        }
        while i < self.sounds.len()
            invariant
                i <= self.sounds@.len(),
                self.sounds().len() == self.sounds@.len(),
                in_board_order(sound_views(out@)),
                sound_views(out@).to_multiset() == self.sounds().take(i as int).to_multiset(),
            decreases self.sounds@.len() - i,
        {
            let sound = self.sounds[i].clone();
            let mut j: usize = 0;
            while j < out.len() && out[j].order <= sound.order
                invariant
                    j <= out.len(),
                    forall|k: int| 0 <= k < j ==> (#[trigger] out@[k]).order <= sound.order,
                decreases out.len() - j,
            {
                j += 1;
            }
            proof {
                let placed = sound_views(out@);
                let after = placed.insert(j as int, sound@);
                assert(sound_views(out@.insert(j as int, sound)) =~= after);
                vstd::seq_lib::to_multiset_insert(placed, j as int, sound@);
                assert(self.sounds().take(i + 1) =~= self.sounds().take(i as int).push(sound@));
                vstd::seq_lib::to_multiset_build(self.sounds().take(i as int), sound@);
                assert forall|a: int, b: int| 0 <= a < b < after.len() implies (
                #[trigger] after[a]).order <= (#[trigger] after[b]).order by {
                    if b < j {
                        assert(placed[a].order <= placed[b].order);
                    } else if b == j {
                        assert(out@[a].order <= sound.order);
                    } else if a < j {
                        assert(placed[a].order <= placed[b - 1].order);
                    } else if a == j {
                        assert(placed[j as int].order <= placed[b - 1].order);
                    } else {
                        assert(placed[a - 1].order <= placed[b - 1].order);
                    }
                }
            }
            out.insert(j, sound);
            i += 1;
        }
        proof {
            assert(self.sounds().take(i as int) =~= self.sounds());
        }
        out
    }

    /// Takes in the sounds of `loaded`, one after the other; of two with one
    /// identifier the later one stays.
    pub fn load_sounds(&mut self, loaded: Vec<Sound>)
        requires
            old(self).wf(),
        ensures
            final(self).wf(),
            final(self).sounds() == with_sounds(
                old(self).sounds(),
                sound_views(loaded@),
                loaded.len() as int,
            ),
            final(self).settings() == old(self).settings(),
    {
        let ghost start = self.sounds();
        let ghost kept = self.settings();
        let ghost all = sound_views(loaded@);
        let mut rest = loaded;
        let mut taken: Vec<Sound> = Vec::new();
        // Turn the list round, so that the sounds can be moved out in order.
        while rest.len() > 0
            invariant
                sound_views(taken@) + sound_views(rest@).reverse() == all.reverse(),
            decreases rest.len(),
        {
            let ghost before = sound_views(rest@);
            let sound = rest.pop().unwrap();
            proof {
                assert(sound_views(rest@) =~= before.drop_last());
                assert(sound_views(taken@.push(sound)) =~= sound_views(taken@).push(sound@));
                assert(before.reverse() =~= seq![sound@] + before.drop_last().reverse());
                assert(sound_views(taken@).push(sound@) + before.drop_last().reverse()
                    =~= sound_views(taken@) + before.reverse());
            }
            taken.push(sound);
        }
        proof {
            assert(sound_views(rest@).reverse() =~= Seq::<SoundView>::empty());
            assert(sound_views(taken@) =~= all.reverse());
        }
        let ghost n = all.len() as int;
        while taken.len() > 0
            invariant
                self.wf(),
                self.settings() == kept,
                taken@.len() <= n,
                n == all.len(),
                sound_views(taken@) == all.reverse().take(taken@.len() as int),
                self.sounds() == with_sounds(start, all, n - taken@.len()),
            decreases taken.len(),
        {
            let ghost k = n - taken@.len();
            let ghost before = sound_views(taken@);
            let ghost old_taken = taken@;
            let sound = taken.pop().unwrap();
            proof {
                assert(sound == old_taken[n - k - 1]);
                assert(before[n - k - 1] == sound@);
                assert(sound@ == all.reverse()[n - k - 1]);
                assert(sound@ == all[k]);
                assert(sound_views(taken@) =~= all.reverse().take(taken@.len() as int));
            }
            self.insert_sound(sound);
        }
    }

    /// Puts `sound` in: in the place of the one that had its identifier, or
    /// at the end.
    pub fn insert_sound(&mut self, sound: Sound)
        requires
            old(self).wf(),
        ensures
            final(self).wf(),
            final(self).sounds() == with_sound(old(self).sounds(), sound@),
            final(self).settings() == old(self).settings(),
    {
        proof {
            lemma_distinct_kept(self.sounds(), sound@);
        }
        match self.find(sound.id.as_str()) {
            Some(at) => {
                proof {
                    assert(sound_views(self.sounds@.update(at as int, sound)) =~= with_sound(
                        self.sounds(),
                        sound@,
                    ));
                }
                self.sounds[at] = sound;
            },
            None => {
                proof {
                    assert(sound_views(self.sounds@.push(sound)) =~= with_sound(
                        self.sounds(),
                        sound@,
                    ));
                }
                self.sounds.push(sound);
            },
        }
    }

    /// Adds a sound for a file, with the identifier and the file's stem
    /// given: it gets the next place, full volume, no key and no trim. The
    /// sound is returned as it was stored.
    pub fn add_sound(&mut self, id: String, stem: Option<String>, file_path: String) -> (r: Sound)
        requires
            old(self).wf(),
        ensures
            final(self).wf(),
            r@ == fresh_sound(
                id@,
                match stem {
                    Some(s) => s@,
                    None => untitled(),
                },
                file_path@,
                place_of(old(self).sounds().len() as int),
            ),
            final(self).sounds() == with_sound(old(self).sounds(), r@),
            final(self).settings() == old(self).settings(),
    {
        let order = place(self.sounds.len());
        let sound = Sound {
            id,
            name: sound_name(stem),
            keybind: None,
            volume: 1_000_000,
            file_path,
            start_ms: None,
            end_ms: None,
            order,
        };
        let copy = sound.clone();
        self.insert_sound(sound);
        copy
    }

    /// Takes out the sound with this identifier, if there is one.
    pub fn remove_sound(&mut self, id: &str)
        requires
            old(self).wf(),
        ensures
            final(self).wf(),
            final(self).sounds() == without_sound(old(self).sounds(), id@),
            final(self).settings() == old(self).settings(),
    {
        proof {
            lemma_distinct_kept(self.sounds(), SoundView { id: id@, ..arbitrary() });
        }
        match self.find(id) {
            Some(at) => {
                proof {
                    assert(sound_views(self.sounds@.remove(at as int)) =~= without_sound(
                        self.sounds(),
                        id@,
                    ));
                }
                self.sounds.remove(at);
            },
            None => {},
        }
    }

    /// Puts `sound`, a changed copy of the sound at `at`, back in its place.
    fn put_back(&mut self, at: usize, sound: Sound)
        requires
            old(self).wf(),
            at < old(self).sounds@.len(),
            sound@.id == old(self).sounds()[at as int].id,
        ensures
            final(self).wf(),
            final(self).sounds() == old(self).sounds().update(at as int, sound@),
            final(self).settings() == old(self).settings(),
    {
        let ghost before = self.sounds();
        proof {
            assert(sound_views(self.sounds@.update(at as int, sound)) =~= before.update(
                at as int,
                sound@,
            ));
            let after = before.update(at as int, sound@);
            assert forall|i: int, j: int| 0 <= i < j < after.len() implies (
            #[trigger] after[i]).id != (#[trigger] after[j]).id by {
                assert(before[i].id != before[j].id);
            }
        }
        self.sounds[at] = sound;
    }

    /// Binds the sound with this identifier to a chord, or to none. Without
    /// such a sound nothing changes.
    pub fn update_sound_keybind(&mut self, id: &str, keybind: Option<String>)
        requires
            old(self).wf(),
        ensures
            final(self).wf(),
            final(self).sounds() == with_changed(
                old(self).sounds(),
                id@,
                |s: SoundView| SoundView { keybind: text_of(keybind), ..s },
            ),
            final(self).settings() == old(self).settings(),
    {
        match self.find(id) {
            Some(at) => {
                let mut sound = self.sounds[at].clone();
                sound.keybind = keybind;
                self.put_back(at, sound);
            },
            None => {},
        }
    }

    /// Sets the trim bounds of the sound with this identifier. Without such a
    /// sound nothing changes.
    pub fn update_sound_trim(&mut self, id: &str, start_ms: Option<u64>, end_ms: Option<u64>)
        requires
            old(self).wf(),
        ensures
            final(self).wf(),
            final(self).sounds() == with_changed(
                old(self).sounds(),
                id@,
                |s: SoundView| SoundView { start_ms, end_ms, ..s },
            ),
            final(self).settings() == old(self).settings(),
    {
        match self.find(id) {
            Some(at) => {
                let mut sound = self.sounds[at].clone();
                sound.start_ms = start_ms;
                sound.end_ms = end_ms;
                self.put_back(at, sound);
            },
            None => {},
        }
    }

    /// Gives the sound with this identifier a place in the board's order.
    fn set_place(&mut self, id: &str, order: i32)
        requires
            old(self).wf(),
        ensures
            final(self).wf(),
            final(self).sounds() == with_changed(
                old(self).sounds(),
                id@,
                |s: SoundView| SoundView { order, ..s },
            ),
            final(self).settings() == old(self).settings(),
    {
        match self.find(id) {
            Some(at) => {
                let mut sound = self.sounds[at].clone();
                sound.order = order;
                self.put_back(at, sound);
            },
            None => {},
        }
    }

    /// Puts the sounds in the order of `ids`: each identifier gives its
    /// sound the place that goes with the identifier's position. An
    /// identifier without a sound is passed over.
    pub fn update_sound_order(&mut self, ids: &Vec<String>)
        requires
            old(self).wf(),
        ensures
            final(self).wf(),
            final(self).sounds() == reordered(
                old(self).sounds(),
                ids@.map_values(|s: String| s@),
                ids.len() as int,
            ),
            final(self).settings() == old(self).settings(),
    {
        let ghost texts = ids@.map_values(|s: String| s@);
        let ghost start = self.sounds();
        let ghost kept = self.settings();
        let mut i: usize = 0;
        while i < ids.len()
            invariant
                i <= ids.len(),
                self.wf(),
                texts == ids@.map_values(|s: String| s@),
                self.sounds() == reordered(start, texts, i as int),
                self.settings() == kept,
            decreases ids.len() - i,
        {
            proof {
                assert(texts[i as int] == ids@[i as int]@);
            }
            self.set_place(ids[i].as_str(), place(i));
            i += 1;
        }
    }
}

} // verus!
