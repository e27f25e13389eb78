//! A sound of the board, and texts that may be absent.

use vstd::prelude::*;

verus! {

/// An optional text as a mathematical value.
pub open spec fn text_of(text: Option<String>) -> Option<Seq<char>> {
    match text {
        Some(s) => Some(s@),
        None => None,
    }
}

/// A copy of an optional text.
pub fn clone_text(text: &Option<String>) -> (r: Option<String>)
    ensures
        text_of(r) == text_of(*text),
{
    match text {
        Some(s) => Some(s.clone()),
        None => None,
    }
}

/// Whether two optional texts are equal.
pub fn same_text(a: &Option<String>, b: &Option<String>) -> (r: bool)
    ensures
        r == (text_of(*a) == text_of(*b)),
{
    match (a, b) {
        (Some(x), Some(y)) => *x == *y,
        (None, None) => true,
        _ => false,
    }
}

/// One sound of the board. Times are in milliseconds from the start of the
/// source, volumes in millionths of full volume.
#[derive(Debug, PartialEq, Eq)]
pub struct Sound {
    pub id: String,
    pub name: String,
    pub keybind: Option<String>,
    pub volume: u32,
    pub file_path: String,
    pub start_ms: Option<u64>,
    pub end_ms: Option<u64>,
    pub order: i32,
}

/// A sound as a mathematical value.
pub struct SoundView {
    pub id: Seq<char>,
    pub name: Seq<char>,
    pub keybind: Option<Seq<char>>,
    pub volume: u32,
    pub file_path: Seq<char>,
    pub start_ms: Option<u64>,
    pub end_ms: Option<u64>,
    pub order: i32,
}

impl View for Sound {
    type V = SoundView;

    open spec fn view(&self) -> SoundView {
        SoundView {
            id: self.id@,
            name: self.name@,
            keybind: text_of(self.keybind),
            volume: self.volume,
            file_path: self.file_path@,
            start_ms: self.start_ms,
            end_ms: self.end_ms,
            order: self.order,
        }
    }
}

impl Clone for Sound {
    fn clone(&self) -> (r: Self)
        ensures
            r@ == self@,
    {
        Sound {
            id: self.id.clone(),
            name: self.name.clone(),
            keybind: clone_text(&self.keybind),
            volume: self.volume,
            file_path: self.file_path.clone(),
            start_ms: self.start_ms,
            end_ms: self.end_ms,
            order: self.order,
        }
    }
}

/// The views of the sounds in a sequence.
pub open spec fn sound_views(sounds: Seq<Sound>) -> Seq<SoundView> {
    sounds.map_values(|s: Sound| s@)
}

/// The name given to a sound whose file has no usable stem.
pub open spec fn untitled() -> Seq<char> {
    "Untitled"@
}

/// The name of a new sound: the stem of its file, or `Untitled` without one.
pub fn sound_name(stem: Option<String>) -> (r: String)
    ensures
        r@ == match stem {
            Some(s) => s@,
            None => untitled(),
        },
{
    match stem {
        Some(s) => s,
        None => "Untitled".to_string(),
    }
}

/// The place in the board's order that goes with a position in a list: the
/// position itself, held to the largest place there is.
pub open spec fn place_of(position: int) -> i32 {
    if position <= i32::MAX {
        position as i32
    } else {
        i32::MAX
    }
}

/// The place in the board's order that goes with a position in a list.
pub fn place(position: usize) -> (r: i32)
    ensures
        r == place_of(position as int),
{
    if position <= 0x7FFF_FFFF {
        position as i32
    } else {
        i32::MAX
    }
}

/// A sound as it is when first added: full volume, no key bound, no trim.
pub open spec fn fresh_sound(
    id: Seq<char>,
    name: Seq<char>,
    file_path: Seq<char>,
    order: i32,
) -> SoundView {
    SoundView {
        id,
        name,
        keybind: None,
        volume: 1_000_000,
        file_path,
        start_ms: None,
        end_ms: None,
        order,
    }
}

} // verus!
