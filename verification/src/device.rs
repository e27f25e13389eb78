//! Choosing the output device for a playback.

use crate::text::to_chars;
use vstd::prelude::*;

verus! {

/// The lower-case form of a text, as the standard library computes it from
/// the Unicode tables.
pub uninterp spec fn lowercase_of(text: Seq<char>) -> Seq<char>;

/// `str::to_lowercase`: the result is the lower-case form of the argument.
/// Nothing more is claimed of it.
#[verifier::external_body]
fn lowercase(text: &str) -> (r: String)
    ensures
        r@ == lowercase_of(text@),
{
    text.to_lowercase()
}

/// Whether `needle` stands in `hay` at position `at`.
pub open spec fn occurs_in(hay: Seq<char>, needle: Seq<char>, at: int) -> bool {
    0 <= at && at + needle.len() <= hay.len() && hay.subrange(at, at + needle.len()) == needle
}

/// Whether `needle` stands somewhere in `hay`.
pub open spec fn contains_text(hay: Seq<char>, needle: Seq<char>) -> bool {
    exists|at: int| occurs_in(hay, needle, at)
}

/// Whether `needle` stands somewhere in `hay`.
pub fn text_contains(hay: &str, needle: &str) -> (r: bool)
    ensures
        r == contains_text(hay@, needle@),
{
    let h = to_chars(hay);
    let n = to_chars(needle);
    if n.len() > h.len() {
        return false;
    }
    let last: usize = h.len() - n.len();
    let mut at: usize = 0;
    loop
        invariant
            h@ == hay@,
            n@ == needle@,
            last == h.len() - n.len(),
            n.len() <= h.len(),
            at <= last,
            forall|a: int| 0 <= a < at ==> !occurs_in(h@, n@, a),
        decreases last - at,
    {
        let mut k: usize = 0;
        let mut same = true;
        while k < n.len()
            invariant
                k <= n.len(),
                at + n.len() <= h.len(),
                same ==> forall|j: int| 0 <= j < k ==> h@[at + j] == n@[j],
                !same ==> !occurs_in(h@, n@, at as int),
            decreases n.len() - k,
        {
            if h[at + k] != n[k] {
                proof {
                    assert(h@.subrange(at as int, at + n.len())[k as int] == h@[at + k]);
                }
                same = false;
            }
            k += 1;
        }
        if same {
            proof {
                assert(h@.subrange(at as int, at + n.len()) =~= n@);
                assert(occurs_in(h@, n@, at as int));
            }
            return true;
        }
        if at == last {
            return false;
        }
        at += 1;
    }
}

/// The names of the output devices as plain text; a device whose name cannot
/// be read has none.
pub open spec fn names_of(devices: Seq<Option<String>>) -> Seq<Option<Seq<char>>> {
    devices.map_values(
        |d: Option<String>|
            match d {
                Some(name) => Some(name@),
                None => None,
            },
    )
}

/// Whether a device answers to the name that was asked for: its own name,
/// in lower case, contains the one asked for, in lower case.
pub open spec fn answers_to(device: Option<Seq<char>>, wanted: Seq<char>) -> bool {
    match device {
        Some(name) => contains_text(lowercase_of(name), lowercase_of(wanted)),
        None => false,
    }
}

/// The first device from position `from` on that answers to `wanted`.
pub open spec fn first_answering(
    devices: Seq<Option<Seq<char>>>,
    wanted: Seq<char>,
    from: int,
) -> Option<int>
    decreases devices.len() - from,
{
    if from < 0 || from >= devices.len() {
        None
    } else if answers_to(devices[from], wanted) {
        Some(from)
    } else {
        first_answering(devices, wanted, from + 1)
    }
}

/// Where a playback goes.
#[derive(Clone, Copy, Debug, PartialEq, Eq, Structural)]
pub enum DeviceChoice {
    /// The device at this position of the list of output devices.
    Listed(usize),
    /// The system's default output device.
    SystemDefault,
}

/// The device for a playback: the first one that answers to the name asked
/// for; the system's default where none does or no name was given.
pub open spec fn chosen_device(
    devices: Seq<Option<Seq<char>>>,
    wanted: Option<Seq<char>>,
) -> DeviceChoice {
    match wanted {
        Some(name) => match first_answering(devices, name, 0) {
            Some(at) => DeviceChoice::Listed(at as usize),
            None => DeviceChoice::SystemDefault,
        },
        None => DeviceChoice::SystemDefault,
    }
}

/// The first answering device is in the list, answers, and has none before it
/// that answers; without one, no device answers.
pub proof fn lemma_first_answering(devices: Seq<Option<Seq<char>>>, wanted: Seq<char>, from: int)
    requires
        0 <= from,
    ensures
        match first_answering(devices, wanted, from) {
            Some(at) => from <= at < devices.len() && answers_to(devices[at], wanted) && forall|
                j: int,
            |
                from <= j < at ==> !answers_to(#[trigger] devices[j], wanted),
            None => forall|j: int|
                from <= j < devices.len() ==> !answers_to(#[trigger] devices[j], wanted),
        },
    decreases devices.len() - from,
{
    if from < devices.len() && !answers_to(devices[from], wanted) {
        lemma_first_answering(devices, wanted, from + 1);
    }
}

/// The position of the first name, already in lower case, that contains
/// `needle`. A device without a name is passed over.
pub fn first_containing(lowered: &Vec<Option<String>>, needle: &str) -> (r: Option<usize>)
    ensures
        match r {
            Some(at) => at < lowered.len() && lowered[at as int] is Some && contains_text(
                lowered[at as int].unwrap()@,
                needle@,
            ) && forall|j: int|
                0 <= j < at ==> !(lowered[j] is Some && contains_text(
                    (#[trigger] lowered[j]).unwrap()@,
                    needle@,
                )),
            None => forall|j: int|
                0 <= j < lowered.len() ==> !(lowered[j] is Some && contains_text(
                    (#[trigger] lowered[j]).unwrap()@,
                    needle@,
                )),
        },
{
    let mut i: usize = 0;
    while i < lowered.len()
        invariant
            i <= lowered.len(),
            forall|j: int|
                0 <= j < i ==> !(lowered[j] is Some && contains_text(
                    (#[trigger] lowered[j]).unwrap()@,
                    needle@,
                )),
        decreases lowered.len() - i,
    {
        let found = match &lowered[i] {
            Some(name) => text_contains(name.as_str(), needle),
            None => false,
        };
        if found {
            return Some(i);
        }
        i += 1;
    }
    None
}

/// Finds the output device that answers to `wanted`: the first whose name
/// contains it, letter case aside.
pub fn find_device_by_name(devices: &Vec<Option<String>>, wanted: &str) -> (r: Option<usize>)
    ensures
        match r {
            Some(at) => first_answering(names_of(devices@), wanted@, 0) == Some(at as int),
            None => first_answering(names_of(devices@), wanted@, 0) is None,
        },
{
    let needle = lowercase(wanted);
    let mut lowered: Vec<Option<String>> = Vec::new();
    let mut i: usize = 0;
    while i < devices.len()
        invariant
            i <= devices.len(),
            lowered.len() == i,
            forall|j: int|
                0 <= j < i ==> match devices[j] {
                    Some(name) => (#[trigger] lowered[j]) is Some && lowered[j].unwrap()@
                        == lowercase_of(name@),
                    None => lowered[j] is None,
                },
        decreases devices.len() - i,
    {
        let entry = match &devices[i] {
            Some(name) => Some(lowercase(name.as_str())),
            None => None,
        };
        lowered.push(entry);
        i += 1;
    }
    let r = first_containing(&lowered, needle.as_str());
    proof {
        let names = names_of(devices@);
        lemma_first_answering(names, wanted@, 0);
        assert forall|j: int| 0 <= j < devices.len() implies (answers_to(
            #[trigger] names[j],
            wanted@,
        ) <==> (lowered[j] is Some && contains_text(lowered[j].unwrap()@, needle@))) by {
            assert(lowered[j] is Some == devices[j] is Some);
        }
        match first_answering(names, wanted@, 0) {
            Some(at) => {
                assert(answers_to(names[at], wanted@));
                match r {
                    Some(found) => {
                        if found < at {
                            assert(!answers_to(names[found as int], wanted@));
                        } else if at < found {
                            assert(!(lowered[at] is Some && contains_text(
                                lowered[at].unwrap()@,
                                needle@,
                            )));
                        }
                    },
                    None => {
                        assert(!(lowered[at] is Some && contains_text(
                            lowered[at].unwrap()@,
                            needle@,
                        )));
                    },
                }
            },
            None => {
                match r {
                    Some(found) => {
                        assert(!answers_to(names[found as int], wanted@));
                    },
                    None => {},
                }
            },
        }
    }
    r
}

/// Chooses the device for a playback.
pub fn resolve_device(devices: &Vec<Option<String>>, wanted: &Option<String>) -> (r: DeviceChoice)
    ensures
        r == chosen_device(
            names_of(devices@),
            match wanted {
                Some(name) => Some(name@),
                None => None,
            },
        ),
{
    match wanted {
        Some(name) => match find_device_by_name(devices, name.as_str()) {
            Some(at) => DeviceChoice::Listed(at),
            None => DeviceChoice::SystemDefault,
        },
        None => DeviceChoice::SystemDefault,
    }
}

/// An output device as the front end sees it.
#[derive(Debug, PartialEq, Eq)]
pub struct AudioDevice {
    /// The position of the device in the system's list.
    pub id: i32,
    pub name: String,
}

/// The number under which the device at `position` is shown: the position
/// itself, held to the largest number there is.
pub open spec fn device_id(position: int) -> i32 {
    if position <= i32::MAX {
        position as i32
    } else {
        i32::MAX
    }
}

/// The devices among the first `upto` that can be shown: those with a name,
/// each under its position in the list.
pub open spec fn shown_devices(devices: Seq<Option<Seq<char>>>, upto: int) -> Seq<
    (i32, Seq<char>),
>
    decreases upto,
{
    if upto <= 0 {
        Seq::empty()
    } else {
        let before = shown_devices(devices, upto - 1);
        match devices[upto - 1] {
            Some(name) => before.push((device_id(upto - 1), name)),
            None => before,
        }
    }
}

/// The output devices for the front end. A device whose name cannot be read
/// is left out, and the others keep their positions as numbers.
pub fn get_audio_devices(devices: Vec<Option<String>>) -> (r: Vec<AudioDevice>)
    ensures
        r@.map_values(|d: AudioDevice| (d.id, d.name@)) == shown_devices(
            names_of(devices@),
            devices.len() as int,
        ),
{
    let mut out: Vec<AudioDevice> = Vec::new();
    let mut i: usize = 0;
    proof {
        assert(out@.map_values(|d: AudioDevice| (d.id, d.name@)) =~= shown_devices(
            names_of(devices@),
            0,
        ));
    }
    while i < devices.len()
        invariant
            i <= devices.len(),
            out@.map_values(|d: AudioDevice| (d.id, d.name@)) == shown_devices(
                names_of(devices@),
                i as int,
            ),
        decreases devices.len() - i,
    {
        match &devices[i] {
            Some(name) => {
                let id: i32 = if i <= 0x7FFF_FFFF {
                    i as i32
                } else {
                    i32::MAX
                };
                let device = AudioDevice { id, name: name.clone() };
                proof {
                    assert(out@.push(device).map_values(|d: AudioDevice| (d.id, d.name@))
                        =~= out@.map_values(|d: AudioDevice| (d.id, d.name@)).push(
                        (device.id, device.name@),
                    ));
                }
                out.push(device);
            },
            None => {},
        }
        i += 1;
    }
    out
}

} // verus!
