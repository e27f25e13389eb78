//! Chords in the notation of the desktop shell's global shortcuts.

use crate::text::{from_chars, to_chars};
use vstd::prelude::*;

verus! {

/// `s` with every occurrence of `from` replaced by `to`. Occurrences are
/// found from the left and do not overlap. An empty `from` occurs nowhere.
pub open spec fn replace_all(s: Seq<char>, from: Seq<char>, to: Seq<char>) -> Seq<char>
    decreases s.len(),
{
    if from.len() == 0 || s.len() < from.len() {
        s
    } else if s.subrange(0, from.len() as int) == from {
        to + replace_all(s.skip(from.len() as int), from, to)
    } else {
        seq![s[0]] + replace_all(s.skip(1), from, to)
    }
}

/// Whether `from` stands in `s` at position `at`.
fn occurs_at(s: &Vec<char>, at: usize, from: &Vec<char>) -> (r: bool)
    requires
        at <= s.len(),
    ensures
        r == (at + from.len() <= s.len() && s@.subrange(at as int, at + from.len()) == from@),
{
    if from.len() > s.len() - at {
        return false;
    }
    let mut k: usize = 0;
    while k < from.len()
        invariant
            k <= from.len(),
            at + from.len() <= s.len(),
            forall|j: int| 0 <= j < k ==> s@[at + j] == from@[j],
        decreases from.len() - k,
    {
        if s[at + k] != from[k] {
            proof {
                assert(s@.subrange(at as int, at + from.len())[k as int] == s@[at + k]);
            }
            return false;
        }
        k += 1;
    }
    proof {
        assert(s@.subrange(at as int, at + from.len()) =~= from@);
    }
    true
}

/// Replaces every occurrence of `from` in `s` by `to`.
pub fn replace_chars(s: &Vec<char>, from: &Vec<char>, to: &Vec<char>) -> (r: Vec<char>)
    ensures
        r@ == replace_all(s@, from@, to@),
{
    let mut out: Vec<char> = Vec::new();
    let mut i: usize = 0;
    proof {
        assert(s@.skip(0) =~= s@);
        assert(out@ + replace_all(s@, from@, to@) =~= replace_all(s@, from@, to@));
    }
    while i < s.len()
        invariant
            i <= s.len(),
            out@ + replace_all(s@.skip(i as int), from@, to@) == replace_all(s@, from@, to@),
        decreases s.len() - i,
    {
        let ghost rest = s@.skip(i as int);
        let ghost before = out@;
        if from.len() > 0 && occurs_at(s, i, from) {
            proof {
                assert(rest.subrange(0, from.len() as int) =~= s@.subrange(
                    i as int,
                    i + from.len(),
                ));
                assert(rest.skip(from.len() as int) =~= s@.skip(i + from.len()));
            }
            let mut k: usize = 0;
            while k < to.len()
                invariant
                    k <= to.len(),
                    out@ == before + to@.take(k as int),
                decreases to.len() - k,
            {
                out.push(to[k]);
                proof {
                    assert(to@.take(k + 1) =~= to@.take(k as int).push(to@[k as int]));
                }
                k += 1;
            }
            proof {
                assert(to@.take(k as int) =~= to@);
                let tail = replace_all(s@.skip(i + from.len()), from@, to@);
                assert((before + to@) + tail =~= before + (to@ + tail));
            }
            i += from.len();
        } else {
            proof {
                if from.len() == 0 {
                    let tail = s@.skip(i + 1);
                    assert(before.push(s@[i as int]) + tail =~= before + rest);
                } else if rest.len() >= from.len() {
                    assert(rest.subrange(0, from.len() as int) =~= s@.subrange(
                        i as int,
                        i + from.len(),
                    ));
                    assert(rest.skip(1) =~= s@.skip(i + 1));
                    let tail = replace_all(s@.skip(i + 1), from@, to@);
                    assert(before.push(s@[i as int]) + tail =~= before + (seq![rest[0]] + tail));
                } else {
                    let shorter = s@.skip(i + 1);
                    assert(shorter.len() < from.len());
                    assert(before.push(s@[i as int]) + shorter =~= before + rest);
                }
            }
            out.push(s[i]);
            i += 1;
        }
    }
    proof {
        assert(s@.skip(i as int) =~= Seq::<char>::empty());
        assert(out@ + Seq::<char>::empty() =~= out@);
    }
    out
}

/// A chord as written by the front end, in the notation of global
/// shortcuts: the front end's key names give way to the shell's, one name
/// after the other, each over the whole text as the names before it left it.
pub open spec fn accelerator_of(keybind: Seq<char>) -> Seq<char> {
    let s = replace_all(keybind, "CONTROL"@, "Ctrl"@);
    let s = replace_all(s, "SHIFT"@, "Shift"@);
    let s = replace_all(s, "ALT"@, "Alt"@);
    let s = replace_all(s, "META"@, "Super"@);
    let s = replace_all(s, "SPACE"@, "Space"@);
    let s = replace_all(s, "ARROWUP"@, "Up"@);
    let s = replace_all(s, "ARROWDOWN"@, "Down"@);
    let s = replace_all(s, "ARROWLEFT"@, "Left"@);
    let s = replace_all(s, "ARROWRIGHT"@, "Right"@);
    let s = replace_all(s, "ESCAPE"@, "Escape"@);
    let s = replace_all(s, "ENTER"@, "Return"@);
    let s = replace_all(s, "BACKSPACE"@, "Backspace"@);
    let s = replace_all(s, "DELETE"@, "Delete"@);
    replace_all(s, "TAB"@, "Tab"@)
}

/// Replaces a name given as literal text.
fn rename(s: Vec<char>, from: &str, to: &str) -> (r: Vec<char>)
    ensures
        r@ == replace_all(s@, from@, to@),
{
    let from_chars = to_chars(from);
    let to_chars = to_chars(to);
    replace_chars(&s, &from_chars, &to_chars)
}

/// Converts a chord as written by the front end to the notation of global
/// shortcuts.
pub fn convert_keybind_to_accelerator(keybind: &str) -> (r: String)
    ensures
        r@ == accelerator_of(keybind@),
{
    let s = to_chars(keybind);
    let s = rename(s, "CONTROL", "Ctrl");
    let s = rename(s, "SHIFT", "Shift");
    let s = rename(s, "ALT", "Alt");
    let s = rename(s, "META", "Super");
    let s = rename(s, "SPACE", "Space");
    let s = rename(s, "ARROWUP", "Up");
    let s = rename(s, "ARROWDOWN", "Down");
    let s = rename(s, "ARROWLEFT", "Left");
    let s = rename(s, "ARROWRIGHT", "Right");
    let s = rename(s, "ESCAPE", "Escape");
    let s = rename(s, "ENTER", "Return");
    let s = rename(s, "BACKSPACE", "Backspace");
    let s = rename(s, "DELETE", "Delete");
    let s = rename(s, "TAB", "Tab");
    from_chars(&s)
}

} // verus!
