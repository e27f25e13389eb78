//! Taking a new sound in from a file on disk.

use crate::device::contains_text;
use crate::sound::{fresh_sound, place_of, untitled, Sound};
use crate::state::{with_sound, AudioState, BoardError};
use vstd::prelude::*;

verus! {

/// `uuid::Uuid::new_v4`, written out by its `Display` impl: a random
/// identifier in the hyphenated form, which is 36 characters long. Nothing is
/// claimed of which identifier comes back. The call panics where the
/// operating system has no source of random numbers.
#[verifier::external_body]
fn fresh_id() -> (r: String)
    ensures
        r@.len() == 36,
{
    uuid::Uuid::new_v4().to_string()
}

/// `std::path::Path::file_stem`, as text: the file name of the path without
/// its extension, where the path has a file name and it is valid Unicode.
/// Which part of the path that is depends on the platform's rules for
/// paths; all that is claimed is that it is a part of the path.
#[verifier::external_body]
fn file_stem(path: &str) -> (r: Option<String>)
    ensures
        r is Some ==> contains_text(path@, r.unwrap()@),
{
    Some(std::path::Path::new(path).file_stem()?.to_str()?.to_string())
}

impl AudioState {
    /// Adds a sound for the file at `file_path`, under a fresh random
    /// identifier and named after the file: by a part of the path, or
    /// `Untitled`. `file_exists` says whether the
    /// file is there; without it nothing is added.
    pub fn add_sound_from_path(&mut self, file_path: String, file_exists: bool) -> (r: Result<
        Sound,
        BoardError,
    >)
        requires
            old(self).wf(),
        ensures
            final(self).wf(),
            final(self).settings() == old(self).settings(),
            match r {
                Ok(sound) => {
                    &&& file_exists
                    &&& sound@.id.len() == 36
                    &&& sound@.name == untitled() || contains_text(file_path@, sound@.name)
                    &&& sound@ == fresh_sound(
                        sound@.id,
                        sound@.name,
                        file_path@,
                        place_of(old(self).sounds().len() as int),
                    )
                    &&& final(self).sounds() == with_sound(old(self).sounds(), sound@)
                },
                Err(e) => {
                    &&& !file_exists
                    &&& e == BoardError::FileNotFound
                    &&& final(self).sounds() == old(self).sounds()
                },
            },
    {
        if !file_exists {
            return Err(BoardError::FileNotFound);
        }
        let stem = file_stem(file_path.as_str());
        let id = fresh_id();
        Ok(self.add_sound(id, stem, file_path))
    }
}

} // verus!
