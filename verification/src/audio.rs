//! The audio channel (not yet listening).
use vstd::prelude::*;

verus! {

#[derive(Debug, Default)]
pub struct Audio;

impl Audio {
    pub fn new() -> (r: Audio) {
        Audio
    }

    /// The channel's status: `audio_ok`.
    pub fn peek(&self) -> (r: String)
        ensures
            r@ == "audio_ok"@,
    {
        String::from_str("audio_ok")
    }
}

} // verus!
