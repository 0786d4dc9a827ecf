//! Voice selection for speech synthesis.

use vstd::prelude::*;

verus! {

/// The voices the synthesis service offers.
#[derive(Debug, Clone, Copy, PartialEq, Eq, Structural)]
pub enum Voice {
    Tongtong,
    Chuichui,
    Xiaochen,
    Jam,
    Kazi,
    Douji,
    Luodo,
}

/// The display name of a voice.
pub open spec fn spec_voice_name(v: Voice) -> Seq<char> {
    match v {
        Voice::Tongtong => "Tongtong"@,
        Voice::Chuichui => "Chuichui"@,
        Voice::Xiaochen => "Xiaochen"@,
        Voice::Jam => "Jam"@,
        Voice::Kazi => "Kazi"@,
        Voice::Douji => "Douji"@,
        Voice::Luodo => "Luodo"@,
    }
}

impl Voice {
    /// The voice's name.
    pub fn as_str(&self) -> (r: &'static str)
        ensures
            r@ == spec_voice_name(*self),
    {
        match self {
            Voice::Tongtong => "Tongtong",
            Voice::Chuichui => "Chuichui",
            Voice::Xiaochen => "Xiaochen",
            Voice::Jam => "Jam",
            Voice::Kazi => "Kazi",
            Voice::Douji => "Douji",
            Voice::Luodo => "Luodo",
        }
    }

    /// The voice's name as an owned string, for display.
    pub fn display_string(&self) -> (r: String)
        ensures
            r@ == spec_voice_name(*self),
    {
        self.as_str().to_owned()
    }
}

impl Default for Voice {
    /// The voice used when none is chosen.
    fn default() -> (r: Self)
        ensures
            r == Voice::Tongtong,
    {
        Voice::Tongtong
    }
}

} // verus!
