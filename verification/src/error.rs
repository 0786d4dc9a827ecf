//! Error taxonomy of the library.

use vstd::prelude::*;

verus! {

/// Everything that can go wrong while converting text to audio.
///
/// Remote-service failures carry the transport's message; audio failures
/// carry a description of the malformed container, including the index
/// of the offending segment when several were merged.
#[derive(Debug)]
pub enum Error {
    /// The chat service failed or answered in an unexpected shape.
    AiApi(String),
    /// The speech-synthesis service failed or answered with no audio.
    TtsApi(String),
    /// An audio buffer was empty or its container could not be parsed.
    Audio(String),
    /// A local file operation failed.
    Io(String),
    /// The audio container library reported an error.
    Hound(String),
    /// An HTTP transport error.
    Http(String),
    /// An invalid configuration value was supplied.
    Config(String),
    /// The input text was empty or whitespace-only.
    EmptyInput,
}

} // verus!
