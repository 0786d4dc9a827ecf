//! The remote-service client surface: model selection, synthesis
//! parameters, and the decisions and validations around the two remote
//! operations (chat completion and text-to-speech).
//!
//! The network calls themselves are asynchronous I/O and live outside
//! the library; the library decides which call to make, fixes what is
//! sent, and validates what comes back.

use vstd::prelude::*;

use crate::config::Voice;
use crate::error::Error;

verus! {

/// The chat model used for semantic text splitting.
#[derive(Debug, Clone, Copy, PartialEq, Eq, Structural)]
pub enum Model {
    /// Latest flagship model.
    GLM4_7,
    /// Advanced reasoning model.
    GLM4_6,
    /// Advanced reasoning model. Transports whose service catalogue no
    /// longer carries this model may substitute its nearest relative,
    /// so selecting it need not reach the model of this wire name.
    GLM4_5,
    /// Optimized for speed (the default).
    GLM4_5Flash,
    /// Lightweight and cost-effective.
    GLM4_5Air,
}

/// The wire name of a model.
pub open spec fn spec_model_name(m: Model) -> Seq<char> {
    match m {
        Model::GLM4_7 => "glm-4.7"@,
        Model::GLM4_6 => "glm-4.6"@,
        Model::GLM4_5 => "glm-4.5"@,
        Model::GLM4_5Flash => "glm-4.5-flash"@,
        Model::GLM4_5Air => "glm-4.5-air"@,
    }
}

/// Whether a model supports the thinking augmentation; the flash and air
/// variants do not, and a request must not ask them for it.
pub open spec fn spec_supports_thinking(m: Model) -> bool {
    m == Model::GLM4_7 || m == Model::GLM4_6 || m == Model::GLM4_5
}

impl Model {
    /// The model's wire name.
    pub fn as_str(&self) -> (r: &'static str)
        ensures
            r@ == spec_model_name(*self),
    {
        match self {
            Model::GLM4_7 => "glm-4.7",
            Model::GLM4_6 => "glm-4.6",
            Model::GLM4_5 => "glm-4.5",
            Model::GLM4_5Flash => "glm-4.5-flash",
            Model::GLM4_5Air => "glm-4.5-air",
        }
    }

    /// Whether the model accepts a thinking request.
    pub fn supports_thinking(&self) -> (r: bool)
        ensures
            r == spec_supports_thinking(*self),
    {
        match self {
            Model::GLM4_7 => true,
            Model::GLM4_6 => true,
            Model::GLM4_5 => true,
            Model::GLM4_5Flash => false,
            Model::GLM4_5Air => false,
        }
    }
}

impl Default for Model {
    /// The model used when none is chosen.
    fn default() -> (r: Self)
        ensures
            r == Model::GLM4_5Flash,
    {
        Model::GLM4_5Flash
    }
}

/// Parameters of one synthesis request. Speed and volume are fixed-point
/// values in hundredths: a speed of 100 is the natural rate, a volume of
/// 100 the natural loudness.
#[derive(Debug, Clone, Copy, PartialEq, Eq, Structural)]
pub struct TtsConfig {
    pub voice: Voice,
    pub speed: u32,
    pub volume: u32,
}

impl Default for TtsConfig {
    /// Natural rate and loudness with the default voice.
    fn default() -> (r: Self)
        ensures
            r == (TtsConfig { voice: Voice::Tongtong, speed: 100, volume: 100 }),
    {
        TtsConfig { voice: Voice::Tongtong, speed: 100, volume: 100 }
    }
}

/// The system message that frames every splitting conversation.
pub open spec fn spec_system_prompt() -> Seq<char> {
    "作为全球顶级的语言学家，你取得了全球所有语种博士学位，\n            并且每种语言都拥有100年的使用经验。根据提供的文本，按照语义学进行分段。"@
}

/// Credentials and options shared by every remote call.
pub struct Client {
    pub api_key: String,
    pub model: Model,
    pub thinking: bool,
    pub coding_plan: bool,
}

impl Client {
    /// A client with default settings.
    pub fn new(api_key: &str) -> (r: Self)
        ensures
            r.api_key@ == api_key@,
            r.model == Model::GLM4_5Flash,
            !r.thinking,
            !r.coding_plan,
    {
        Client { api_key: api_key.to_owned(), model: Model::default(), thinking: false, coding_plan: false }
    }

    /// Choose the chat model.
    pub fn with_model(self, model: Model) -> (r: Self)
        ensures
            r == (Client { model, ..self }),
    {
        Client { model, ..self }
    }

    /// Enable or disable thinking mode for chat completion.
    pub fn with_thinking(self, enable: bool) -> (r: Self)
        ensures
            r == (Client { thinking: enable, ..self }),
    {
        Client { thinking: enable, ..self }
    }

    /// Enable or disable the coding-plan endpoint.
    pub fn with_coding_plan(self, enable: bool) -> (r: Self)
        ensures
            r == (Client { coding_plan: enable, ..self }),
    {
        Client { coding_plan: enable, ..self }
    }

    /// Whether a chat request from this client asks for thinking: only
    /// when it was enabled and the chosen model supports it.
    pub fn uses_thinking(&self) -> (r: bool)
        ensures
            r == (self.thinking && spec_supports_thinking(self.model)),
    {
        self.thinking && self.model.supports_thinking()
    }

    /// The system message sent with every chat request.
    pub fn system_prompt() -> (r: &'static str)
        ensures
            r@ == spec_system_prompt(),
    {
        "作为全球顶级的语言学家，你取得了全球所有语种博士学位，\n            并且每种语言都拥有100年的使用经验。根据提供的文本，按照语义学进行分段。"
    }

    /// Accept the text of a chat reply, or report the format error used
    /// when the reply carried no text content.
    pub fn chat_content(content: Option<String>) -> (r: Result<String, Error>)
        ensures
            content is Some <==> r is Ok,
            r matches Ok(s) ==> content == Some(s),
            r matches Err(e) ==> e matches Error::AiApi(m) && m@ == "Invalid AI response format"@,
    {
        match content {
            Some(s) => Ok(s),
            None => Err(Error::AiApi("Invalid AI response format".to_owned())),
        }
    }

    /// Accept the bytes of a synthesis reply; an empty body is an error.
    pub fn tts_audio(bytes: Vec<u8>) -> (r: Result<Vec<u8>, Error>)
        ensures
            bytes@.len() > 0 <==> r is Ok,
            r matches Ok(b) ==> b@ == bytes@,
            r matches Err(e) ==> e matches Error::TtsApi(m) && m@ == "Received empty audio data"@,
    {
        if bytes.len() == 0 {
            Err(Error::TtsApi("Received empty audio data".to_owned()))
        } else {
            Ok(bytes)
        }
    }
}

} // verus!
