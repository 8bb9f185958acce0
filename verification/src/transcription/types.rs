use vstd::prelude::*;
use crate::error::WhisperCatError;

verus! {

#[derive(Debug, Clone, Copy, PartialEq, Eq, Structural)]
pub enum TranscriptionProvider {
    OpenAI,
    FasterWhisper,
    OpenWebUI,
}

/// The display name of a provider.
pub open spec fn provider_name(p: TranscriptionProvider) -> Seq<char> {
    match p {
        TranscriptionProvider::OpenAI => "OpenAI"@,
        TranscriptionProvider::FasterWhisper => "Faster-Whisper"@,
        TranscriptionProvider::OpenWebUI => "Open WebUI"@,
    }
}

impl TranscriptionProvider {
    pub fn as_str(&self) -> (r: &'static str)
        ensures
            r@ == provider_name(*self),
    {
        match self {
            TranscriptionProvider::OpenAI => "OpenAI",
            TranscriptionProvider::FasterWhisper => "Faster-Whisper",
            TranscriptionProvider::OpenWebUI => "Open WebUI",
        }
    }
}

/// One chat message of a completion exchange.
#[derive(Debug)]
pub struct ChatMessage {
    pub role: String,
    pub content: String,
}

impl Clone for ChatMessage {
    fn clone(&self) -> (r: Self)
        ensures
            r == *self,
    {
        ChatMessage { role: self.role.clone(), content: self.content.clone() }
    }
}

/// One returned choice of a completion exchange.
#[derive(Debug)]
pub struct ChatChoice {
    pub message: ChatMessage,
    pub finish_reason: Option<String>,
}

impl Clone for ChatChoice {
    fn clone(&self) -> (r: Self)
        ensures
            r == *self,
    {
        ChatChoice {
            message: self.message.clone(),
            finish_reason: crate::pipeline::clone_opt_string(&self.finish_reason),
        }
    }
}

/// What the completion service sends back.
#[derive(Debug)]
pub struct ChatCompletionResponse {
    pub choices: Vec<ChatChoice>,
}

/// The default model each provider starts with.
pub open spec fn default_model_name(p: TranscriptionProvider) -> Seq<char> {
    match p {
        TranscriptionProvider::OpenAI => "whisper-1"@,
        TranscriptionProvider::FasterWhisper => "Systran/faster-whisper-large-v3"@,
        TranscriptionProvider::OpenWebUI => "whisper-1"@,
    }
}

/// The default model for a provider, as `default_model_name` describes.
pub fn default_model(provider: TranscriptionProvider) -> (r: String)
    ensures
        r@ == default_model_name(provider),
{
    match provider {
        TranscriptionProvider::OpenAI => "whisper-1".to_owned(),
        TranscriptionProvider::FasterWhisper => "Systran/faster-whisper-large-v3".to_owned(),
        TranscriptionProvider::OpenWebUI => "whisper-1".to_owned(),
    }
}

/// The text of the first returned choice; a response without choices is a
/// service error with status 500.
pub fn extract_chat_content(response: &ChatCompletionResponse) -> (r: Result<
    String,
    WhisperCatError,
>)
    ensures
        r is Ok <==> response.choices@.len() > 0,
        r is Ok ==> r->Ok_0 == response.choices@[0].message.content,
        r is Err ==> r->Err_0 is ApiError && r->Err_0->status == 500 && r->Err_0->message@
            == "No response from API"@,
{
    if response.choices.len() > 0 {
        Ok(response.choices[0].message.content.clone())
    } else {
        Err(
            WhisperCatError::ApiError {
                status: 500,
                message: "No response from API".to_owned(),
            },
        )
    }
}

} // verus!
