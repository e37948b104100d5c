//! The errors that rendering reports.
use vstd::prelude::*;

verus! {

/// What a renderer reports when it cannot do what it was asked.
#[derive(Debug, Clone, PartialEq, Eq)]
pub enum PlayerError {
    /// A request that cannot be served.
    Renderer(String),
    /// A request that can be served later, once the surface has room.
    RendererBackpressure(String),
}

impl PlayerError {
    /// The error is `Renderer` with exactly this text.
    pub open spec fn says(self, text: Seq<char>) -> bool {
        match self {
            PlayerError::Renderer(message) => message@ == text,
            PlayerError::RendererBackpressure(_) => false,
        }
    }

    /// The error is `RendererBackpressure` with exactly this text.
    pub open spec fn defers(self, text: Seq<char>) -> bool {
        match self {
            PlayerError::Renderer(_) => false,
            PlayerError::RendererBackpressure(message) => message@ == text,
        }
    }

    /// The text of the error, whichever kind it is.
    pub open spec fn text(self) -> Seq<char> {
        match self {
            PlayerError::Renderer(message) => message@,
            PlayerError::RendererBackpressure(message) => message@,
        }
    }

    /// The text of the error.
    pub fn message(&self) -> (message: &str)
        ensures
            message@ == self.text(),
    {
        match self {
            PlayerError::Renderer(message) => message.as_str(),
            PlayerError::RendererBackpressure(message) => message.as_str(),
        }
    }
}

/// A `Renderer` error with the given text.
pub fn renderer_error(text: &str) -> (error: PlayerError)
    ensures
        error.says(text@),
{
    PlayerError::Renderer(text.to_owned())
}

/// A `RendererBackpressure` error with the given text.
pub fn backpressure_error(text: &str) -> (error: PlayerError)
    ensures
        error.defers(text@),
{
    PlayerError::RendererBackpressure(text.to_owned())
}

} // verus!
