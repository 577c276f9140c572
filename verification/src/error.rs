//! Failures reported while opening a container or decoding a frame.

use vstd::prelude::*;
use vstd::string::StringExecFns;

verus! {

/// What went wrong.
#[derive(Clone, Copy, Debug, PartialEq, Eq, Structural)]
pub enum VideoErrorKind {
    /// The byte layout of the container is broken: a truncated tag or a
    /// chunk that reaches past the end of its parent.
    MalformedContainer,
    /// A required list is absent from where it has to be.
    MissingMandatoryList,
    /// A required chunk is absent from where it has to be.
    MissingMandatoryChunk,
    /// The pixel format is a known one that is not decoded here.
    UnsupportedPixelFormat,
    /// The pixel format declares a bit depth that has no meaning.
    InvalidPixelFormat,
    /// The requested frame does not exist.
    FrameIndexOutOfRange,
    /// The frame holds fewer bytes than its dimensions call for.
    CorruptFrameData,
}

/// The description carried by every failure.
#[derive(Debug)]
pub struct AviError {
    pub message: String,
}

impl AviError {
    /// A description that reads `message`.
    pub fn new(message: String) -> (e: Self)
        ensures
            e.message == message,
    {
        Self { message }
    }

    /// The description as it is shown to a user.
    pub fn to_string(&self) -> (s: String)
        ensures
            s@ == "AviError: "@ + self.message@,
    {
        String::from_str("AviError: ").concat(self.message.as_str())
    }
}

/// A failure as the contracts see it.
pub struct Failure {
    pub kind: VideoErrorKind,
    pub message: Seq<char>,
}

/// A failure: its kind and its description.
#[derive(Debug)]
pub struct VideoError {
    pub kind: VideoErrorKind,
    pub error: AviError,
}

/// What a fallible step came to, as the contracts see it.
pub open spec fn outcome<T>(result: Result<T, VideoError>) -> Result<T, Failure> {
    match result {
        Ok(value) => Ok(value),
        Err(e) => Err(e@),
    }
}

impl View for VideoError {
    type V = Failure;

    open spec fn view(&self) -> Failure {
        Failure { kind: self.kind, message: self.error.message@ }
    }
}

impl VideoError {
    /// A failure of the given kind with the given description.
    pub fn new(kind: VideoErrorKind, error: AviError) -> (e: Self)
        ensures
            e.kind == kind,
            e.error == error,
    {
        Self { kind, error }
    }

    /// A failure of the given kind that carries `message`.
    pub fn with_message(kind: VideoErrorKind, message: &str) -> (e: Self)
        ensures
            e@ == (Failure { kind, message: message@ }),
    {
        Self { kind, error: AviError::new(String::from_str(message)) }
    }

    /// The description as it is shown to a user.
    pub fn to_string(&self) -> (s: String)
        ensures
            s@ == "AviError: "@ + self.error.message@,
    {
        self.error.to_string()
    }
}

} // verus!
