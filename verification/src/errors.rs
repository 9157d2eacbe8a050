//! The failure reasons that every command of this layer can return.

use vstd::prelude::*;
use vstd::string::StringExecFns;

verus! {

/// Why a command failed.  Every operation of the library reports one of
/// these tagged reasons instead of a bare text, so that callers can branch
/// on the kind; `message` renders the display text.
#[derive(Debug)]
pub enum CommandError {
    /// The user dismissed a dialog before any file was touched.
    UserCancelled,
    /// A pixel buffer does not hold `width * height * 4` bytes.
    InvalidBuffer,
    /// A scalar input is outside its allowed range, such as a zero frame rate.
    InvalidInput,
    /// A save was requested on a project whose backing path is empty.
    InvalidPath,
    /// The filesystem reported an error; the payload is its message.
    IOFailure(String),
    /// The image or GIF codec reported an error; the payload is its message.
    EncodeFailure(String),
    /// Bytes that should hold an image or a project did not decode.
    DecodeFailure(String),
}

impl CommandError {
    /// Display text for this failure, for callers that show errors
    /// verbatim: a fixed phrase per kind, with the underlying detail
    /// appended where one was recorded.
    pub fn message(&self) -> (r: String)
        ensures
            match self {
                CommandError::UserCancelled => r@ == "the operation was cancelled"@,
                CommandError::InvalidBuffer => r@
                    == "a pixel buffer does not match its stated dimensions"@,
                CommandError::InvalidInput => r@
                    == "an input value is outside its allowed range"@,
                CommandError::InvalidPath => r@ == "the project has no usable backing path"@,
                CommandError::IOFailure(detail) => r@ == "i/o failure: "@ + detail@,
                CommandError::EncodeFailure(detail) => r@ == "encoding failed: "@ + detail@,
                CommandError::DecodeFailure(detail) => r@ == "decoding failed: "@ + detail@,
            },
    {
        match self {
            CommandError::UserCancelled => "the operation was cancelled".to_owned(),
            CommandError::InvalidBuffer => {
                "a pixel buffer does not match its stated dimensions".to_owned()
            },
            CommandError::InvalidInput => "an input value is outside its allowed range".to_owned(),
            CommandError::InvalidPath => "the project has no usable backing path".to_owned(),
            CommandError::IOFailure(detail) => {
                let mut text = "i/o failure: ".to_owned();
                text.append(detail.as_str());
                text
            },
            CommandError::EncodeFailure(detail) => {
                let mut text = "encoding failed: ".to_owned();
                text.append(detail.as_str());
                text
            },
            CommandError::DecodeFailure(detail) => {
                let mut text = "decoding failed: ".to_owned();
                text.append(detail.as_str());
                text
            },
        }
    }
}

} // verus!
