//! The failures of reading and writing a vocabulary file, and the messages
//! by which they are reported.

use vstd::prelude::*;
use vstd::string::StringExecFns;

verus! {

/// A failure of reading or writing a file. Each kind carries the detail that
/// the operating system gave.
#[derive(Debug)]
pub enum FileError {
    /// The file to read could not be opened.
    SourceUnavailable(String),
    /// The file to write could not be created or emptied.
    DestinationUnavailable(String),
    /// The text could not be written in full.
    WriteIncomplete(String),
}

/// What a message begins with where the destination could not be created.
pub open spec fn creation_prefix() -> Seq<char> {
    "파일 생성 실패: "@
}

/// What a message begins with where the text could not be written.
pub open spec fn write_prefix() -> Seq<char> {
    "파일 쓰기 실패: "@
}

impl FileError {
    /// The detail that the failure carries.
    pub open spec fn detail(self) -> Seq<char> {
        match self {
            FileError::SourceUnavailable(detail) => detail@,
            FileError::DestinationUnavailable(detail) => detail@,
            FileError::WriteIncomplete(detail) => detail@,
        }
    }

    /// The message of a failure: the detail as it stands for a source that
    /// could not be opened, and behind a prefix that tells the two apart for
    /// the two failures of writing.
    pub open spec fn message_text(self) -> Seq<char> {
        match self {
            FileError::SourceUnavailable(detail) => detail@,
            FileError::DestinationUnavailable(detail) => creation_prefix() + detail@,
            FileError::WriteIncomplete(detail) => write_prefix() + detail@,
        }
    }

    /// The message by which the failure is reported.
    pub fn message(&self) -> (text: String)
        ensures
            text@ == self.message_text(),
    {
        match self {
            FileError::SourceUnavailable(detail) => detail.clone(),
            FileError::DestinationUnavailable(detail) => {
                let mut text: String = String::from_str("파일 생성 실패: ");
                text.append(detail.as_str());
                text
            },
            FileError::WriteIncomplete(detail) => {
                let mut text: String = String::from_str("파일 쓰기 실패: ");
                text.append(detail.as_str());
                text
            },
        }
    }
}

} // verus!
