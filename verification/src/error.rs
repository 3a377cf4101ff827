use vstd::prelude::*;

verus! {

/// Why a byte stream could not be decoded into a song.
#[derive(Clone, Copy, Debug, PartialEq, Eq, Structural)]
pub enum ReadError {
    /// The protocol marker that opens the stream is not zero.
    UnsupportedFormat,
    /// The version byte names a format version other than 5.
    UnsupportedVersion,
    /// The stream ended in the middle of a field.
    UnexpectedEnd,
    /// The bytes of a string field are not valid UTF-8.
    InvalidText,
}

impl ReadError {
    /// The text shown to the user for this error.
    pub open spec fn message_text(self) -> Seq<char> {
        match self {
            ReadError::UnsupportedFormat =>
                "Invalid file, or file was made using an unsupported version of NBS"@,
            ReadError::UnsupportedVersion => "File was made using an unsupported version of NBS"@,
            ReadError::UnexpectedEnd => "IO-related error: unexpected end of file"@,
            ReadError::InvalidText => "Invalid string: the bytes are not valid UTF-8"@,
        }
    }

    /// A one-line description of the error.
    pub fn message(&self) -> (text: String)
        ensures
            text@ == self.message_text(),
    {
        match self {
            ReadError::UnsupportedFormat =>
                "Invalid file, or file was made using an unsupported version of NBS".to_owned(),
            ReadError::UnsupportedVersion =>
                "File was made using an unsupported version of NBS".to_owned(),
            ReadError::UnexpectedEnd => "IO-related error: unexpected end of file".to_owned(),
            ReadError::InvalidText => "Invalid string: the bytes are not valid UTF-8".to_owned(),
        }
    }
}

} // verus!
