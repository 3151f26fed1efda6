use vstd::prelude::*;

verus! {

/// Errors raised while reading snapshot streams and snapshot files.
#[derive(Debug, PartialEq, Eq, Structural, Clone, Copy)]
pub enum Error {
    ErrShortRead,
    ErrExpectEOF,
    ErrSend,
    ErrNoDBSnapshot,
    ErrNoSnapshot,
    ErrEmptySnapshot,
    ErrCRCMismatch,
}

impl Error {
    /// The text that describes the error.
    pub open spec fn spec_message(self) -> Seq<char> {
        match self {
            Error::ErrShortRead => "ioutil: short read"@,
            Error::ErrExpectEOF => "ioutil: expect EOF"@,
            Error::ErrSend => "send error"@,
            Error::ErrNoDBSnapshot => "snap: snapshot file doesn't exist"@,
            Error::ErrNoSnapshot => "snap: no available snapshot"@,
            Error::ErrEmptySnapshot => "snap: empty snapshot"@,
            Error::ErrCRCMismatch => "snap: crc mismatch"@,
        }
    }

    /// The text that describes the error.
    pub fn message(&self) -> (s: String)
        ensures
            s@ == self.spec_message(),
    {
        let s = match self {
            Error::ErrShortRead => "ioutil: short read",
            Error::ErrExpectEOF => "ioutil: expect EOF",
            Error::ErrSend => "send error",
            Error::ErrNoDBSnapshot => "snap: snapshot file doesn't exist",
            Error::ErrNoSnapshot => "snap: no available snapshot",
            Error::ErrEmptySnapshot => "snap: empty snapshot",
            Error::ErrCRCMismatch => "snap: crc mismatch",
        };
        s.to_string()
    }
}

} // verus!
