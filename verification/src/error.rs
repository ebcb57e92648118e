//! Failures of scheme operations, and how a result travels in one machine
//! word.

use vstd::prelude::*;

verus! {

/// The code of [`Error::NotFound`]: no such file or directory.
pub const ENOENT: usize = 2;

/// The code of [`Error::BadDescriptor`]: bad file number.
pub const EBADF: usize = 9;

/// The code of [`Error::NotSupported`]: function not implemented.
pub const ENOSYS: usize = 38;

/// Why a scheme operation failed.
#[derive(Copy, Clone, Debug, PartialEq, Eq, Structural)]
pub enum Error {
    /// No such path or object.
    NotFound,
    /// The descriptor is absent or invalid, or the object behind it does not
    /// support the operation.
    BadDescriptor,
    /// The request matches no known operation.
    NotSupported,
}

/// The result of a scheme operation.
pub type Result<T> = core::result::Result<T, Error>;

impl Error {
    /// The code of the error.
    pub open spec fn code(self) -> usize {
        match self {
            Error::NotFound => ENOENT,
            Error::BadDescriptor => EBADF,
            Error::NotSupported => ENOSYS,
        }
    }

    /// The word that stands for the error: its code, negated in the
    /// arithmetic of machine words.
    pub open spec fn word(self) -> usize {
        (usize::MAX - self.code() + 1) as usize
    }

    /// The word that stands for `result`: the value of a success as it is,
    /// the word of a failure otherwise.
    pub open spec fn muxed(result: Result<usize>) -> usize {
        match result {
            Ok(value) => value,
            Err(error) => error.word(),
        }
    }

    /// The result that `word` stands for: the failure whose word it is, else
    /// a success with `word` as its value.
    pub open spec fn demuxed(word: usize) -> Result<usize> {
        if word == Error::NotFound.word() {
            Err(Error::NotFound)
        } else if word == Error::BadDescriptor.word() {
            Err(Error::BadDescriptor)
        } else if word == Error::NotSupported.word() {
            Err(Error::NotSupported)
        } else {
            Ok(word)
        }
    }

    /// The code of the error.
    pub fn errno(self) -> (code: usize)
        ensures
            code == self.code(),
    {
        match self {
            Error::NotFound => ENOENT,
            Error::BadDescriptor => EBADF,
            Error::NotSupported => ENOSYS,
        }
    }

    /// Pack a result into one word.
    pub fn mux(result: Result<usize>) -> (word: usize)
        ensures
            word == Error::muxed(result),
    {
        match result {
            Ok(value) => value,
            Err(error) => usize::MAX - error.errno() + 1,
        }
    }

    /// Unpack a word into the result it stands for.
    pub fn demux(word: usize) -> (result: Result<usize>)
        ensures
            result == Error::demuxed(word),
    {
        if word == usize::MAX - ENOENT + 1 {
            Err(Error::NotFound)
        } else if word == usize::MAX - EBADF + 1 {
            Err(Error::BadDescriptor)
        } else if word == usize::MAX - ENOSYS + 1 {
            Err(Error::NotSupported)
        } else {
            Ok(word)
        }
    }
}

/// Every failure travels intact, and so does every success whose value is
/// not the word of a failure.
pub proof fn lemma_mux_round_trip(result: Result<usize>)
    requires
        result matches Ok(value) ==> value <= usize::MAX - 4096,
    ensures
        Error::demuxed(Error::muxed(result)) == result,
{
}

/// Two failures that travel as the same word are the same failure.
pub proof fn lemma_words_differ(a: Error, b: Error)
    ensures
        a.word() == b.word() <==> a == b,
        a.word() > usize::MAX - 4096,
{
}

} // verus!
