//! Error values returned by every filesystem operation.

use vstd::prelude::*;

verus! {

/// The failure classes of the operation contract.
#[derive(Debug, Clone, Copy, PartialEq, Eq, Structural)]
pub enum ErrorKind {
    /// The path, or one of its ancestors, does not exist.
    NotFound,
    /// The target already exists.
    AlreadyExists,
    /// The entry has the wrong kind for the operation, or the path is
    /// structurally invalid.
    InvalidInput,
    /// A directory that still has children cannot be removed.
    DirectoryNotEmpty,
    /// A write was attempted through a handle not opened for writing.
    PermissionDenied,
    /// A mutating call reached a read-only filesystem.
    ReadOnlyFilesystem,
    /// The backend does not offer the operation.
    Unsupported,
    /// Any other failure: bytes that are no valid text, a hard link from
    /// one backend to another, a value of the wrong backend.
    Other,
}

/// An error: its kind and a short explanation.
#[derive(Debug)]
pub struct FsError {
    kind: ErrorKind,
    message: String,
}

impl FsError {
    /// The kind, as a specification value.
    pub closed spec fn spec_kind(&self) -> ErrorKind {
        self.kind
    }

    /// The explanation, as a specification value.
    pub closed spec fn spec_message(&self) -> Seq<char> {
        self.message@
    }

    /// Builds an error of the given kind.
    pub fn new(kind: ErrorKind, message: &str) -> (e: FsError)
        ensures
            e.spec_kind() == kind,
            e.spec_message() == message@,
    {
        FsError { kind, message: message.to_owned() }
    }

    /// The kind of this error.
    #[verifier::when_used_as_spec(spec_kind)]
    pub fn kind(&self) -> (k: ErrorKind)
        ensures
            k == self.spec_kind(),
    {
        self.kind
    }

    /// The explanation carried by this error.
    pub fn message(&self) -> (m: &str)
        ensures
            m@ == self.spec_message(),
    {
        self.message.as_str()
    }
}

/// What an operation returned, with the error reduced to its kind.
pub open spec fn outcome<T>(r: Result<T, FsError>) -> Result<T, ErrorKind> {
    match r {
        Ok(v) => Ok(v),
        Err(e) => Err(e.kind()),
    }
}

/// What an operation that returns text returned, as a sequence of
/// characters, with the error reduced to its kind.
pub open spec fn text_outcome(r: Result<String, FsError>) -> Result<Seq<char>, ErrorKind> {
    match r {
        Ok(v) => Ok(v@),
        Err(e) => Err(e.kind()),
    }
}

/// What an operation that returns bytes returned, as a sequence of bytes,
/// with the error reduced to its kind.
pub open spec fn bytes_outcome(r: Result<Vec<u8>, FsError>) -> Result<Seq<u8>, ErrorKind> {
    match r {
        Ok(v) => Ok(v@),
        Err(e) => Err(e.kind()),
    }
}

/// The text that bytes encode in UTF-8; `Other` where they encode none.
pub open spec fn decoded(r: Result<Seq<u8>, ErrorKind>) -> Result<Seq<char>, ErrorKind> {
    match r {
        Ok(bytes) => if vstd::utf8::valid_utf8(bytes) {
            Ok(vstd::utf8::decode_utf8(bytes))
        } else {
            Err(ErrorKind::Other)
        },
        Err(e) => Err(e),
    }
}

} // verus!
