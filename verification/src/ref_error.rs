//! The kinds of error met when handling references to files.

use vstd::prelude::*;

verus! {

/// The kinds of error that handling a reference to a file can meet.
#[derive(Debug, Clone, Copy, PartialEq, Eq, Structural)]
pub enum RefErrorKind {
    StoreReadError,
    StoreWriteError,
    IOError,
    UTF8Error,
    HeaderTypeError,
    HeaderFieldMissingError,
    HeaderFieldWriteError,
    HeaderFieldReadError,
    HeaderFieldAlreadyExistsError,
    PathUTF8Error,
    PathHashingError,
    PathCanonicalizationError,
    TypeConversionError,
    RefToDisplayError,
    RefNotInStore,
    RefTargetDoesNotExist,
    RefTargetPermissionError,
    RefTargetCannotBeHashed,
    RefTargetFileCannotBeOpened,
    RefTargetCannotReadPermissions,
    RefHashingError,
}

/// The message that describes each kind of error.
pub open spec fn ref_error_text(kind: RefErrorKind) -> Seq<char> {
    match kind {
        RefErrorKind::StoreReadError => "Store read error"@,
        RefErrorKind::StoreWriteError => "Store write error"@,
        RefErrorKind::IOError => "IO Error"@,
        RefErrorKind::UTF8Error => "UTF8 Error"@,
        RefErrorKind::HeaderTypeError => "Header type error"@,
        RefErrorKind::HeaderFieldMissingError => "Header field missing error"@,
        RefErrorKind::HeaderFieldWriteError => "Header field cannot be written"@,
        RefErrorKind::HeaderFieldReadError => "Header field cannot be read"@,
        RefErrorKind::HeaderFieldAlreadyExistsError => "Header field already exists, cannot override"@,
        RefErrorKind::PathUTF8Error => "Path cannot be converted because of UTF8 Error"@,
        RefErrorKind::PathHashingError => "Path cannot be hashed"@,
        RefErrorKind::PathCanonicalizationError => "Path cannot be canonicalized"@,
        RefErrorKind::TypeConversionError => "Couldn't convert types"@,
        RefErrorKind::RefToDisplayError => "Cannot convert Ref to string to show it to user"@,
        RefErrorKind::RefNotInStore => "Ref/StoreId does not exist in store"@,
        RefErrorKind::RefTargetDoesNotExist => "Ref Target does not exist"@,
        RefErrorKind::RefTargetPermissionError => "Ref Target permissions insufficient for referencing"@,
        RefErrorKind::RefTargetCannotBeHashed => "Ref Target cannot be hashed (is it a directory?)"@,
        RefErrorKind::RefTargetFileCannotBeOpened => "Ref Target File cannot be open()ed"@,
        RefErrorKind::RefTargetCannotReadPermissions => "Ref Target: Cannot read permissions"@,
        RefErrorKind::RefHashingError => "Error while hashing"@,
    }
}

impl RefErrorKind {
    /// The message that describes this kind of error.
    pub fn description(&self) -> (s: &'static str)
        ensures
            s@ == ref_error_text(*self),
    {
        match self {
            RefErrorKind::StoreReadError => "Store read error",
            RefErrorKind::StoreWriteError => "Store write error",
            RefErrorKind::IOError => "IO Error",
            RefErrorKind::UTF8Error => "UTF8 Error",
            RefErrorKind::HeaderTypeError => "Header type error",
            RefErrorKind::HeaderFieldMissingError => "Header field missing error",
            RefErrorKind::HeaderFieldWriteError => "Header field cannot be written",
            RefErrorKind::HeaderFieldReadError => "Header field cannot be read",
            RefErrorKind::HeaderFieldAlreadyExistsError => "Header field already exists, cannot override",
            RefErrorKind::PathUTF8Error => "Path cannot be converted because of UTF8 Error",
            RefErrorKind::PathHashingError => "Path cannot be hashed",
            RefErrorKind::PathCanonicalizationError => "Path cannot be canonicalized",
            RefErrorKind::TypeConversionError => "Couldn't convert types",
            RefErrorKind::RefToDisplayError => "Cannot convert Ref to string to show it to user",
            RefErrorKind::RefNotInStore => "Ref/StoreId does not exist in store",
            RefErrorKind::RefTargetDoesNotExist => "Ref Target does not exist",
            RefErrorKind::RefTargetPermissionError => "Ref Target permissions insufficient for referencing",
            RefErrorKind::RefTargetCannotBeHashed => "Ref Target cannot be hashed (is it a directory?)",
            RefErrorKind::RefTargetFileCannotBeOpened => "Ref Target File cannot be open()ed",
            RefErrorKind::RefTargetCannotReadPermissions => "Ref Target: Cannot read permissions",
            RefErrorKind::RefHashingError => "Error while hashing",
        }
    }
}

/// An error met when handling a reference to a file: its kind, and the
/// message of the error that caused it, if any.
#[derive(Debug)]
pub struct RefError {
    kind: RefErrorKind,
    cause: Option<String>,
}

impl RefError {
    pub closed spec fn kind(&self) -> RefErrorKind {
        self.kind
    }

    pub closed spec fn cause_text(&self) -> Option<Seq<char>> {
        match self.cause {
            Some(c) => Some(c@),
            None => None,
        }
    }

    pub fn new(kind: RefErrorKind, cause: Option<String>) -> (e: RefError)
        ensures
            e.kind() == kind,
            e.cause_text() == (match cause {
                Some(c) => Some(c@),
                None => None::<Seq<char>>,
            }),
    {
        RefError { kind, cause }
    }

    /// The kind of this error.
    pub fn err_type(&self) -> (k: RefErrorKind)
        ensures
            k == self.kind(),
    {
        self.kind
    }

    /// The message of the error that caused this one, if any.
    pub fn cause(&self) -> (c: Option<&String>)
        ensures
            c matches Some(t) ==> self.cause_text() == Some(t@),
            c is None ==> self.cause_text() is None,
    {
        self.cause.as_ref()
    }
}

} // verus!
