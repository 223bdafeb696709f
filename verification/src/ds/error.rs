//! Design-system errors.

use vstd::prelude::*;

verus! {

/// Why a design system, or a lookup in it, failed.
#[derive(Debug)]
pub enum DsError {
    /// A required piece of the DS directory is absent.
    MissingPiece(&'static str),
    /// A piece is present but not shaped as its schema requires.
    Malformed { piece: &'static str, detail: String },
    /// A token ref does not resolve.
    UnknownRef(String),
}

/// A design-system error, with texts as character sequences.
pub enum DsFault {
    MissingPiece(Seq<char>),
    Malformed { piece: Seq<char>, detail: Seq<char> },
    UnknownRef(Seq<char>),
}

impl View for DsError {
    type V = DsFault;

    open spec fn view(&self) -> DsFault {
        match *self {
            DsError::MissingPiece(p) => DsFault::MissingPiece(p@),
            DsError::Malformed { piece, detail } => DsFault::Malformed {
                piece: piece@,
                detail: detail@,
            },
            DsError::UnknownRef(r) => DsFault::UnknownRef(r@),
        }
    }
}

} // verus!
