use vstd::prelude::*;

verus! {

/// Mathematical image of an [`Error`], over character sequences.
pub enum ErrorModel {
    /// The manifest text does not parse; carries the parser's message.
    Syntax(Seq<char>),
    /// The registry gave no usable reply for a crate.
    Registry { crate_name: Seq<char>, detail: Seq<char> },
    /// A version text failed to parse; `local` tells which side it came from.
    VersionParse { crate_name: Seq<char>, text: Seq<char>, local: bool },
    /// Every candidate the registry offered was filtered out by the policy.
    NoUsableVersion { crate_name: Seq<char> },
    /// An open, read, backup or write failure, reported by the caller.
    Io(Seq<char>),
}

/// What can go wrong while refreshing one manifest file.
#[derive(Debug)]
pub enum Error {
    Syntax(String),
    Registry { crate_name: String, detail: String },
    VersionParse { crate_name: String, text: String, local: bool },
    NoUsableVersion { crate_name: String },
    Io(String),
}

impl View for Error {
    type V = ErrorModel;

    open spec fn view(&self) -> ErrorModel {
        match self {
            Error::Syntax(m) => ErrorModel::Syntax(m@),
            Error::Registry { crate_name, detail } => ErrorModel::Registry {
                crate_name: crate_name@,
                detail: detail@,
            },
            Error::VersionParse { crate_name, text, local } => ErrorModel::VersionParse {
                crate_name: crate_name@,
                text: text@,
                local: *local,
            },
            Error::NoUsableVersion { crate_name } => ErrorModel::NoUsableVersion {
                crate_name: crate_name@,
            },
            Error::Io(m) => ErrorModel::Io(m@),
        }
    }
}

} // verus!
