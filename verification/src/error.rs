//! The ways in which building a matcher or running a match can fail.

use vstd::prelude::*;

verus! {

/// Why a matcher could not be built or a match could not be run. A failed
/// call returns no partial result next to its error.
#[derive(Debug)]
pub enum MatchError {
    /// The named asset is not in the asset store.
    AssetNotFound(String),
    /// The bytes of an image could not be decoded; the text says why.
    DecodeError(String),
    /// A parameter of the call makes no sense: a resize to an empty image, an
    /// empty region, a region that leaves the image.
    InvalidConfiguration,
    /// The correlation primitive failed; the text is the cause it gave.
    PrimitiveFailure(String),
}

/// `String::push_str` appends the given text to the string.
pub assume_specification[ String::push_str ](s: &mut String, text: &str)
    ensures
        final(s)@ == old(s)@ + text@,
;

impl MatchError {
    /// The text that `message` puts before the asset name or the cause.
    pub open spec fn prefix(self) -> Seq<char> {
        match self {
            MatchError::AssetNotFound(_) => "asset not found: "@,
            MatchError::DecodeError(_) => "image could not be decoded: "@,
            MatchError::InvalidConfiguration => "invalid configuration"@,
            MatchError::PrimitiveFailure(_) => "correlation failed: "@,
        }
    }

    /// The asset name or the cause that the error carries, if any.
    pub open spec fn detail(self) -> Seq<char> {
        match self {
            MatchError::AssetNotFound(name) => name@,
            MatchError::DecodeError(cause) => cause@,
            MatchError::InvalidConfiguration => Seq::empty(),
            MatchError::PrimitiveFailure(cause) => cause@,
        }
    }

    /// A description of the error for a human reader.
    pub fn message(&self) -> (text: String)
        ensures
            text@ == self.prefix() + self.detail(),
    {
        match self {
            MatchError::AssetNotFound(name) => {
                let mut text = "asset not found: ".to_owned();
                text.push_str(name.as_str());
                text
            },
            MatchError::DecodeError(cause) => {
                let mut text = "image could not be decoded: ".to_owned();
                text.push_str(cause.as_str());
                text
            },
            MatchError::InvalidConfiguration => {
                let text = "invalid configuration".to_owned();
                assert(text@ + Seq::<char>::empty() =~= text@);
                text
            },
            MatchError::PrimitiveFailure(cause) => {
                let mut text = "correlation failed: ".to_owned();
                text.push_str(cause.as_str());
                text
            },
        }
    }
}

} // verus!
