//! Command-line interpreter for icon-generation requests.
//!
//! A flat argument list is tokenized and parsed, by recursive descent with
//! one token of lookahead, into a validated [`command::Command`]: source
//! images, target pixel sizes, a resampling filter and an output
//! destination.  Parsing is pure computation; reading `argv`, rendering
//! diagnostics and building the icon containers are left to the program
//! around the library.

use vstd::prelude::*;

pub mod command;
pub mod error;
pub mod keys;
pub mod parse;
pub mod render;

verus! {

/// Destination of the produced icon artifact.
#[derive(Debug, PartialEq, Eq)]
pub enum Output {
    Path(String),
    Stdout,
}

impl Clone for Output {
    /// A clone is equal to the original, path string included.
    fn clone(&self) -> (r: Self)
        ensures
            r == *self,
    {
        match self {
            Output::Path(p) => Output::Path(p.clone()),
            Output::Stdout => Output::Stdout,
        }
    }
}

/// Mathematical image of an [`Output`]: the path is taken as its
/// character sequence.
pub ghost enum OutputModel {
    Path(Seq<char>),
    Stdout,
}

impl View for Output {
    type V = OutputModel;

    open spec fn view(&self) -> OutputModel {
        match self {
            Output::Path(p) => OutputModel::Path(p@),
            Output::Stdout => OutputModel::Stdout,
        }
    }
}

/// Interpolation algorithm selected for scaling a source image.
#[derive(Copy, Clone, Debug, PartialEq, Eq)]
pub enum ResamplingFilter {
    Nearest,
    Linear,
    Cubic,
}

/// One validated entry per requested size: its format-specific key, the
/// source image path, and the filter used to scale it.
pub type Entries<K> = Vec<(K, String, ResamplingFilter)>;

/// Mathematical image of one entry: the raw size the key encodes, the
/// path characters, and the filter.
pub type EntryModel = (u32, Seq<char>, ResamplingFilter);

} // verus!
