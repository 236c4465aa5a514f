//! The parser's output: a closed set of command variants ready for
//! evaluation by the icon-building collaborator.

use vstd::prelude::*;

use crate::keys::{FaviconKey, IcnsKey, IcoKey};
use crate::{Entries, EntryModel, Output, OutputModel, ResamplingFilter};

verus! {

/// A validated icon-generation request.
#[derive(Debug, PartialEq, Eq)]
pub enum Command {
    Help,
    Version,
    Ico(Entries<IcoKey>, Output),
    Icns(Entries<IcnsKey>, Output),
    Favicon(Entries<FaviconKey>, FaviconConfig, Output),
}

/// Favicon-specific output options, each settable at most once per
/// invocation.
#[derive(Copy, Clone, Debug, PartialEq, Eq, Hash)]
pub struct FaviconConfig {
    pub apple_touch: bool,
    pub web_app: bool,
}

impl FaviconConfig {
    /// Packs the two favicon option flags.
    pub fn new(web_app: bool, apple_touch: bool) -> (r: Self)
        ensures
            r.web_app == web_app,
            r.apple_touch == apple_touch,
    {
        FaviconConfig { web_app, apple_touch }
    }
}

/// Mathematical image of a [`Command`]: entries carry their raw size,
/// path characters and filter, in encounter order.
pub ghost enum CommandModel {
    Help,
    Version,
    Ico(Seq<EntryModel>, OutputModel),
    Icns(Seq<EntryModel>, OutputModel),
    Favicon(Seq<EntryModel>, FaviconConfig, OutputModel),
}

/// Entries of an `ico` command as their mathematical image.
pub open spec fn ico_entries_model(es: Seq<(IcoKey, String, ResamplingFilter)>) -> Seq<
    EntryModel,
> {
    es.map_values(|e: (IcoKey, String, ResamplingFilter)| (e.0.as_size(), e.1@, e.2))
}

/// Entries of an `icns` command as their mathematical image.
pub open spec fn icns_entries_model(es: Seq<(IcnsKey, String, ResamplingFilter)>) -> Seq<
    EntryModel,
> {
    es.map_values(|e: (IcnsKey, String, ResamplingFilter)| (e.0.as_size(), e.1@, e.2))
}

/// Entries of a favicon command as their mathematical image.
pub open spec fn favicon_entries_model(es: Seq<(FaviconKey, String, ResamplingFilter)>) -> Seq<
    EntryModel,
> {
    es.map_values(|e: (FaviconKey, String, ResamplingFilter)| (e.0.as_size(), e.1@, e.2))
}

impl View for Command {
    type V = CommandModel;

    open spec fn view(&self) -> CommandModel {
        match self {
            Command::Help => CommandModel::Help,
            Command::Version => CommandModel::Version,
            Command::Ico(es, out) => CommandModel::Ico(ico_entries_model(es@), out@),
            Command::Icns(es, out) => CommandModel::Icns(icns_entries_model(es@), out@),
            Command::Favicon(es, config, out) => CommandModel::Favicon(
                favicon_entries_model(es@),
                *config,
                out@,
            ),
        }
    }
}

} // verus!
