//! The classifier facade: one loaded configuration, one color per file
//! name.

use vstd::prelude::*;

use crate::color::DEFAULT_CHANNEL;
use crate::color::hex_to_rgb;
use crate::color::rgb_of;
use crate::configuration::ConfigModel;
use crate::configuration::Configuration;
use crate::configuration::lookup_value;
use crate::configuration::regex_found;
use crate::configuration::regex_is_valid;
use crate::entry::EntryModel;

verus! {

/// The color token resolved for `file` against the ordered entries: the
/// decoded RGB triple of the first matching rule's value, and the default
/// gray both when no rule matches and when a scanned rule's pattern does
/// not compile — one bad rule must not abort a listing.
pub open spec fn color_of(entries: Seq<EntryModel>, file: Seq<char>) -> (u8, u8, u8) {
    match lookup_value(entries, file) {
        Result::Ok(Option::Some(value)) => rgb_of(value),
        Result::Ok(Option::None) => (DEFAULT_CHANNEL, DEFAULT_CHANNEL, DEFAULT_CHANNEL),
        Result::Err(_) => (DEFAULT_CHANNEL, DEFAULT_CHANNEL, DEFAULT_CHANNEL),
    }
}

/// A file name that no `Pair` entry both compiles against and matches
/// resolves to the default gray token, whatever else the entries hold.
pub proof fn lemma_no_match_yields_default(entries: Seq<EntryModel>, file: Seq<char>)
    requires
        forall|i: int|
            0 <= i < entries.len() ==> ((#[trigger] entries[i]) matches EntryModel::Pair {
                pattern,
                ..
            } ==> !(regex_is_valid(pattern) && regex_found(pattern, file))),
    ensures
        color_of(entries, file) == (DEFAULT_CHANNEL, DEFAULT_CHANNEL, DEFAULT_CHANNEL),
    decreases entries.len(),
{
    if entries.len() > 0 {
        let rest = entries.skip(1);
        assert(forall|k: int| 0 <= k < rest.len() ==> rest[k] == entries[k + 1]);
        lemma_no_match_yields_default(rest, file);
    }
}

/// Resolves colors for file names against one loaded configuration.
pub struct ConfigurationLookup {
    config: Configuration,
}

impl View for ConfigurationLookup {
    type V = ConfigModel;

    closed spec fn view(&self) -> ConfigModel {
        self.config@
    }
}

impl ConfigurationLookup {
    /// Wraps a loaded configuration for lookups.
    pub fn new(config: Configuration) -> (lookup: Self)
        ensures
            lookup@ == config@,
    {
        ConfigurationLookup { config }
    }

    /// The wrapped configuration, for its persistence decision and for
    /// per-lookup diagnostics.
    pub fn configuration(&self) -> (config: &Configuration)
        ensures
            config@ == self@,
    {
        &self.config
    }

    /// Retrieves the color for the provided file name: the decoded value
    /// of the first rule matching `file`, and the default gray when no
    /// rule matches or a scanned rule's pattern does not compile.
    pub fn get_color(&self, file: &str) -> (rgb: (u8, u8, u8))
        ensures
            rgb == color_of(self@.entries, file@),
    {
        match self.config.get_value(file) {
            Result::Ok(Option::Some(value)) => hex_to_rgb(value.as_str()),
            Result::Ok(Option::None) => (DEFAULT_CHANNEL, DEFAULT_CHANNEL, DEFAULT_CHANNEL),
            Result::Err(_) => (DEFAULT_CHANNEL, DEFAULT_CHANNEL, DEFAULT_CHANNEL),
        }
    }
}

} // verus!
