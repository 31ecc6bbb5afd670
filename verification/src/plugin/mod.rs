pub mod audio_ports;

use vstd::prelude::*;

verus! {

/// The description of a plugin.
pub struct PluginDescriptor {
    /// The unique reverse-domain-name identifier of this plugin, e.g. "org.rustydaw.spicysynth".
    pub id: String,
    /// The displayable name of this plugin, e.g. "Spicy Synth".
    pub name: String,
    /// The vendor of this plugin, e.g. "RustyDAW".
    pub vendor: String,
    /// The version of this plugin, e.g. "1.4.4" or "1.1.2_beta".
    pub version: String,
    /// A displayable short description of this plugin.
    pub description: String,
    /// Arbitrary list of keywords, separated by `;`, which the host's search
    /// engine can match, e.g. "equalizer;analyzer;stereo;mono".
    pub features: Option<String>,
    /// The url to the product page of this plugin, if there is one.
    pub url: Option<String>,
    /// The url to the online manual for this plugin, if there is one.
    pub manual_url: Option<String>,
    /// The url to the online support page for this plugin, if there is one.
    pub support_url: Option<String>,
}

} // verus!
