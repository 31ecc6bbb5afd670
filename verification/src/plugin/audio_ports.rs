use vstd::prelude::*;

verus! {

/// Specifies whether a port uses floats (`f32`) or doubles (`f64`).
#[derive(Debug, Clone, Copy, PartialEq, Eq, Structural)]
pub enum SampleSize {
    F32,
    F64,
}

/// The sample size of a CLAP sample size in bits.
pub open spec fn sample_size_of(sample_size: u32) -> Option<SampleSize> {
    if sample_size == 32 {
        Some(SampleSize::F32)
    } else if sample_size == 64 {
        Some(SampleSize::F64)
    } else {
        None
    }
}

impl SampleSize {
    /// Parse a CLAP sample size: 32 or 64 bits.
    pub fn from_clap(sample_size: u32) -> (r: Option<SampleSize>)
        ensures
            r == sample_size_of(sample_size),
    {
        match sample_size {
            32 => Some(SampleSize::F32),
            64 => Some(SampleSize::F64),
            _ => None,
        }
    }

    /// The CLAP sample size in bits.
    pub fn to_clap(&self) -> (r: u32)
        ensures
            r == match *self {
                SampleSize::F32 => 32u32,
                SampleSize::F64 => 64u32,
            },
    {
        match self {
            SampleSize::F32 => 32,
            SampleSize::F64 => 64,
        }
    }
}

impl Default for SampleSize {
    fn default() -> (r: Self)
        ensures
            r == SampleSize::F32,
    {
        SampleSize::F32
    }
}

/// The channel layout of an audio port.
#[derive(Debug, Clone, Copy, PartialEq, Eq, Structural)]
pub enum ChannelMap {
    Unspecified,
    Mono,
    Stereo,
    Surround,
}

/// The channel map of a CLAP channel map code.
pub open spec fn channel_map_of(channel_map: u32) -> Option<ChannelMap> {
    if channel_map == 0 {
        Some(ChannelMap::Unspecified)
    } else if channel_map == 1 {
        Some(ChannelMap::Mono)
    } else if channel_map == 2 {
        Some(ChannelMap::Stereo)
    } else if channel_map == 3 {
        Some(ChannelMap::Surround)
    } else {
        None
    }
}

impl ChannelMap {
    /// Parse a CLAP channel map: 0 unspecified, 1 mono, 2 stereo, 3 surround.
    pub fn from_clap(channel_map: u32) -> (r: Option<ChannelMap>)
        ensures
            r == channel_map_of(channel_map),
    {
        match channel_map {
            0 => Some(ChannelMap::Unspecified),
            1 => Some(ChannelMap::Mono),
            2 => Some(ChannelMap::Stereo),
            3 => Some(ChannelMap::Surround),
            _ => None,
        }
    }
}

/// Information on an audio port.
pub struct AudioPortInfo {
    /// The stable unique identifier of this audio port.
    pub unique_stable_id: u32,
    /// The displayable name.
    pub display_name: String,
    /// The number of channels in this port: 1 for a mono port, 2 for a stereo one.
    pub channel_count: u32,
    /// The channel map of this port.
    pub channel_map: ChannelMap,
    /// Specifies whether this port uses floats (`f32`) or doubles (`f64`).
    pub sample_size: SampleSize,
    /// Whether or not this port is a "main" port. There can only be one main
    /// input and one main output port.
    pub is_main: bool,
    /// Whether or not this port is a "control voltage" port.
    pub is_cv: bool,
    /// If true, then the host can use the same buffer for the main input and
    /// main output port.
    pub in_place: bool,
}

impl AudioPortInfo {
    /// Build the information on an audio port from the raw values of CLAP's
    /// description: the channel map and sample size must parse, otherwise there
    /// is no port; a name that could not be read is shown as "(error)".
    pub fn from_clap(
        id: u32,
        name: Option<String>,
        channel_count: u32,
        channel_map: u32,
        sample_size: u32,
        is_main: bool,
        is_cv: bool,
        in_place: bool,
    ) -> (r: Option<AudioPortInfo>)
        ensures
            r is Some <==> channel_map_of(channel_map) is Some && sample_size_of(sample_size) is Some,
            r matches Some(info) ==> {
                &&& info.unique_stable_id == id
                &&& info.channel_count == channel_count
                &&& Some(info.channel_map) == channel_map_of(channel_map)
                &&& Some(info.sample_size) == sample_size_of(sample_size)
                &&& info.is_main == is_main
                &&& info.is_cv == is_cv
                &&& info.in_place == in_place
                &&& info.display_name@ == match name {
                    Some(n) => n@,
                    None => "(error)"@,
                }
            },
    {
        let channel_map = match ChannelMap::from_clap(channel_map) {
            Some(m) => m,
            None => {
                return None;
            },
        };
        let sample_size = match SampleSize::from_clap(sample_size) {
            Some(s) => s,
            None => {
                return None;
            },
        };
        let display_name = match name {
            Some(s) => s,
            None => {
                proof {
                    reveal_strlit("(error)");
                }
                String::from_str("(error)")
            },
        };
        Some(
            AudioPortInfo {
                unique_stable_id: id,
                display_name,
                channel_count,
                channel_map,
                sample_size,
                is_main,
                is_cv,
                in_place,
            },
        )
    }
}

/// The audio ports that a plugin describes.
pub struct PluginAudioPortsExtension {
    /// The list of audio input ports.
    pub input_ports: Vec<AudioPortInfo>,
    /// The list of audio output ports.
    pub output_ports: Vec<AudioPortInfo>,
}

/// A sample size survives the round trip through its CLAP code.
pub proof fn lemma_sample_size_round_trip(s: SampleSize)
    ensures
        sample_size_of(match s {
            SampleSize::F32 => 32u32,
            SampleSize::F64 => 64u32,
        }) == Some(s),
{
}

} // verus!
