//! Runtime options: controller numbers, audio parameters and the colors
//! of a secondary keyboard.  The command-line front end parses flags into
//! these plain records.

use vstd::prelude::*;

use crate::control::{LiveParameter, LiveParameterMapper};

verus! {

/// The MIDI controller numbers assigned to each live parameter.
#[derive(Clone, Copy, PartialEq, Eq, Structural, Debug)]
pub struct ControlChangeParameters {
    pub modulation_ccn: u8,
    pub breath_ccn: u8,
    pub foot_ccn: u8,
    pub volume_ccn: u8,
    pub expression_ccn: u8,
    pub damper_ccn: u8,
    pub sostenuto_ccn: u8,
    pub soft_ccn: u8,
    pub legato_ccn: u8,
    pub sound_1_ccn: u8,
    pub sound_2_ccn: u8,
    pub sound_3_ccn: u8,
    pub sound_4_ccn: u8,
    pub sound_5_ccn: u8,
    pub sound_6_ccn: u8,
    pub sound_7_ccn: u8,
    pub sound_8_ccn: u8,
    pub sound_9_ccn: u8,
    pub sound_10_ccn: u8,
}

/// The mapping sequence `to_parameter_mapper` produces.
pub open spec fn expected_mappings(c: ControlChangeParameters) -> Seq<(LiveParameter, u8)> {
    seq![
        (LiveParameter::Modulation, c.modulation_ccn),
        (LiveParameter::Breath, c.breath_ccn),
        (LiveParameter::Foot, c.foot_ccn),
        (LiveParameter::Volume, c.volume_ccn),
        (LiveParameter::Expression, c.expression_ccn),
        (LiveParameter::Damper, c.damper_ccn),
        (LiveParameter::Sostenuto, c.sostenuto_ccn),
        (LiveParameter::Soft, c.soft_ccn),
        (LiveParameter::Legato, c.legato_ccn),
        (LiveParameter::Sound1, c.sound_1_ccn),
        (LiveParameter::Sound2, c.sound_2_ccn),
        (LiveParameter::Sound3, c.sound_3_ccn),
        (LiveParameter::Sound4, c.sound_4_ccn),
        (LiveParameter::Sound5, c.sound_5_ccn),
        (LiveParameter::Sound6, c.sound_6_ccn),
        (LiveParameter::Sound7, c.sound_7_ccn),
        (LiveParameter::Sound8, c.sound_8_ccn),
        (LiveParameter::Sound9, c.sound_9_ccn),
        (LiveParameter::Sound10, c.sound_10_ccn),
    ]
}

impl ControlChangeParameters {
    /// Builds the controller mapping for every live parameter.
    pub fn to_parameter_mapper(&self) -> (r: LiveParameterMapper)
        ensures
            r.mappings@ == expected_mappings(*self),
    {
        let mut mapper = LiveParameterMapper::new();
        mapper.push_mapping(LiveParameter::Modulation, self.modulation_ccn);
        mapper.push_mapping(LiveParameter::Breath, self.breath_ccn);
        mapper.push_mapping(LiveParameter::Foot, self.foot_ccn);
        mapper.push_mapping(LiveParameter::Volume, self.volume_ccn);
        mapper.push_mapping(LiveParameter::Expression, self.expression_ccn);
        mapper.push_mapping(LiveParameter::Damper, self.damper_ccn);
        mapper.push_mapping(LiveParameter::Sostenuto, self.sostenuto_ccn);
        mapper.push_mapping(LiveParameter::Soft, self.soft_ccn);
        mapper.push_mapping(LiveParameter::Legato, self.legato_ccn);
        mapper.push_mapping(LiveParameter::Sound1, self.sound_1_ccn);
        mapper.push_mapping(LiveParameter::Sound2, self.sound_2_ccn);
        mapper.push_mapping(LiveParameter::Sound3, self.sound_3_ccn);
        mapper.push_mapping(LiveParameter::Sound4, self.sound_4_ccn);
        mapper.push_mapping(LiveParameter::Sound5, self.sound_5_ccn);
        mapper.push_mapping(LiveParameter::Sound6, self.sound_6_ccn);
        mapper.push_mapping(LiveParameter::Sound7, self.sound_7_ccn);
        mapper.push_mapping(LiveParameter::Sound8, self.sound_8_ccn);
        mapper.push_mapping(LiveParameter::Sound9, self.sound_9_ccn);
        mapper.push_mapping(LiveParameter::Sound10, self.sound_10_ccn);
        proof {
            assert(mapper.mappings@ =~= expected_mappings(*self));
        }
        mapper
    }
}

/// The audio-host parameters given on the command line.
pub struct AudioParameters {
    pub audio_in_enabled: bool,
    pub out_buffer_size: u32,
    pub in_buffer_size: u32,
    pub exchange_buffer_size: usize,
    pub sample_rate: Option<u32>,
    pub wav_file_prefix: String,
}

/// The audio options handed to the audio host.
pub struct AudioOptions {
    pub audio_in_enabled: bool,
    pub output_buffer_size: u32,
    pub input_buffer_size: u32,
    pub exchange_buffer_size: usize,
    pub wav_file_prefix: String,
}

impl AudioParameters {
    /// Converts the parameters into the audio host's option record.
    pub fn into_options(self) -> (r: AudioOptions)
        ensures
            r.audio_in_enabled == self.audio_in_enabled,
            r.output_buffer_size == self.out_buffer_size,
            r.input_buffer_size == self.in_buffer_size,
            r.exchange_buffer_size == self.exchange_buffer_size,
            r.wav_file_prefix == self.wav_file_prefix,
    {
        AudioOptions {
            audio_in_enabled: self.audio_in_enabled,
            output_buffer_size: self.out_buffer_size,
            input_buffer_size: self.in_buffer_size,
            exchange_buffer_size: self.exchange_buffer_size,
            wav_file_prefix: self.wav_file_prefix,
        }
    }
}

/// The color of one key of the secondary keyboard.
#[derive(Clone, Copy, PartialEq, Eq, Structural, Debug)]
pub enum KeyColor {
    White,
    Red,
    Green,
    Blue,
    Cyan,
    Magenta,
    Yellow,
    Black,
}

/// A color pattern for the secondary keyboard.
pub struct KeyColors(pub Vec<KeyColor>);

/// The color a pattern character stands for.
pub open spec fn color_of(c: char) -> Option<KeyColor> {
    if c == 'w' {
        Option::Some(KeyColor::White)
    } else if c == 'r' {
        Option::Some(KeyColor::Red)
    } else if c == 'g' {
        Option::Some(KeyColor::Green)
    } else if c == 'b' {
        Option::Some(KeyColor::Blue)
    } else if c == 'c' {
        Option::Some(KeyColor::Cyan)
    } else if c == 'm' {
        Option::Some(KeyColor::Magenta)
    } else if c == 'y' {
        Option::Some(KeyColor::Yellow)
    } else if c == 'k' {
        Option::Some(KeyColor::Black)
    } else {
        Option::None
    }
}

/// Parses a color pattern such as `wgrwwgrwgrwgrwwgr`; rejected as soon
/// as a character outside `wrgbcmyk` appears.
pub fn parse_keyboard_colors(src: &str) -> (r: Result<KeyColors, String>)
    ensures
        r is Ok <==> (forall|i: int| 0 <= i < src@.len() ==> (#[trigger] color_of(src@[i])) is Some),
        r matches Ok(colors) ==> {
            &&& colors.0@.len() == src@.len()
            &&& forall|i: int|
                0 <= i < src@.len() ==> Option::Some(#[trigger] colors.0@[i]) == color_of(src@[i])
        },
        r matches Err(e) ==> exists|i: int|
            {
                &&& 0 <= i < src@.len()
                &&& (#[trigger] color_of(src@[i])) is None
                &&& (forall|j: int| 0 <= j < i ==> (#[trigger] color_of(src@[j])) is Some)
                &&& e@ == "Received an invalid character '"@ + seq![src@[i]]
                    + "'. Only wrgbcmyk are allowed."@
            },
{
    let n = src.unicode_len();
    let mut colors: Vec<KeyColor> = Vec::new();
    let mut i: usize = 0;
    while i < n
        invariant
            i <= n,
            n == src@.len(),
            colors@.len() == i,
            forall|j: int| 0 <= j < i ==> (#[trigger] color_of(src@[j])) is Some,
            forall|j: int|
                0 <= j < i ==> Option::Some(#[trigger] colors@[j]) == color_of(src@[j]),
        decreases n - i,
    {
        let c = src.get_char(i);
        let color = if c == 'w' {
            KeyColor::White
        } else if c == 'r' {
            KeyColor::Red
        } else if c == 'g' {
            KeyColor::Green
        } else if c == 'b' {
            KeyColor::Blue
        } else if c == 'c' {
            KeyColor::Cyan
        } else if c == 'm' {
            KeyColor::Magenta
        } else if c == 'y' {
            KeyColor::Yellow
        } else if c == 'k' {
            KeyColor::Black
        } else {
            proof {
                assert(color_of(src@[i as int]) is None);
            }
            let mut m = "Received an invalid character '".to_owned();
            crate::text::push_char(&mut m, c);
            m.append("'. Only wrgbcmyk are allowed.");
            proof {
                assert(m@ =~= "Received an invalid character '"@ + seq![src@[i as int]]
                    + "'. Only wrgbcmyk are allowed."@);
            }
            return Err(m);
        };
        colors.push(color);
        i = i + 1;
    }
    Ok(KeyColors(colors))
}

} // verus!
