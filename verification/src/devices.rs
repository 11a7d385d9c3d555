//! The capture and playback devices that the engine is told to open.
//!
//! Every profile captures from the ALSA loopback device and plays to the
//! hardware it is named after, at a sample rate and in a sample format
//! that the hardware takes.

use crate::processor::DeviceType;
use vstd::prelude::*;
use vstd::string::*;

verus! {

/// Where the engine captures its input.
#[derive(Clone, Debug, PartialEq, Eq)]
pub struct CaptureConfig {
    pub device_type: String,
    pub channels: usize,
    pub device: String,
    pub format: Option<String>,
}

/// Where the engine plays its output.
#[derive(Clone, Debug, PartialEq, Eq)]
pub struct PlaybackConfig {
    pub device_type: String,
    pub channels: usize,
    pub device: String,
    pub format: Option<String>,
}

/// How the engine resamples what it captures.
#[derive(Clone, Debug, PartialEq, Eq)]
pub struct ResamplerConfig {
    pub resampler_type: String,
}

/// The devices of a routing graph.
#[derive(Clone, Debug, PartialEq, Eq)]
pub struct Devices {
    pub samplerate: i32,
    pub capture_samplerate: i32,
    pub chunksize: i32,
    pub queuelimit: i32,
    pub capture: CaptureConfig,
    pub playback: PlaybackConfig,
    pub resampler: ResamplerConfig,
}

/// One end of the engine: a device of a kind with channels in a format.
pub struct EndpointView {
    pub device_type: Seq<char>,
    pub channels: usize,
    pub device: Seq<char>,
    pub format: Option<Seq<char>>,
}

/// What [`Devices`] hold.
pub struct DevicesView {
    pub samplerate: i32,
    pub capture_samplerate: i32,
    pub chunksize: i32,
    pub queuelimit: i32,
    pub capture: EndpointView,
    pub playback: EndpointView,
    pub resampler_type: Seq<char>,
}

/// What an optional string holds.
pub open spec fn format_view(format: Option<String>) -> Option<Seq<char>> {
    match format {
        Some(f) => Some(f@),
        None => None,
    }
}

impl View for CaptureConfig {
    type V = EndpointView;

    open spec fn view(&self) -> EndpointView {
        EndpointView {
            device_type: self.device_type@,
            channels: self.channels,
            device: self.device@,
            format: format_view(self.format),
        }
    }
}

impl View for PlaybackConfig {
    type V = EndpointView;

    open spec fn view(&self) -> EndpointView {
        EndpointView {
            device_type: self.device_type@,
            channels: self.channels,
            device: self.device@,
            format: format_view(self.format),
        }
    }
}

impl View for Devices {
    type V = DevicesView;

    open spec fn view(&self) -> DevicesView {
        DevicesView {
            samplerate: self.samplerate,
            capture_samplerate: self.capture_samplerate,
            chunksize: self.chunksize,
            queuelimit: self.queuelimit,
            capture: self.capture@,
            playback: self.playback@,
            resampler_type: self.resampler.resampler_type@,
        }
    }
}

/// The profile that captures `input_channels` channels at
/// `capture_samplerate` from the loopback device and plays
/// `output_channels` channels to `playback_device`, both in `format`.
pub open spec fn alsa_profile(
    capture_samplerate: i32,
    playback_device: Seq<char>,
    format: Seq<char>,
    input_channels: usize,
    output_channels: usize,
) -> DevicesView {
    DevicesView {
        samplerate: 96000,
        capture_samplerate,
        chunksize: 2048,
        queuelimit: 1,
        capture: EndpointView {
            device_type: "Alsa"@,
            channels: input_channels,
            device: "hw:Loopback,1"@,
            format: Some(format),
        },
        playback: EndpointView {
            device_type: "Alsa"@,
            channels: output_channels,
            device: playback_device,
            format: Some(format),
        },
        resampler_type: "Synchronous"@,
    }
}

/// The profile of the Okto DAC8.
pub open spec fn okto_dac8_spec(input_channels: usize, output_channels: usize) -> DevicesView {
    alsa_profile(48000, "hw:DAC8PRO"@, "S32LE"@, input_channels, output_channels)
}

/// The profile of the HDMI output of a Raspberry Pi.
pub open spec fn hdmi_osmc_pi_spec(input_channels: usize, output_channels: usize) -> DevicesView {
    alsa_profile(44100, "sysdefault:vc4hdmi"@, "S16LE"@, input_channels, output_channels)
}

/// The profile of the Topping DM7.
pub open spec fn topping_dm7_spec(input_channels: usize, output_channels: usize) -> DevicesView {
    alsa_profile(48000, "hw:DM7"@, "S32LE"@, input_channels, output_channels)
}

/// The profile of the MOTU UltraLite mk5.
pub open spec fn motu_mk5_spec(input_channels: usize, output_channels: usize) -> DevicesView {
    alsa_profile(48000, "hw:UltraLitemk5"@, "S24LE3"@, input_channels, output_channels)
}

/// The profile of `device`.
pub open spec fn device_profile(
    device: DeviceType,
    input_channels: usize,
    output_channels: usize,
) -> DevicesView {
    match device {
        DeviceType::OktoDac8 => okto_dac8_spec(input_channels, output_channels),
        DeviceType::HdmiOsmcPi => hdmi_osmc_pi_spec(input_channels, output_channels),
        DeviceType::ToppingDm7 => topping_dm7_spec(input_channels, output_channels),
        DeviceType::MotuMk5 => motu_mk5_spec(input_channels, output_channels),
    }
}

impl Devices {
    /// The profile that differs from the others only in what is handed in.
    fn alsa(
        capture_samplerate: i32,
        playback_device: &str,
        format: &str,
        input_channels: usize,
        output_channels: usize,
    ) -> (devices: Self)
        ensures
            devices@ == alsa_profile(
                capture_samplerate,
                playback_device@,
                format@,
                input_channels,
                output_channels,
            ),
    {
        Devices {
            samplerate: 96000,
            capture_samplerate,
            chunksize: 2048,
            queuelimit: 1,
            capture: CaptureConfig {
                device_type: String::from_str("Alsa"),
                channels: input_channels,
                device: String::from_str("hw:Loopback,1"),
                format: Some(String::from_str(format)),
            },
            playback: PlaybackConfig {
                device_type: String::from_str("Alsa"),
                channels: output_channels,
                device: String::from_str(playback_device),
                format: Some(String::from_str(format)),
            },
            resampler: ResamplerConfig { resampler_type: String::from_str("Synchronous") },
        }
    }

    /// The Okto DAC8: 32-bit samples, captured at 48 kHz.
    pub fn okto_dac8(input_channels: usize, output_channels: usize) -> (devices: Self)
        ensures
            devices@ == okto_dac8_spec(input_channels, output_channels),
    {
        Devices::alsa(48000, "hw:DAC8PRO", "S32LE", input_channels, output_channels)
    }

    /// The HDMI output of a Raspberry Pi: 16-bit samples, captured at 44.1 kHz.
    pub fn hdmi_osmc_pi(input_channels: usize, output_channels: usize) -> (devices: Self)
        ensures
            devices@ == hdmi_osmc_pi_spec(input_channels, output_channels),
    {
        Devices::alsa(44100, "sysdefault:vc4hdmi", "S16LE", input_channels, output_channels)
    }

    /// The Topping DM7: 32-bit samples, captured at 48 kHz.
    pub fn topping_dm7(input_channels: usize, output_channels: usize) -> (devices: Self)
        ensures
            devices@ == topping_dm7_spec(input_channels, output_channels),
    {
        Devices::alsa(48000, "hw:DM7", "S32LE", input_channels, output_channels)
    }

    /// The MOTU UltraLite mk5: packed 24-bit samples, captured at 48 kHz.
    pub fn motu_mk5(input_channels: usize, output_channels: usize) -> (devices: Self)
        ensures
            devices@ == motu_mk5_spec(input_channels, output_channels),
    {
        Devices::alsa(48000, "hw:UltraLitemk5", "S24LE3", input_channels, output_channels)
    }

    /// The profile of `device` for the given numbers of channels.
    pub fn for_device(device: DeviceType, input_channels: usize, output_channels: usize) -> (devices:
        Self)
        ensures
            devices@ == device_profile(device, input_channels, output_channels),
    {
        match device {
            DeviceType::OktoDac8 => Devices::okto_dac8(input_channels, output_channels),
            DeviceType::HdmiOsmcPi => Devices::hdmi_osmc_pi(input_channels, output_channels),
            DeviceType::ToppingDm7 => Devices::topping_dm7(input_channels, output_channels),
            DeviceType::MotuMk5 => Devices::motu_mk5(input_channels, output_channels),
        }
    }
}

} // verus!
