use mixer_status::daemon::DaemonStatus;
use mixer_status::ids::{
    EncoderColourTargets, EqFrequencies, MicrophoneType, MiniEqFrequencies, SimpleColourTargets,
};
use mixer_status::ids::{
    ChannelName, DeviceType, EffectBankPresets, EnumIndex, FaderName, InputDevice, MuteFunction,
    OutputDevice, SampleBank, SampleButtons, SamplePlayOrder, SamplePlaybackMode, CHANNEL_COUNT,
    EFFECT_PRESET_COUNT, FADER_COUNT, MICROPHONE_TYPE_COUNT,
};
use mixer_status::mixer::{
    FirmwareVersions, HardwareStatus, MixerStatus, Scribble, StatusError, UsbProductInformation,
    UsbVersion, VersionNumber,
};
use mixer_status::lighting::{OneColour, ThreeColours};
use mixer_status::sampler::{Sample, SamplerButton};

fn hardware(device_type: DeviceType) -> HardwareStatus {
    HardwareStatus {
        versions: FirmwareVersions {
            firmware: VersionNumber { major: 1, minor: 2, patch: 3, build: 4 },
            fpga_count: 1,
            dice: VersionNumber { major: 5, minor: 6, patch: 7, build: 8 },
        },
        serial_number: String::from("S210500001CQK"),
        manufactured_date: String::from("2021-05-01"),
        device_type,
        usb_device: UsbProductInformation {
            manufacturer_name: String::from("TC-Helicon"),
            product_name: String::from("GoXLR"),
            version: UsbVersion { major: 2, minor: 0, patch: 1 },
            bus_number: 1,
            address: 4,
            identifier: None,
        },
    }
}

#[test]
fn fixed_cardinalities_after_construction() {
    let m = MixerStatus::new(hardware(DeviceType::Full));
    assert_eq!(m.fader_status.len(), FADER_COUNT);
    assert_eq!(m.levels.volumes.len(), CHANNEL_COUNT);
    assert_eq!(m.mic_status.mic_gains.len(), MICROPHONE_TYPE_COUNT);
    let e = m.get_effects().expect("full device carries effects");
    assert_eq!(e.preset_names.len(), EFFECT_PRESET_COUNT);
}

#[test]
fn fixed_cardinalities_after_mutation() {
    let mut m = MixerStatus::new(hardware(DeviceType::Mini));
    m.set_channel_volume(ChannelName::Music, 200);
    m.route(InputDevice::Music, OutputDevice::Headphones, true);
    assert_eq!(m.fader_status.len(), FADER_COUNT);
    assert_eq!(m.levels.volumes.len(), CHANNEL_COUNT);
    assert_eq!(m.get_channel_volume(ChannelName::Music), 200);
}

#[test]
fn routing_matrix_matches_set_after_route_calls() {
    let mut m = MixerStatus::new(hardware(DeviceType::Full));
    m.route(InputDevice::Music, OutputDevice::Headphones, true);
    m.route(InputDevice::Music, OutputDevice::LineOut, true);
    m.route(InputDevice::Chat, OutputDevice::BroadcastMix, true);
    m.route(InputDevice::Music, OutputDevice::LineOut, false);
    assert!(m.router.is_routed(InputDevice::Music, OutputDevice::Headphones));
    assert!(!m.router.is_routed(InputDevice::Music, OutputDevice::LineOut));
    assert!(m.router.is_routed(InputDevice::Chat, OutputDevice::BroadcastMix));
    // the set form carries exactly the bits the matrix shows
    let mask = m.router.output_mask(InputDevice::Music);
    assert_eq!(mask, 1u32 << OutputDevice::Headphones.index());
    let mask = m.router.output_mask(InputDevice::Chat);
    assert_eq!(mask, 1u32 << OutputDevice::BroadcastMix.index());
    let mask = m.router.output_mask(InputDevice::Game);
    assert_eq!(mask, 0);
}

#[test]
fn capability_gating_mini_absent_full_present() {
    let mini = MixerStatus::new(hardware(DeviceType::Mini));
    assert!(mini.effects.is_none());
    assert!(mini.sampler.is_none());
    let unknown = MixerStatus::new(hardware(DeviceType::Unknown));
    assert!(unknown.effects.is_none());
    assert!(unknown.sampler.is_none());
    let full = MixerStatus::new(hardware(DeviceType::Full));
    assert!(full.effects.is_some());
    assert!(full.sampler.is_some());
}

#[test]
fn mutating_absent_substructure_signals_capability_error() {
    let mut mini = MixerStatus::new(hardware(DeviceType::Mini));
    assert_eq!(
        mini.set_active_effect_preset(EffectBankPresets::Preset3),
        Err(StatusError::UnsupportedCapability)
    );
    assert_eq!(mini.get_effects(), Err(StatusError::UnsupportedCapability));
    assert_eq!(mini.get_sampler(), Err(StatusError::UnsupportedCapability));
    let button = SamplerButton {
        function: SamplePlaybackMode::PlayNext,
        order: SamplePlayOrder::Sequential,
        samples: vec![],
        is_playing: false,
    };
    assert_eq!(
        mini.set_sampler_button(SampleBank::A, SampleButtons::TopLeft, Some(button)),
        Err(StatusError::UnsupportedCapability)
    );

    let mut full = MixerStatus::new(hardware(DeviceType::Full));
    assert_eq!(full.set_active_effect_preset(EffectBankPresets::Preset3), Ok(()));
    assert_eq!(
        full.get_effects().expect("effects present").active_preset,
        EffectBankPresets::Preset3
    );
    let button = SamplerButton {
        function: SamplePlaybackMode::PlayStop,
        order: SamplePlayOrder::Random,
        samples: vec![Sample {
            name: String::from("airhorn"),
            start_pct: 0,
            stop_pct: 10000,
        }],
        is_playing: false,
    };
    assert_eq!(
        full.set_sampler_button(SampleBank::B, SampleButtons::BottomRight, Some(button)),
        Ok(())
    );
    let s = full.get_sampler().expect("sampler present");
    let b = s
        .get_button(SampleBank::B, SampleButtons::BottomRight)
        .as_ref()
        .expect("button assigned");
    assert_eq!(b.samples.len(), 1);
    assert_eq!(b.samples[0].name, "airhorn");
    assert!(s.get_button(SampleBank::A, SampleButtons::TopLeft).is_none());
}

#[test]
fn default_daemon_status_is_empty() {
    let d = DaemonStatus::default();
    assert_eq!(d.mixers.len(), 0);
    assert_eq!(d.daemon_version, "");
    assert_eq!(d.files.profiles.len(), 0);
    assert_eq!(d.files.mic_profiles.len(), 0);
    assert_eq!(d.files.presets.len(), 0);
    assert_eq!(d.files.samples.len(), 0);
    assert_eq!(d.files.icons.len(), 0);
    assert_eq!(DeviceType::default(), DeviceType::Unknown);
}

#[test]
fn daemon_attach_lookup_detach() {
    let mut d = DaemonStatus::default();
    let serial = String::from("S1");
    assert!(!d.contains_mixer(&serial));
    d.add_mixer(serial.clone(), MixerStatus::new(hardware(DeviceType::Full)));
    assert!(d.contains_mixer(&serial));
    let got = d.get_mixer(&serial).expect("attached");
    assert_eq!(got.hardware.device_type, DeviceType::Full);
    assert!(d.get_mixer(&String::from("S2")).is_none());
    assert!(d.remove_mixer(&serial));
    assert!(!d.contains_mixer(&serial));
    assert!(!d.remove_mixer(&serial));
}

#[test]
fn combined_update_is_one_call() {
    let mut m = MixerStatus::new(hardware(DeviceType::Full));
    m.route_and_set_volume(
        InputDevice::System,
        OutputDevice::ChatMic,
        true,
        ChannelName::System,
        120,
    );
    assert!(m.router.is_routed(InputDevice::System, OutputDevice::ChatMic));
    assert_eq!(m.get_channel_volume(ChannelName::System), 120);
}

#[test]
fn fader_defaults_and_accessor() {
    let m = MixerStatus::new(hardware(DeviceType::Full));
    let f = m.get_fader_status(FaderName::C);
    assert_eq!(f.channel, ChannelName::Mic);
    assert_eq!(f.mute_type, MuteFunction::All);
    assert!(f.scribble.is_none());
    let s = Scribble::default();
    assert!(s.file_name.is_none());
    assert!(s.bottom_text.is_none());
    assert!(s.left_text.is_none());
    assert!(!s.inverted);
}

#[test]
fn lighting_targets_are_absent_until_assigned() {
    let mut m = MixerStatus::new(hardware(DeviceType::Full));
    assert!(m.lighting.get_simple(SimpleColourTargets::Accent).is_none());
    m.lighting.set_simple(
        SimpleColourTargets::Accent,
        Some(OneColour { colour_one: String::from("00A5FF") }),
    );
    let c = m
        .lighting
        .get_simple(SimpleColourTargets::Accent)
        .as_ref()
        .expect("assigned");
    assert_eq!(c.colour_one, "00A5FF");
    assert!(m.lighting.get_simple(SimpleColourTargets::Global).is_none());
    m.lighting.set_encoder(
        EncoderColourTargets::Reverb,
        Some(ThreeColours {
            colour_one: String::from("111111"),
            colour_two: String::from("222222"),
            colour_three: String::from("333333"),
        }),
    );
    m.lighting.set_encoder(EncoderColourTargets::Reverb, None);
    assert!(m.lighting.get_encoder(EncoderColourTargets::Reverb).is_none());
}

#[test]
fn equaliser_band_gains() {
    let mut m = MixerStatus::new(hardware(DeviceType::Full));
    assert_eq!(m.mic_status.equaliser.get_gain(EqFrequencies::Eq1KHz), 0);
    m.mic_status.equaliser.set_gain(EqFrequencies::Eq1KHz, -9);
    assert_eq!(m.mic_status.equaliser.get_gain(EqFrequencies::Eq1KHz), -9);
    m.mic_status.equaliser_mini.set_gain(MiniEqFrequencies::Eq250Hz, 6);
    assert_eq!(m.mic_status.equaliser_mini.get_gain(MiniEqFrequencies::Eq250Hz), 6);
    m.mic_status.set_mic_gain(MicrophoneType::Condenser, 48);
    assert_eq!(m.mic_status.get_mic_gain(MicrophoneType::Condenser), 48);
    assert_eq!(m.mic_status.get_mic_gain(MicrophoneType::Dynamic), 0);
}

#[test]
fn volume_extremes_round_trip_through_accessors() {
    let mut m = MixerStatus::new(hardware(DeviceType::Full));
    m.set_channel_volume(ChannelName::LineOut, 255);
    m.set_channel_volume(ChannelName::MicMonitor, 0);
    assert_eq!(m.get_channel_volume(ChannelName::LineOut), 255);
    assert_eq!(m.get_channel_volume(ChannelName::MicMonitor), 0);
}
