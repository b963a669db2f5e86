use mixer_status::daemon::{DaemonStatus, SampleFile};
use mixer_status::ids::{
    ChannelName, DeviceType, EffectBankPresets, FaderDisplayStyle, InputDevice, MuteFunction,
    OutputDevice, SampleBank, SampleButtons, SamplePlayOrder, SamplePlaybackMode,
};
use mixer_status::lighting::{FaderLighting, TwoColours};
use mixer_status::mixer::{
    FirmwareVersions, HardwareStatus, MixerStatus, Scribble, UsbProductInformation, UsbVersion,
    VersionNumber,
};
use mixer_status::sampler::{Sample, SamplerButton};
use mixer_status::wire::Token;

fn hardware(device_type: DeviceType) -> HardwareStatus {
    HardwareStatus {
        versions: FirmwareVersions {
            firmware: VersionNumber { major: 1, minor: 4, patch: 2, build: 99 },
            fpga_count: 1,
            dice: VersionNumber { major: 3, minor: 2, patch: 0, build: 7 },
        },
        serial_number: String::from("S220100042XYZ"),
        manufactured_date: String::from("2022-01-15"),
        device_type,
        usb_device: UsbProductInformation {
            manufacturer_name: String::from("TC-Helicon"),
            product_name: String::from("GoXLR"),
            version: UsbVersion { major: 2, minor: 1, patch: 0 },
            bus_number: 3,
            address: 9,
            identifier: Some(String::from("1-4.2")),
        },
    }
}

fn populated_full() -> MixerStatus {
    let mut m = MixerStatus::new(hardware(DeviceType::Full));
    m.set_channel_volume(ChannelName::Music, 180);
    m.set_channel_volume(ChannelName::Mic, 255);
    m.route(InputDevice::Music, OutputDevice::Headphones, true);
    m.route(InputDevice::Microphone, OutputDevice::BroadcastMix, true);
    m.set_active_effect_preset(EffectBankPresets::Preset5).unwrap();
    let button = SamplerButton {
        function: SamplePlaybackMode::PlayFade,
        order: SamplePlayOrder::Random,
        samples: vec![
            Sample { name: String::from("intro"), start_pct: 0, stop_pct: 10000 },
            Sample { name: String::from("sting"), start_pct: 2500, stop_pct: 7500 },
        ],
        is_playing: true,
    };
    m.set_sampler_button(SampleBank::C, SampleButtons::TopRight, Some(button)).unwrap();
    m.fader_status[1].channel = ChannelName::Chat;
    m.fader_status[1].mute_type = MuteFunction::ToStream;
    m.fader_status[1].scribble = Some(Scribble {
        file_name: Some(String::from("chat.png")),
        bottom_text: Some(String::from("CHAT")),
        left_text: None,
        inverted: true,
    });
    m.lighting.faders[1] = Some(FaderLighting {
        style: FaderDisplayStyle::GradientMeter,
        colours: TwoColours {
            colour_one: String::from("00FF00"),
            colour_two: String::from("FF0000"),
        },
    });
    m.profile_name = String::from("Streaming");
    m.mic_profile_name = String::from("Podcast");
    m
}

#[test]
fn round_trip_full_variant() {
    let m = populated_full();
    let toks = m.encode();
    let back = MixerStatus::decode(&toks).expect("decodes");
    assert_eq!(back, m);
}

#[test]
fn round_trip_mini_variant_substructures_absent() {
    let mut m = MixerStatus::new(hardware(DeviceType::Mini));
    m.set_channel_volume(ChannelName::Chat, 42);
    let toks = m.encode();
    let back = MixerStatus::decode(&toks).expect("decodes");
    assert_eq!(back, m);
    assert!(back.effects.is_none());
    assert!(back.sampler.is_none());
}

#[test]
fn scribble_absent_differs_from_empty_text() {
    let mut absent = MixerStatus::new(hardware(DeviceType::Mini));
    absent.fader_status[0].scribble = None;
    let mut empty = MixerStatus::new(hardware(DeviceType::Mini));
    empty.fader_status[0].scribble = Some(Scribble {
        file_name: None,
        bottom_text: Some(String::from("")),
        left_text: None,
        inverted: false,
    });
    let ta = absent.encode();
    let te = empty.encode();
    assert_ne!(ta, te);
    let ba = MixerStatus::decode(&ta).expect("decodes");
    let be = MixerStatus::decode(&te).expect("decodes");
    assert!(ba.fader_status[0].scribble.is_none());
    let s = be.fader_status[0].scribble.as_ref().expect("annotation present");
    assert_eq!(s.bottom_text.as_deref(), Some(""));
    assert_ne!(ba, be);
}

#[test]
fn truncated_stream_fails_as_a_whole() {
    let m = populated_full();
    let mut toks = m.encode();
    toks.pop();
    assert!(MixerStatus::decode(&toks).is_none());
    assert!(MixerStatus::decode(&Vec::new()).is_none());
}

#[test]
fn trailing_garbage_fails_as_a_whole() {
    let m = populated_full();
    let mut toks = m.encode();
    toks.push(Token::Uint(7));
    assert!(MixerStatus::decode(&toks).is_none());
}

#[test]
fn unknown_identifier_position_fails() {
    let m = MixerStatus::new(hardware(DeviceType::Mini));
    let mut toks = m.encode();
    // the device-type token sits right after the nine firmware-version
    // tokens and the two identity strings
    let device_type_index = 11;
    assert_eq!(toks[device_type_index], Token::Uint(2));
    toks[device_type_index] = Token::Uint(999);
    assert!(MixerStatus::decode(&toks).is_none());
}

#[test]
fn substructure_contradicting_variant_fails() {
    // a Full status re-labelled as Mini must not decode: the stream then
    // carries effects and sampler for a variant that has neither
    let full = populated_full();
    let toks = full.encode();
    let mut mini = MixerStatus::new(hardware(DeviceType::Mini));
    mini.hardware = hardware(DeviceType::Mini);
    let mini_toks = mini.encode();
    // splice the Mini identity in front of the Full payload's tail
    let full_header_len = hardware_token_len(&toks);
    let mini_header_len = hardware_token_len(&mini_toks);
    let mut spliced: Vec<Token> = mini_toks[..mini_header_len].to_vec();
    spliced.extend_from_slice(&toks[full_header_len..]);
    assert!(MixerStatus::decode(&spliced).is_none());
}

fn hardware_token_len(toks: &[Token]) -> usize {
    // versions: 4 + 1 + 4 uints; serial + date: 2 texts; device type: 1
    // uint; usb: 2 texts, 5 uints, 1 marker (+1 text when present)
    let mut n = 9 + 2 + 1 + 2 + 5;
    let marker = n;
    n += 1;
    if matches!(toks[marker], Token::Present) {
        n += 1;
    }
    n
}

#[test]
fn daemon_envelope_round_trip() {
    let mut d = DaemonStatus::default();
    d.daemon_version = String::from("1.1.4");
    d.add_mixer(String::from("S1"), populated_full());
    d.add_mixer(
        String::from("S2"),
        MixerStatus::new(hardware(DeviceType::Mini)),
    );
    d.paths.profile_directory = String::from("/var/lib/mixer/profiles");
    d.files.profiles.push(String::from("Default"));
    d.files.samples.push(SampleFile {
        name: String::from("airhorn"),
        file: String::from("airhorn-01.wav"),
    });
    let toks = d.encode();
    let back = DaemonStatus::decode(&toks).expect("decodes");
    assert_eq!(back, d);
    let mut truncated = toks.clone();
    truncated.pop();
    assert!(DaemonStatus::decode(&truncated).is_none());
}
