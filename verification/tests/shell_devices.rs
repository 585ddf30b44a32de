//! How the desktop shell shows devices.
use octave::audio_devices::types::{
    Backend, BufferSize, DeviceId, InputCapabilities, InputDeviceInfo, OutputDeviceInfo,
};
use octave::shell::devices::{
    alsa_friendly_name, backend_name, read_alsa_card_long_names, recording_spec, shown_input,
    shown_output,
};

const CARDS: &str = " 0 [PCH            ]: HDA-Intel - HDA Intel PCH
                      HDA Intel PCH at 0xf7410000 irq 32
 2 [USB            ]: USB-Audio - Scarlett Solo USB
                      Focusrite Scarlett Solo USB at usb-0000:00:14.0-1, high speed
";

#[test]
fn card_names_come_from_the_second_line() {
    let cards = read_alsa_card_long_names(CARDS);
    let pairs: Vec<_> = cards.iter().map(|c| (c.short.as_str(), c.long.as_str())).collect();
    assert_eq!(pairs, vec![("PCH", "HDA Intel PCH"), ("USB", "Focusrite Scarlett Solo USB")]);
    assert!(read_alsa_card_long_names("").is_empty());
    assert!(read_alsa_card_long_names("--- no soundcards ---\n").is_empty());
    assert!(read_alsa_card_long_names(" 0 []: x\n  long\n").is_empty());
    assert!(read_alsa_card_long_names(" 0 [A]: x").is_empty());
    // Without a location the whole line is the name; the last location counts.
    let cards = read_alsa_card_long_names("[A]\n  Look at me at usb\n[B]\nplain\r\n");
    let pairs: Vec<_> = cards.iter().map(|c| (c.short.as_str(), c.long.as_str())).collect();
    assert_eq!(pairs, vec![("A", "Look at me"), ("B", "plain")]);
}

#[test]
fn a_card_that_comes_twice_keeps_its_last_name() {
    let cards = read_alsa_card_long_names("[A]\nfirst\n[A]\nsecond\n");
    assert_eq!(alsa_friendly_name("hw:CARD=A,DEV=0", &cards).as_deref(), Some("second"));
}

#[test]
fn friendly_names_are_looked_up_by_card() {
    let cards = read_alsa_card_long_names(CARDS);
    assert_eq!(
        alsa_friendly_name("hw:CARD=USB,DEV=0", &cards).as_deref(),
        Some("Focusrite Scarlett Solo USB")
    );
    assert_eq!(
        alsa_friendly_name("hw:CARD=PCH,DEV=3", &cards).as_deref(),
        Some("HDA Intel PCH")
    );
    assert_eq!(alsa_friendly_name("hw:CARD=X,DEV=0", &cards), None);
}

#[test]
fn names_of_the_plug_layer_keep_their_raw_form() {
    let cards = read_alsa_card_long_names(CARDS);
    for name in [
        "default",
        "pipewire",
        "dmix:CARD=USB,DEV=0",
        "plughw:CARD=USB,DEV=0",
        "surround51:CARD=PCH,DEV=0",
        "front:CARD=PCH",
        "sysdefault:CARD=USB",
        "hw:CARD=USB",
        "hw:CARD=USB,SUBDEV=0",
        "hw:0,0",
        "",
    ] {
        assert_eq!(alsa_friendly_name(name, &cards), None, "{name}");
    }
}

#[test]
fn backends_are_shown_by_their_names() {
    assert_eq!(backend_name(&Backend::CoreAudio), "CoreAudio");
    assert_eq!(backend_name(&Backend::PipeWire), "PipeWire");
    let other = Backend::Other("a\"b".into());
    assert_eq!(backend_name(&other), format!("{other:?}"));
}

#[test]
fn devices_are_shown_with_their_friendly_names() {
    let cards = read_alsa_card_long_names(CARDS);
    let out = shown_output(
        OutputDeviceInfo {
            id: DeviceId("ALSA:hw:CARD=USB,DEV=0".into()),
            name: "hw:CARD=USB,DEV=0".into(),
            backend: Backend::Alsa,
            is_default_output: true,
            max_output_channels: 2,
        },
        &cards,
    );
    assert_eq!(out.device_id, "ALSA:hw:CARD=USB,DEV=0");
    assert_eq!(out.friendly_name.as_deref(), Some("Focusrite Scarlett Solo USB"));
    assert_eq!((out.backend.as_str(), out.is_default, out.max_channels), ("Alsa", true, 2));
    let input = shown_input(
        InputDeviceInfo {
            id: DeviceId("ALSA:default".into()),
            name: "default".into(),
            backend: Backend::Alsa,
            is_default_input: false,
            is_class_compliant_usb: false,
            max_input_channels: 1,
        },
        &cards,
    );
    assert_eq!((input.name.as_str(), input.friendly_name), ("default", None));
    assert_eq!((input.is_default, input.max_channels), (false, 1));
}

#[test]
fn a_recording_prefers_48_khz_stereo() {
    let caps = |rates: Vec<u32>, channels: Vec<u16>| InputCapabilities {
        min_sample_rate: 8_000,
        max_sample_rate: 96_000,
        supported_sample_rates: rates,
        min_buffer_size: 0,
        max_buffer_size: 0,
        channels,
        default_sample_rate: 44_100,
        default_buffer_size: 256,
    };
    let s = recording_spec(DeviceId("d".into()), &caps(vec![44_100, 48_000], vec![1, 2]));
    assert_eq!((s.sample_rate, s.channels), (48_000, 2));
    assert_eq!(s.buffer_size, BufferSize::Default);
    let s = recording_spec(DeviceId("d".into()), &caps(vec![44_100], vec![4]));
    assert_eq!((s.sample_rate, s.channels), (44_100, 1));
}
