//! Device identifiers, capabilities and catalogs.
use octave::audio_devices::capabilities::{
    clamp_default_buffer_size, input_capabilities_for_device, output_capabilities_for_device,
    ConfigRange,
};
use octave::audio_devices::catalog::{
    DeviceCatalog, Found, HostListing, HostSide, ProbedDevice, ProbedHost,
};
use octave::audio_devices::ids::{decode_id, encode_id, host_id_to_backend};
use octave::audio_devices::types::{Backend, DeviceError, DeviceId};
use octave::player::device as player_device;
use octave::recorder::device as recorder_device;
use octave::recorder::error::OpenError;
use std::collections::HashSet;

fn seen(name: &str, outputs: Option<&[u16]>, inputs: Option<&[u16]>, slot: usize) -> ProbedDevice {
    ProbedDevice {
        name: Some(name.to_string()),
        output_channels: outputs.map(|c| c.to_vec()),
        input_channels: inputs.map(|c| c.to_vec()),
        slot,
    }
}

/// An ALSA host with a duplex interface, a speaker and a microphone, in two
/// passes: the first pass misses the speaker.
fn probed() -> Vec<ProbedHost> {
    vec![ProbedHost {
        name: "ALSA".to_string(),
        default_output: Some("speaker".to_string()),
        default_input: Some("mic".to_string()),
        output_probes: vec![
            seen("duplex", Some(&[2, 4, 1]), Some(&[2]), 0),
            seen("duplex", Some(&[2, 4, 1]), Some(&[2]), 1),
            seen("speaker", Some(&[2]), None, 2),
        ],
        input_probes: vec![
            seen("duplex", Some(&[8]), Some(&[8]), 3),
            seen("mic", None, Some(&[1]), 4),
            ProbedDevice {
                name: None,
                output_channels: Some(vec![2]),
                input_channels: Some(vec![2]),
                slot: 5,
            },
        ],
    }]
}

fn listing(name: &str, opened: Result<(), String>) -> HostListing {
    HostListing {
        name: name.to_string(),
        opened,
        outputs: Some(vec![(None, 6), (Some("speaker".to_string()), 7)]),
        inputs: Some(vec![(Some("mic".to_string()), 8), (Some("speaker".to_string()), 9)]),
    }
}

fn side(name: &str) -> HostSide {
    HostSide {
        name: name.to_string(),
        opened: Ok(()),
        devices: Ok(vec![(None, 0), (Some("mic".to_string()), 7)]),
    }
}

fn id(s: &str) -> DeviceId {
    DeviceId(s.to_string())
}

#[test]
fn lib_list_output_devices_does_not_panic() {
    let mut catalog = DeviceCatalog::new();
    assert!(catalog.list_output_devices(&Vec::new()).is_empty());
    let _ = catalog.list_output_devices(&probed());
}

#[test]
fn list_input_devices_does_not_panic() {
    let mut catalog = DeviceCatalog::new();
    assert!(catalog.list_input_devices(&Vec::new()).is_empty());
    let _ = catalog.list_input_devices(&probed());
}

#[test]
fn lib_id_round_trip() {
    let s = encode_id("ALSA", "Some Device Name");
    let (host, dev) = decode_id(&s).unwrap();
    assert_eq!(host, "ALSA");
    assert_eq!(dev, "Some Device Name");
}

#[test]
fn lib_unknown_id_returns_device_not_found() {
    let catalog = DeviceCatalog::new();
    let bogus = DeviceId("NOPE:not-a-real-device-87b5e".into());
    match catalog.find_device(&bogus, &vec![listing("ALSA", Ok(()))]) {
        Err(DeviceError::DeviceNotFound { .. }) => {}
        Err(other) => panic!("expected DeviceNotFound, got {other:?}"),
        Ok(_) => panic!("expected DeviceNotFound, got Ok(device)"),
    }
}

#[test]
fn unified_listing_returns_same_devices_for_both_directions() {
    let mut catalog = DeviceCatalog::new();
    let outputs: HashSet<_> =
        catalog.list_output_devices(&probed()).into_iter().map(|d| d.id).collect();
    let inputs: HashSet<_> =
        catalog.list_input_devices(&probed()).into_iter().map(|d| d.id).collect();
    for id in outputs.iter().chain(inputs.iter()) {
        catalog
            .find_device(id, &Vec::new())
            .expect("a just-listed device must be findable");
    }
    assert!(outputs.contains(&id("ALSA:duplex")) && inputs.contains(&id("ALSA:duplex")));
}

#[test]
fn lib_relisting_replaces_the_cache_not_merging_into_it() {
    let mut catalog = DeviceCatalog::new();
    let fake_id = DeviceId("ALSA:no-such-device-marker-only-for-this-test".into());
    let mut hosts = probed();
    hosts[0].output_probes.push(seen(
        "no-such-device-marker-only-for-this-test",
        Some(&[2]),
        None,
        9,
    ));
    catalog.list_output_devices(&hosts);
    assert_eq!(catalog.cached_slot(&fake_id), Some(9));

    let _ = catalog.list_output_devices(&probed());
    assert_eq!(
        catalog.cached_slot(&fake_id),
        None,
        "fake key from before re-list must have been evicted",
    );
}

#[test]
fn lib_clamp_default_buffer_size_picks_256_inside_range() {
    assert_eq!(clamp_default_buffer_size(32, 4096), 256);
}

#[test]
fn lib_clamp_default_buffer_size_clamps_up_when_min_exceeds_256() {
    assert_eq!(clamp_default_buffer_size(512, 8192), 512);
}

#[test]
fn lib_clamp_default_buffer_size_clamps_down_when_max_below_256() {
    assert_eq!(clamp_default_buffer_size(16, 128), 128);
}

#[test]
fn lib_clamp_default_buffer_size_unknown_range_returns_256() {
    assert_eq!(clamp_default_buffer_size(0, 0), 256);
}

#[test]
fn lib_host_id_to_backend_unknown_host_yields_other_not_alsa() {
    assert!(matches!(Backend::Other("sndio".into()), Backend::Other(_)));
    assert_eq!(host_id_to_backend("sndio"), Backend::Other("sndio".into()));
}

#[test]
fn device_list_output_devices_does_not_panic() {
    let mut catalog = player_device::DeviceCatalog::new();
    assert!(catalog.list_output_devices(&Vec::new()).is_empty());
    let _ = catalog.list_output_devices(&probed());
}

#[test]
fn list_devices_does_not_panic() {
    let mut catalog = recorder_device::DeviceCatalog::new();
    assert!(catalog.list_devices(&Vec::new()).is_empty());
    let _ = catalog.list_devices(&probed());
}

#[test]
fn device_id_round_trip() {
    let s = encode_id("ALSA", "Some Device Name");
    let (host, dev) = recorder_device::decode_id(&s).unwrap();
    assert_eq!(host, "ALSA");
    assert_eq!(dev, "Some Device Name");
    let (host, dev) = player_device::decode_id(&s).unwrap();
    assert_eq!(host, "ALSA");
    assert_eq!(dev, "Some Device Name");
}

#[test]
fn device_unknown_id_returns_device_not_found() {
    let hosts = vec![side("ALSA")];
    let catalog = player_device::DeviceCatalog::new();
    let unknown = DeviceId("ALSA:absolutely-no-such-device-zzz".into());
    match catalog.find_device(&unknown, &hosts) {
        Ok(_) => panic!("found a device that shouldn't exist"),
        Err(e) => assert!(matches!(e, DeviceError::DeviceNotFound { .. })),
    }

    let catalog = recorder_device::DeviceCatalog::new();
    let bogus = DeviceId("NOPE:not-a-real-device-87b5e".into());
    match catalog.find_device(&bogus, &hosts) {
        Err(OpenError::DeviceNotFound { .. }) => {}
        Err(other) => panic!("expected DeviceNotFound, got {other:?}"),
        Ok(_) => panic!("expected DeviceNotFound, got Ok(device)"),
    }
}

#[test]
fn device_list_then_find_via_cache_succeeds() {
    let mut catalog = player_device::DeviceCatalog::new();
    let listed = catalog.list_output_devices(&probed());
    assert!(!listed.is_empty());
    for info in &listed {
        catalog
            .find_device(&info.id, &Vec::new())
            .expect("a just-listed device must be findable");
    }

    let mut catalog = recorder_device::DeviceCatalog::new();
    let listed = catalog.list_devices(&probed());
    assert!(!listed.is_empty());
    for info in &listed {
        catalog
            .find_device(&info.id, &Vec::new())
            .expect("a just-listed device must be findable");
    }
}

#[test]
fn device_relisting_replaces_the_cache_not_merging_into_it() {
    let marker = "no-such-device-marker-only-for-this-test";
    let fake_id = DeviceId("ALSA:no-such-device-marker-only-for-this-test".into());

    let mut hosts = probed();
    hosts[0].output_probes.push(seen(marker, Some(&[2]), None, 9));
    let mut catalog = player_device::DeviceCatalog::new();
    catalog.list_output_devices(&hosts);
    assert!(catalog.find_device(&fake_id, &Vec::new()).is_ok());
    let second = catalog.list_output_devices(&probed());
    for info in &second {
        assert!(catalog.find_device(&info.id, &Vec::new()).is_ok());
    }
    assert!(
        catalog.find_device(&fake_id, &Vec::new()).is_err(),
        "fake key from before re-list must have been evicted",
    );

    let mut hosts = probed();
    hosts[0].input_probes.push(seen(marker, None, Some(&[2]), 9));
    let mut catalog = recorder_device::DeviceCatalog::new();
    catalog.list_devices(&hosts);
    assert!(catalog.find_device(&fake_id, &Vec::new()).is_ok());
    let second = catalog.list_devices(&probed());
    for info in &second {
        assert!(catalog.find_device(&info.id, &Vec::new()).is_ok());
    }
    assert!(
        catalog.find_device(&fake_id, &Vec::new()).is_err(),
        "fake key from before re-list must have been evicted",
    );
}

#[test]
fn device_clamp_default_buffer_size_picks_256_inside_range() {
    assert_eq!(recorder_device::clamp_default_buffer_size(32, 4096), 256);
}

#[test]
fn device_clamp_default_buffer_size_clamps_up_when_min_exceeds_256() {
    assert_eq!(recorder_device::clamp_default_buffer_size(512, 8192), 512);
}

#[test]
fn device_clamp_default_buffer_size_clamps_down_when_max_below_256() {
    assert_eq!(recorder_device::clamp_default_buffer_size(16, 128), 128);
}

#[test]
fn device_clamp_default_buffer_size_unknown_range_returns_256() {
    assert_eq!(recorder_device::clamp_default_buffer_size(0, 0), 256);
}

#[test]
fn device_host_id_to_backend_unknown_host_yields_other_not_alsa() {
    assert!(matches!(Backend::Other("sndio".into()), Backend::Other(_)));
    let mut hosts = probed();
    hosts[0].name = "sndio".to_string();
    let mut catalog = recorder_device::DeviceCatalog::new();
    for info in catalog.list_devices(&hosts) {
        assert_eq!(info.backend, Backend::Other("sndio".into()));
    }
}

#[test]
fn known_hosts_have_backends_and_others_keep_their_names() {
    assert_eq!(host_id_to_backend("ALSA"), Backend::Alsa);
    assert_eq!(host_id_to_backend("JACK"), Backend::Jack);
    assert_eq!(host_id_to_backend("CoreAudio"), Backend::CoreAudio);
    assert_eq!(host_id_to_backend("WASAPI"), Backend::Wasapi);
    assert_eq!(host_id_to_backend("ASIO"), Backend::Asio);
    assert_eq!(host_id_to_backend("alsa"), Backend::Other("alsa".into()));
    assert_eq!(player_device::host_id_to_backend("JACK"), Backend::Jack);
    assert_eq!(player_device::host_id_to_backend("sndio"), Backend::Other("sndio".into()));
    let mut hosts = probed();
    hosts[0].name = "sndio".to_string();
    let listed = player_device::list_output_devices(&hosts);
    assert!(!listed.is_empty());
    for info in listed {
        assert_eq!(info.backend, Backend::Other("sndio".into()));
    }
}

#[test]
fn identifiers_split_at_the_first_colon() {
    assert_eq!(encode_id("ALSA", "hw:0,0"), "ALSA:hw:0,0");
    assert_eq!(decode_id("ALSA:hw:0,0"), Some(("ALSA", "hw:0,0")));
    assert_eq!(decode_id(":"), Some(("", "")));
    assert_eq!(decode_id("no colon"), None);
}

#[test]
fn the_catalog_is_the_union_of_the_probes() {
    let mut catalog = DeviceCatalog::new();
    let outputs = catalog.list_output_devices(&probed());
    let shown: Vec<_> = outputs
        .iter()
        .map(|d| (d.id.0.as_str(), d.max_output_channels, d.is_default_output))
        .collect();
    assert_eq!(shown, vec![("ALSA:duplex", 4, false), ("ALSA:speaker", 2, true)]);

    let inputs = catalog.list_input_devices(&probed());
    let shown: Vec<_> = inputs
        .iter()
        .map(|d| (d.id.0.as_str(), d.max_input_channels, d.is_default_input))
        .collect();
    assert_eq!(shown, vec![("ALSA:duplex", 2, false), ("ALSA:mic", 1, true)]);

    // The handle of the first sighting is the one that is kept.
    assert_eq!(catalog.cached_slot(&id("ALSA:duplex")), Some(0));
    assert_eq!(catalog.cached_slot(&id("ALSA:speaker")), Some(2));
    assert_eq!(catalog.cached_slot(&id("ALSA:mic")), Some(4));
    assert_eq!(catalog.cached_slot(&id("ALSA:other")), None);
}

#[test]
fn a_device_that_is_not_cached_is_looked_up_afresh() {
    let mut catalog = DeviceCatalog::new();
    let hosts = vec![listing("JACK", Err("no server".to_string())), listing("ALSA", Ok(()))];
    assert!(matches!(
        catalog.find_device(&id("ALSA:speaker"), &hosts),
        Ok(Found::Fresh(7))
    ));
    assert!(matches!(catalog.find_device(&id("ALSA:mic"), &hosts), Ok(Found::Fresh(8))));
    assert!(matches!(
        catalog.find_device(&id("JACK:mic"), &hosts),
        Err(DeviceError::BackendError(e)) if e == "no server"
    ));
    assert!(matches!(
        catalog.find_device(&id("mic"), &hosts),
        Err(DeviceError::DeviceNotFound { .. })
    ));
    catalog.refresh(&probed());
    assert!(matches!(
        catalog.find_device(&id("ALSA:speaker"), &hosts),
        Ok(Found::Cached(2))
    ));

    let mut broken = side("ALSA");
    broken.devices = Err("busy".to_string());
    let single = recorder_device::DeviceCatalog::new();
    assert!(matches!(
        single.find_device(&id("ALSA:mic"), &vec![broken]),
        Err(OpenError::BackendError(e)) if e == "busy"
    ));
    assert!(matches!(
        single.find_device(&id("ALSA:mic"), &vec![side("ALSA")]),
        Ok(Found::Fresh(7))
    ));
}

fn range(channels: u16, min: u32, max: u32, buffer_size: Option<(u32, u32)>) -> ConfigRange {
    ConfigRange {
        channels,
        min_sample_rate: min,
        max_sample_rate: max,
        buffer_size,
        is_f32: true,
    }
}

#[test]
fn capabilities_summarise_the_configurations() {
    let configs = vec![
        range(2, 44_100, 48_000, Some((64, 1024))),
        range(1, 96_000, 96_000, None),
        range(2, 48_000, 192_000, Some((32, 512))),
    ];
    let caps = output_capabilities_for_device(Ok(configs), Ok(48_000)).unwrap();
    assert_eq!(caps.min_sample_rate, 44_100);
    assert_eq!(caps.max_sample_rate, 192_000);
    assert_eq!(caps.supported_sample_rates, vec![44_100, 48_000, 88_200, 96_000, 176_400, 192_000]);
    assert_eq!((caps.min_buffer_size, caps.max_buffer_size), (32, 1024));
    assert_eq!(caps.channels, vec![1, 2]);
    assert_eq!(caps.default_sample_rate, 48_000);
    assert_eq!(caps.default_buffer_size, 256);

    assert!(matches!(
        input_capabilities_for_device(Err("gone".to_string()), Ok(48_000)),
        Err(DeviceError::BackendError(e)) if e == "supported_input_configs: gone"
    ));
    assert!(matches!(
        input_capabilities_for_device(Ok(Vec::new()), Ok(48_000)),
        Err(DeviceError::BackendError(_))
    ));
    assert!(matches!(
        input_capabilities_for_device(
            Ok(vec![range(1, 8_000, 8_000, None)]),
            Err("no default".to_string()),
        ),
        Err(DeviceError::BackendError(e)) if e == "default_input_config: no default"
    ));
    let caps = recorder_device::capabilities_for_device(
        Ok(vec![range(1, 8_000, 8_000, None)]),
        Ok(8_000),
    )
    .unwrap();
    assert_eq!((caps.min_buffer_size, caps.max_buffer_size), (0, 0));
    assert_eq!(caps.default_buffer_size, 256);
}

#[test]
fn capabilities_belong_to_a_device_that_is_there() {
    let configs = || Ok(vec![range(2, 44_100, 48_000, Some((64, 1024)))]);
    let hosts = vec![listing("ALSA", Ok(()))];
    let sides = vec![side("ALSA")];
    let gone = id("ALSA:gone");
    let mic = id("ALSA:mic");

    let catalog = DeviceCatalog::new();
    let caps = catalog.output_capabilities(&id("ALSA:speaker"), &hosts, configs(), Ok(48_000));
    assert_eq!(caps.unwrap().default_sample_rate, 48_000);
    assert!(matches!(
        catalog.output_capabilities(&gone, &hosts, configs(), Ok(48_000)),
        Err(DeviceError::DeviceNotFound { .. })
    ));
    let caps = catalog.input_capabilities(&mic, &hosts, configs(), Ok(44_100));
    assert_eq!(caps.unwrap().default_sample_rate, 44_100);
    assert!(matches!(
        catalog.input_capabilities(&gone, &hosts, configs(), Ok(48_000)),
        Err(DeviceError::DeviceNotFound { .. })
    ));

    let caps = player_device::output_device_capabilities(&mic, &sides, configs(), Ok(48_000));
    assert_eq!(caps.unwrap().supported_sample_rates, vec![44_100, 48_000]);
    assert!(matches!(
        player_device::output_device_capabilities(&gone, &sides, configs(), Ok(48_000)),
        Err(DeviceError::DeviceNotFound { .. })
    ));
    let mut cached = player_device::DeviceCatalog::new();
    assert_eq!(
        cached.list_output_devices(&probed()).len(),
        player_device::list_output_devices(&probed()).len()
    );
    assert!(matches!(
        cached.output_device_capabilities(
            &id("ALSA:speaker"),
            &Vec::new(),
            Err("unplugged".to_string()),
            Ok(48_000),
        ),
        Err(DeviceError::BackendError(_))
    ));

    let recorder = recorder_device::DeviceCatalog::new();
    let caps = recorder.device_capabilities(&mic, &sides, configs(), Ok(48_000));
    assert_eq!(caps.unwrap().channels, vec![2]);
    assert!(matches!(
        recorder.device_capabilities(&gone, &sides, configs(), Ok(48_000)),
        Err(OpenError::DeviceNotFound { .. })
    ));
}
