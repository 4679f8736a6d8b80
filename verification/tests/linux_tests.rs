//! Tests of the Linux backend logic: colormgr output parsing, colour
//! space words, device conversion and the filesystem fallback.

use display_icc::linux::{file_stem, ColormgrDevice, LinuxProfileProvider};
use display_icc::{ColorSpace, Display, ProfileConfig, ProfileError};

#[test]
fn test_parse_colormgr_devices() {
    let provider = LinuxProfileProvider::new();
    let sample_output = r#"
Device ID:          xrandr-Goldstar Company Ltd-LG ULTRAWIDE-0x00000101
Kind:               display
Model:              LG ULTRAWIDE
Vendor:             Goldstar Company Ltd
Serial:             0x00000101
Profile 1:          icc-2c9c8b0c8e5c4e9b8f7a6d5c4b3a2918
Profile 2:          icc-b7f8e9d0c1a2b3c4d5e6f7a8b9c0d1e2

Device ID:          xrandr-Dell Inc.-DELL U2415-HT8XN64P0D2S
Kind:               display
Model:              DELL U2415
Vendor:             Dell Inc.
Serial:             HT8XN64P0D2S
Profile 1:          icc-a1b2c3d4e5f6a7b8c9d0e1f2a3b4c5d6
        "#;

    let devices = provider.parse_colormgr_devices(sample_output).unwrap();

    assert_eq!(devices.len(), 2);

    let first_device = &devices[0];
    assert_eq!(first_device.id, "xrandr-Goldstar Company Ltd-LG ULTRAWIDE-0x00000101");
    assert_eq!(first_device.kind, "display");
    assert_eq!(first_device.model, "LG ULTRAWIDE");
    assert_eq!(first_device.vendor, "Goldstar Company Ltd");
    assert_eq!(first_device.serial, "0x00000101");
    assert_eq!(first_device.profiles.len(), 2);
    assert_eq!(first_device.profiles[0], "icc-2c9c8b0c8e5c4e9b8f7a6d5c4b3a2918");
    assert_eq!(first_device.profiles[1], "icc-b7f8e9d0c1a2b3c4d5e6f7a8b9c0d1e2");

    let second_device = &devices[1];
    assert_eq!(second_device.id, "xrandr-Dell Inc.-DELL U2415-HT8XN64P0D2S");
    assert_eq!(second_device.model, "DELL U2415");
    assert_eq!(second_device.vendor, "Dell Inc.");
    assert_eq!(second_device.profiles.len(), 1);
    assert_eq!(second_device.profiles[0], "icc-a1b2c3d4e5f6a7b8c9d0e1f2a3b4c5d6");
}

#[test]
fn test_parse_colormgr_devices_empty() {
    let provider = LinuxProfileProvider::new();
    let empty_output = "";

    let devices = provider.parse_colormgr_devices(empty_output).unwrap();
    assert_eq!(devices.len(), 0);
}

#[test]
fn test_parse_colormgr_devices_no_displays() {
    let provider = LinuxProfileProvider::new();
    let sample_output = r#"
Device ID:          usb-046d-c52b-event-mouse
Kind:               mouse
Model:              Logitech USB Receiver
Vendor:             Logitech
        "#;

    let devices = provider.parse_colormgr_devices(sample_output).unwrap();
    assert_eq!(devices.len(), 0);
}

#[test]
fn test_parse_colormgr_profile() {
    let provider = LinuxProfileProvider::new();
    let sample_output = r#"
Profile ID:         icc-2c9c8b0c8e5c4e9b8f7a6d5c4b3a2918
Filename:           /usr/share/color/icc/sRGB.icc
Title:              sRGB IEC61966-2.1
Kind:               display-device
Colorspace:         rgb
        "#;

    let profile = provider.parse_colormgr_profile(sample_output, "test-id").unwrap();

    assert_eq!(profile.id, "test-id");
    assert_eq!(profile.filename, Some("/usr/share/color/icc/sRGB.icc".to_string()));
    assert_eq!(profile.title, Some("sRGB IEC61966-2.1".to_string()));
    assert_eq!(profile.kind, "display-device");
    assert_eq!(profile.colorspace, "rgb");
}

#[test]
fn test_parse_colormgr_profile_no_filename() {
    let provider = LinuxProfileProvider::new();
    let sample_output = r#"
Profile ID:         icc-builtin-profile
Filename:           (none)
Title:              Built-in sRGB
Kind:               display-device
Colorspace:         rgb
        "#;

    let profile = provider.parse_colormgr_profile(sample_output, "test-id").unwrap();

    assert_eq!(profile.filename, None);
    assert_eq!(profile.title, Some("Built-in sRGB".to_string()));
}

#[test]
fn test_parse_colorspace() {
    let provider = LinuxProfileProvider::new();

    assert_eq!(provider.parse_colorspace("rgb"), ColorSpace::RGB);
    assert_eq!(provider.parse_colorspace("RGB"), ColorSpace::RGB);
    assert_eq!(provider.parse_colorspace("srgb"), ColorSpace::RGB);
    assert_eq!(provider.parse_colorspace("lab"), ColorSpace::Lab);
    assert_eq!(provider.parse_colorspace("LAB"), ColorSpace::Lab);
    assert_eq!(provider.parse_colorspace("xyz"), ColorSpace::Unknown);
    assert_eq!(provider.parse_colorspace(""), ColorSpace::Unknown);
}

#[test]
fn test_should_use_dbus_without_feature() {
    let provider = LinuxProfileProvider::new();
    // Without a reachable message-bus service the channel is never used.
    assert!(!provider.should_use_dbus(false));
}

#[test]
fn test_should_use_dbus_with_config() {
    let config = ProfileConfig { linux_prefer_dbus: false, fallback_enabled: true };
    let provider = LinuxProfileProvider::with_config(config);
    // Even with the service reachable, the configuration wins.
    assert!(!provider.should_use_dbus(true));
}

#[test]
fn test_fallback_chain_config() {
    let config_with_fallback = ProfileConfig { linux_prefer_dbus: true, fallback_enabled: true };

    let config_without_fallback =
        ProfileConfig { linux_prefer_dbus: true, fallback_enabled: false };

    let provider_with = LinuxProfileProvider::with_config(config_with_fallback);
    let provider_without = LinuxProfileProvider::with_config(config_without_fallback);

    assert!(provider_with.config.fallback_enabled);
    assert!(!provider_without.config.fallback_enabled);
}

#[test]
fn test_filesystem_fallback_display() {
    let provider = LinuxProfileProvider::new();

    let profiles = vec![
        "/usr/share/color/icc/sRGB.icc".to_string(),
        "/usr/share/color/icc/AdobeRGB.icc".to_string(),
    ];

    if !profiles.is_empty() {
        let displays = provider.fallback_displays(&profiles).unwrap();

        assert_eq!(displays.len(), 1);
        assert_eq!(displays[0].id, "filesystem-fallback");
        assert_eq!(displays[0].name, "Generic Display");
        assert!(displays[0].is_primary);
    }
}

#[test]
fn test_display_name_generation() {
    let provider = LinuxProfileProvider::new();

    let device1 = ColormgrDevice {
        id: "test-1".to_string(),
        kind: "display".to_string(),
        model: "Monitor".to_string(),
        vendor: "TestCorp".to_string(),
        serial: "123".to_string(),
        profiles: vec!["profile-1".to_string()],
    };

    let device2 = ColormgrDevice {
        id: "test-2".to_string(),
        kind: "display".to_string(),
        model: "Monitor".to_string(),
        vendor: "".to_string(),
        serial: "456".to_string(),
        profiles: vec!["profile-2".to_string()],
    };

    let device3 = ColormgrDevice {
        id: "test-3".to_string(),
        kind: "display".to_string(),
        model: "".to_string(),
        vendor: "".to_string(),
        serial: "789".to_string(),
        profiles: vec!["profile-3".to_string()],
    };

    let devices = vec![device1, device2, device3];

    let displays: Vec<Display> = provider.convert_devices_to_displays(devices).unwrap();

    assert_eq!(displays[0].name, "TestCorp Monitor");
    assert_eq!(displays[1].name, "Monitor");
    assert_eq!(displays[2].name, "Display 3");

    assert!(displays[0].is_primary);
    assert!(!displays[1].is_primary);
    assert!(!displays[2].is_primary);
}

#[test]
fn test_convert_devices_empty_is_system_error() {
    let provider = LinuxProfileProvider::new();
    match provider.convert_devices_to_displays(Vec::new()) {
        Err(ProfileError::SystemError(msg)) => assert_eq!(msg, "No display devices found"),
        _ => panic!("Expected SystemError for an empty device list"),
    }
}

#[test]
fn test_convert_devices_single_primary() {
    // However many devices come in, exactly the first is primary.
    let provider = LinuxProfileProvider::new();
    let mut devices = Vec::new();
    for i in 0..4 {
        devices.push(ColormgrDevice {
            id: format!("dev-{}", i),
            kind: "display".to_string(),
            model: String::new(),
            vendor: String::new(),
            serial: String::new(),
            profiles: Vec::new(),
        });
    }
    let displays = provider.convert_devices_to_displays(devices).unwrap();
    let primaries = displays.iter().filter(|d| d.is_primary).count();
    assert_eq!(primaries, 1);
    assert!(displays[0].is_primary);
}

#[test]
fn test_fallback_displays_empty_scan_fails() {
    let provider = LinuxProfileProvider::new();
    match provider.fallback_displays(&Vec::new()) {
        Err(ProfileError::SystemError(msg)) => {
            assert_eq!(msg, "No display devices found via any method");
        }
        _ => panic!("Expected SystemError for an empty scan"),
    }
}

#[test]
fn test_fallback_profile_from_scan() {
    let provider = LinuxProfileProvider::new();
    let scanned = vec!["/usr/share/color/icc/sRGB.icc".to_string()];
    let info = provider.fallback_profile(&scanned).unwrap();
    assert_eq!(info.name, "sRGB");
    assert_eq!(info.description, None);
    assert_eq!(info.file_path, Some("/usr/share/color/icc/sRGB.icc".to_string()));
    assert_eq!(info.color_space, ColorSpace::Unknown);

    assert!(provider.fallback_profile(&Vec::new()).is_none());
}

#[test]
fn test_file_stem_forms() {
    assert_eq!(file_stem("/usr/share/color/icc/sRGB.icc"), "sRGB");
    assert_eq!(file_stem("plain.icm"), "plain");
    assert_eq!(file_stem("noextension"), "noextension");
    assert_eq!(file_stem(".hidden"), ".hidden");
    assert_eq!(file_stem("/ends/with/slash/"), "Unknown Profile");
}

#[test]
fn test_profile_info_from_colormgr_title_and_id() {
    let provider = LinuxProfileProvider::new();

    let with_title = display_icc::linux::ColormgrProfile {
        id: "icc-1".to_string(),
        filename: Some("/tmp/a.icc".to_string()),
        title: Some("A Title".to_string()),
        kind: "display-device".to_string(),
        colorspace: "rgb".to_string(),
    };
    let info = provider.profile_info_from_colormgr(with_title);
    assert_eq!(info.name, "A Title");
    assert_eq!(info.file_path, Some("/tmp/a.icc".to_string()));
    assert_eq!(info.color_space, ColorSpace::RGB);
    assert_eq!(info.description, None);

    let without_title = display_icc::linux::ColormgrProfile {
        id: "icc-2".to_string(),
        filename: None,
        title: None,
        kind: "display-device".to_string(),
        colorspace: "lab".to_string(),
    };
    let info = provider.profile_info_from_colormgr(without_title);
    assert_eq!(info.name, "icc-2");
    assert_eq!(info.file_path, None);
    assert_eq!(info.color_space, ColorSpace::Lab);
}

#[test]
fn test_require_profile_file_linux() {
    let provider = LinuxProfileProvider::new();
    let display = Display {
        id: "dev-1".to_string(),
        name: "Monitor".to_string(),
        is_primary: true,
    };
    let with_path = display_icc::ProfileInfo {
        name: "p".to_string(),
        description: None,
        file_path: Some("/tmp/p.icc".to_string()),
        color_space: ColorSpace::RGB,
    };
    assert_eq!(provider.require_profile_file(&display, &with_path).unwrap(), "/tmp/p.icc");

    let without_path = display_icc::ProfileInfo {
        name: "p".to_string(),
        description: None,
        file_path: None,
        color_space: ColorSpace::RGB,
    };
    match provider.require_profile_file(&display, &without_path) {
        Err(ProfileError::ProfileNotAvailable(msg)) => {
            assert_eq!(msg, "No file path available for display dev-1");
        }
        _ => panic!("Expected ProfileNotAvailable without a file path"),
    }
}

#[test]
fn test_find_device_and_first_profile() {
    let devices = vec![
        ColormgrDevice {
            id: "a".to_string(),
            kind: "display".to_string(),
            model: String::new(),
            vendor: String::new(),
            serial: String::new(),
            profiles: Vec::new(),
        },
        ColormgrDevice {
            id: "b".to_string(),
            kind: "display".to_string(),
            model: String::new(),
            vendor: String::new(),
            serial: String::new(),
            profiles: vec!["icc-7".to_string(), "icc-8".to_string()],
        },
    ];
    assert_eq!(display_icc::linux::find_device_index(&devices, "b"), Some(1));
    assert_eq!(display_icc::linux::find_device_index(&devices, "c"), None);
    // The tie-break rule: always the first reported profile.
    assert_eq!(display_icc::linux::first_profile_id(&devices[1]), Some("icc-7".to_string()));
    assert_eq!(display_icc::linux::first_profile_id(&devices[0]), None);
}
