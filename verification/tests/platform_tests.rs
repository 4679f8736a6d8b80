//! Tests of the macOS and Windows backend logic: the built-in Apple
//! profiles, the native-query decisions, monitor mapping, the profile
//! extension filter, and the Windows fallback search.

use display_icc::macos::{
    determine_color_space, get_display_name, get_fallback_profile, parse_display_id,
    AppleDisplayProfile, MacOSProfileProvider, NativeDataQuery, NativeSpaceInfo,
};
use display_icc::windows::{
    displays_from_monitors, handle_windows_permissions_error, monitor_index_of_id,
    primary_from_monitors, CandidateFile, FileErrorKind, MonitorDesc, MonitorProfileQuery,
    WindowsProfileProvider, WinProfileDecision,
};
use display_icc::{ColorSpace, Display, IccHeader, ProfileConfig, ProfileError};

#[test]
fn test_determine_color_space() {
    let mut data = vec![0u8; 128];
    data[16..20].copy_from_slice(b"RGB ");
    assert_eq!(determine_color_space(&data), ColorSpace::RGB);

    data[16..20].copy_from_slice(b"Lab ");
    assert_eq!(determine_color_space(&data), ColorSpace::Lab);

    data[16..20].copy_from_slice(b"CMYK");
    assert_eq!(determine_color_space(&data), ColorSpace::Unknown);

    // Too short to hold the field at all.
    assert_eq!(determine_color_space(&[0u8; 19]), ColorSpace::Unknown);
}

#[test]
fn test_apple_builtin_profiles_parse() {
    let srgb = AppleDisplayProfile::srgb();
    assert_eq!(srgb.name, "sRGB IEC61966-2.1");
    assert_eq!(srgb.description, "Standard RGB color space");
    assert_eq!(srgb.color_space, ColorSpace::RGB);
    assert_eq!(srgb.icc_data.len(), 128);

    let header = IccHeader::parse(&srgb.icc_data).expect("built-in header parses");
    assert_eq!(header.profile_size, 128);
    assert_eq!(header.preferred_cmm, "ADBE");
    assert_eq!(header.version, (2, 1));
    assert_eq!(header.device_class, "mntr");
    assert_eq!(header.data_color_space, "RGB ");
    assert_eq!(header.connection_space, "XYZ ");
    assert!(header.validate().is_ok());

    let p3 = AppleDisplayProfile::display_p3();
    assert_eq!(p3.name, "Display P3");
    let header = IccHeader::parse(&p3.icc_data).expect("built-in header parses");
    assert_eq!(header.preferred_cmm, "APPL");

    let lcd = AppleDisplayProfile::color_lcd();
    assert_eq!(lcd.name, "Color LCD");
    assert_eq!(lcd.description, "Apple Color LCD profile");
}

#[test]
fn test_get_fallback_profile_choice() {
    let builtin = Display {
        id: "1".to_string(),
        name: "Built-in Retina Display".to_string(),
        is_primary: true,
    };
    assert_eq!(get_fallback_profile(&builtin).name, "Color LCD");

    let external = Display {
        id: "2".to_string(),
        name: "External Display 2".to_string(),
        is_primary: false,
    };
    assert_eq!(get_fallback_profile(&external).name, "sRGB IEC61966-2.1");

    // A built-in name alone is not enough: the display must be primary.
    let secondary_builtin = Display {
        id: "3".to_string(),
        name: "Built-in Display".to_string(),
        is_primary: false,
    };
    assert_eq!(get_fallback_profile(&secondary_builtin).name, "sRGB IEC61966-2.1");
}

#[test]
fn test_parse_display_id_forms() {
    assert_eq!(parse_display_id("69733382"), Some(69733382));
    assert_eq!(parse_display_id("+42"), Some(42));
    assert_eq!(parse_display_id("0"), Some(0));
    assert_eq!(parse_display_id(""), None);
    assert_eq!(parse_display_id("main"), None);
    assert_eq!(parse_display_id("12a"), None);
    // One past the largest 32-bit value overflows.
    assert_eq!(parse_display_id("4294967295"), Some(4294967295));
    assert_eq!(parse_display_id("4294967296"), None);
}

#[test]
fn test_get_display_name_forms() {
    assert_eq!(get_display_name(7, true), "Built-in Display");
    assert_eq!(get_display_name(7, false), "External Display 7");
    assert_eq!(get_display_name(69733382, false), "External Display 69733382");
}

#[test]
fn test_macos_resolve_profile_native_success() {
    let provider = MacOSProfileProvider::new();
    let display = Display {
        id: "1".to_string(),
        name: "Built-in Display".to_string(),
        is_primary: true,
    };
    let mut icc = vec![0u8; 128];
    icc[16..20].copy_from_slice(b"RGB ");
    let native = NativeSpaceInfo {
        name: Some("Color LCD".to_string()),
        icc_data: Some(icc),
    };
    let info = provider.resolve_profile(&display, Some(Ok(native))).unwrap();
    assert_eq!(info.name, "Color LCD");
    assert_eq!(info.description, Some("Color profile for Built-in Display".to_string()));
    assert_eq!(info.file_path, None);
    assert_eq!(info.color_space, ColorSpace::RGB);
}

#[test]
fn test_macos_resolve_profile_blank_name_and_no_data() {
    let provider = MacOSProfileProvider::new();
    let display = Display {
        id: "2".to_string(),
        name: "Some Display".to_string(),
        is_primary: false,
    };
    let native = NativeSpaceInfo { name: Some("   ".to_string()), icc_data: None };
    let info = provider.resolve_profile(&display, Some(Ok(native))).unwrap();
    assert_eq!(info.name, "Display Profile");
    assert_eq!(info.color_space, ColorSpace::RGB);
}

#[test]
fn test_macos_resolve_profile_fallback_paths() {
    let fallback_on = MacOSProfileProvider::new();
    let fallback_off = MacOSProfileProvider::with_config(ProfileConfig {
        linux_prefer_dbus: true,
        fallback_enabled: false,
    });
    let display = Display {
        id: "not-a-number".to_string(),
        name: "Mystery".to_string(),
        is_primary: false,
    };

    // An unparsable id falls back, or is a missing display.
    let info = fallback_on.resolve_profile(&display, None).unwrap();
    assert_eq!(info.name, "sRGB IEC61966-2.1");
    match fallback_off.resolve_profile(&display, None) {
        Err(ProfileError::DisplayNotFound(id)) => assert_eq!(id, "not-a-number"),
        _ => panic!("Expected DisplayNotFound with fallback off"),
    }

    // A failed native query falls back, or surfaces its own error.
    let numbered = Display {
        id: "5".to_string(),
        name: "Five".to_string(),
        is_primary: false,
    };
    let err = ProfileError::ProfileNotAvailable("Display 5".to_string());
    let info = fallback_on.resolve_profile(&numbered, Some(Err(err.clone()))).unwrap();
    assert_eq!(info.name, "sRGB IEC61966-2.1");
    match fallback_off.resolve_profile(&numbered, Some(Err(err))) {
        Err(ProfileError::ProfileNotAvailable(msg)) => assert_eq!(msg, "Display 5"),
        _ => panic!("Expected the query's own error with fallback off"),
    }
}

#[test]
fn test_macos_resolve_profile_data_paths() {
    let fallback_on = MacOSProfileProvider::new();
    let fallback_off = MacOSProfileProvider::with_config(ProfileConfig {
        linux_prefer_dbus: true,
        fallback_enabled: false,
    });
    let display = Display {
        id: "5".to_string(),
        name: "Five".to_string(),
        is_primary: false,
    };

    let bytes = vec![1u8, 2, 3];
    let data = fallback_on
        .resolve_profile_data(&display, Some(NativeDataQuery::Data(bytes.clone())))
        .unwrap();
    assert_eq!(data, bytes);

    let err = ProfileError::ProfileNotAvailable("No ICC data available".to_string());
    let data = fallback_on
        .resolve_profile_data(&display, Some(NativeDataQuery::DataUnavailable(err.clone())))
        .unwrap();
    assert_eq!(data.len(), 128);

    match fallback_off
        .resolve_profile_data(&display, Some(NativeDataQuery::DataUnavailable(err)))
    {
        Err(ProfileError::ProfileNotAvailable(msg)) => {
            assert_eq!(msg, "No ICC data available");
        }
        _ => panic!("Expected the query's own error with fallback off"),
    }

    let err = ProfileError::ProfileNotAvailable("Display 5".to_string());
    match fallback_off
        .resolve_profile_data(&display, Some(NativeDataQuery::SpaceUnavailable(err)))
    {
        Err(ProfileError::ProfileNotAvailable(id)) => assert_eq!(id, "5"),
        _ => panic!("Expected ProfileNotAvailable naming the display"),
    }
}

#[test]
fn test_windows_parse_icc_header() {
    let mut data = vec![0u8; 128];
    data[16..20].copy_from_slice(b"Lab ");
    let (name, description, color_space) =
        display_icc::windows::parse_icc_header(&data).unwrap();
    assert_eq!(name, "Windows Display Profile");
    assert_eq!(description, None);
    assert_eq!(color_space, ColorSpace::Lab);

    assert!(display_icc::windows::parse_icc_header(&[0u8; 64]).is_err());
}

#[test]
fn test_displays_from_monitors() {
    let monitors = vec![
        MonitorDesc { name: r"\\.\DISPLAY1".to_string(), is_primary: false },
        MonitorDesc { name: r"\\.\DISPLAY2".to_string(), is_primary: true },
    ];
    let displays = displays_from_monitors(&monitors);
    assert_eq!(displays.len(), 2);
    assert_eq!(displays[0].id, "monitor_0");
    assert_eq!(displays[1].id, "monitor_1");
    assert!(!displays[0].is_primary);
    assert!(displays[1].is_primary);

    let primary = primary_from_monitors(&monitors).unwrap();
    assert_eq!(primary.name, r"\\.\DISPLAY2");
    assert!(primary.is_primary);

    // Without a flagged monitor the first stands in as primary.
    let unflagged = vec![MonitorDesc { name: "only".to_string(), is_primary: false }];
    let primary = primary_from_monitors(&unflagged).unwrap();
    assert_eq!(primary.id, "monitor_0");
    assert!(primary.is_primary);

    assert!(primary_from_monitors(&Vec::new()).is_err());
}

#[test]
fn test_monitor_index_of_id() {
    assert_eq!(monitor_index_of_id("monitor_0"), Some(0));
    assert_eq!(monitor_index_of_id("monitor_17"), Some(17));
    assert_eq!(monitor_index_of_id("monitor_"), None);
    assert_eq!(monitor_index_of_id("display_1"), None);
}

#[test]
fn test_scan_color_directory_filter() {
    let provider = WindowsProfileProvider::new();
    let paths = vec![
        "sRGB Color Space Profile.icm".to_string(),
        "readme.txt".to_string(),
        "Adobe RGB (1998).ICC".to_string(),
        "noextension".to_string(),
        ".icc".to_string(),
    ];
    let kept = provider.scan_color_directory(&paths);
    assert_eq!(
        kept,
        vec!["sRGB Color Space Profile.icm".to_string(), "Adobe RGB (1998).ICC".to_string()]
    );
}

#[test]
fn test_windows_fallback_search() {
    let provider = WindowsProfileProvider::new();

    // The first readable candidate decides; unreadable ones are passed
    // over.
    let mut icc = vec![0u8; 128];
    icc[16..20].copy_from_slice(b"RGB ");
    let candidates = vec![
        CandidateFile {
            name: "missing.icc".to_string(),
            path: "C:/color/missing.icc".to_string(),
            data: None,
        },
        CandidateFile {
            name: "good.icc".to_string(),
            path: "C:/color/good.icc".to_string(),
            data: Some(icc),
        },
    ];
    let info = provider.fallback_get_profile(candidates);
    assert_eq!(info.name, "Windows Display Profile");
    assert_eq!(info.file_path, Some("C:/color/good.icc".to_string()));
    assert_eq!(info.color_space, ColorSpace::RGB);

    // Readable but too short for a header: its own name, unknown space.
    let candidates = vec![CandidateFile {
        name: "tiny.icc".to_string(),
        path: "C:/color/tiny.icc".to_string(),
        data: Some(vec![0u8; 16]),
    }];
    let info = provider.fallback_get_profile(candidates);
    assert_eq!(info.name, "tiny.icc");
    assert_eq!(info.color_space, ColorSpace::Unknown);

    // Nothing readable at all: the default sRGB metadata stands in.
    let info = provider.fallback_get_profile(Vec::new());
    assert_eq!(info.name, "Default sRGB");
    assert_eq!(info.description, Some("Default sRGB color space (fallback)".to_string()));
    assert_eq!(info.file_path, None);
    assert_eq!(info.color_space, ColorSpace::RGB);
}

#[test]
fn test_windows_profile_decision() {
    let provider = WindowsProfileProvider::new();
    let no_fallback = WindowsProfileProvider::with_config(ProfileConfig {
        linux_prefer_dbus: true,
        fallback_enabled: false,
    });
    let display = Display {
        id: "monitor_0".to_string(),
        name: r"\\.\DISPLAY1".to_string(),
        is_primary: true,
    };

    // An id with no monitor behind it is a missing display.
    let stray = Display {
        id: "monitor_9".to_string(),
        name: "gone".to_string(),
        is_primary: false,
    };
    match provider.profile_decision(&stray, 1, None) {
        WinProfileDecision::Fail(ProfileError::DisplayNotFound(id)) => {
            assert_eq!(id, "monitor_9");
        }
        _ => panic!("Expected DisplayNotFound for an out-of-range id"),
    }

    // A readable profile file decides.
    let mut icc = vec![0u8; 128];
    icc[16..20].copy_from_slice(b"RGB ");
    let query = MonitorProfileQuery::Found {
        name: "sRGB.icm".to_string(),
        path: "C:/color/sRGB.icm".to_string(),
        data: Some(Ok(icc)),
    };
    match provider.profile_decision(&display, 1, Some(query)) {
        WinProfileDecision::Use(info) => {
            assert_eq!(info.name, "Windows Display Profile");
            assert_eq!(info.file_path, Some("C:/color/sRGB.icm".to_string()));
        }
        _ => panic!("Expected the readable file to decide"),
    }

    // An unreadable file still yields its basic facts.
    let query = MonitorProfileQuery::Found {
        name: "locked.icm".to_string(),
        path: "C:/color/locked.icm".to_string(),
        data: Some(Err(ProfileError::IoError("denied".to_string()))),
    };
    match provider.profile_decision(&display, 1, Some(query)) {
        WinProfileDecision::Use(info) => {
            assert_eq!(info.name, "locked.icm");
            assert_eq!(info.color_space, ColorSpace::Unknown);
        }
        _ => panic!("Expected basic facts for an unreadable file"),
    }

    // A missing file moves to the fallback search, or surfaces the
    // condition when fallback is off.
    let query = MonitorProfileQuery::Found {
        name: "gone.icm".to_string(),
        path: "C:/color/gone.icm".to_string(),
        data: None,
    };
    assert!(matches!(
        provider.profile_decision(&display, 1, Some(query)),
        WinProfileDecision::NeedFallback
    ));
    let query = MonitorProfileQuery::Found {
        name: "gone.icm".to_string(),
        path: "C:/color/gone.icm".to_string(),
        data: None,
    };
    match no_fallback.profile_decision(&display, 1, Some(query)) {
        WinProfileDecision::Fail(ProfileError::ProfileNotAvailable(id)) => {
            assert_eq!(id, "monitor_0");
        }
        _ => panic!("Expected ProfileNotAvailable with fallback off"),
    }

    // So does a failed query.
    let err = ProfileError::ProfileNotAvailable("No profile associated with monitor".to_string());
    assert!(matches!(
        provider.profile_decision(&display, 1, Some(MonitorProfileQuery::Failed(err.clone()))),
        WinProfileDecision::NeedFallback
    ));
    match no_fallback.profile_decision(&display, 1, Some(MonitorProfileQuery::Failed(err))) {
        WinProfileDecision::Fail(ProfileError::ProfileNotAvailable(msg)) => {
            assert_eq!(msg, "No profile associated with monitor");
        }
        _ => panic!("Expected the query's own error with fallback off"),
    }
}

#[test]
fn test_handle_windows_permissions_error() {
    match handle_windows_permissions_error(FileErrorKind::PermissionDenied, "") {
        ProfileError::SystemError(msg) => assert!(msg.contains("Access denied")),
        _ => panic!("Expected SystemError for denied access"),
    }
    match handle_windows_permissions_error(FileErrorKind::NotFound, "") {
        ProfileError::ProfileNotAvailable(msg) => {
            assert_eq!(msg, "Color profile file not found");
        }
        _ => panic!("Expected ProfileNotAvailable for a missing file"),
    }
    match handle_windows_permissions_error(FileErrorKind::Other, "disk fell over") {
        ProfileError::IoError(msg) => assert_eq!(msg, "disk fell over"),
        _ => panic!("Expected IoError otherwise"),
    }
}

#[test]
fn test_require_profile_file_windows() {
    let provider = WindowsProfileProvider::new();
    let info = display_icc::ProfileInfo {
        name: "p".to_string(),
        description: None,
        file_path: None,
        color_space: ColorSpace::RGB,
    };
    match provider.require_profile_file(&info) {
        Err(ProfileError::ProfileNotAvailable(msg)) => {
            assert_eq!(msg, "Profile file path not available");
        }
        _ => panic!("Expected ProfileNotAvailable without a file path"),
    }
}
