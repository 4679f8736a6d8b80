//! Tests of the scripted provider.

use display_icc::{
    ColorSpace, Display, DisplayProfileProvider, MockProfileProvider, ProfileError, ProfileInfo,
};

#[test]
fn test_mock_provider_empty() {
    let provider = MockProfileProvider::new();
    let displays = provider.get_displays().unwrap();
    assert!(displays.is_empty());

    let primary_result = provider.get_primary_display();
    assert!(primary_result.is_err());
}

#[test]
fn test_mock_provider_with_test_data() {
    let provider = MockProfileProvider::with_test_data();

    let displays = provider.get_displays().unwrap();
    assert_eq!(displays.len(), 2);

    let primary = provider.get_primary_display().unwrap();
    assert_eq!(primary.id, "primary");
    assert!(primary.is_primary);

    let profile = provider.get_profile(&primary).unwrap();
    assert_eq!(profile.name, "sRGB IEC61966-2.1");
    assert_eq!(profile.color_space, ColorSpace::RGB);

    let data = provider.get_profile_data(&primary).unwrap();
    assert_eq!(data.len(), 128);

    let profile_size = u32::from_be_bytes([data[0], data[1], data[2], data[3]]);
    assert_eq!(profile_size, 1024);
}

#[test]
fn test_mock_provider_add_display() {
    let mut provider = MockProfileProvider::new();

    let display = Display {
        id: "test".to_string(),
        name: "Test Display".to_string(),
        is_primary: true,
    };

    provider.add_display(display.clone());

    let displays = provider.get_displays().unwrap();
    assert_eq!(displays.len(), 1);
    assert_eq!(displays[0], display);
}

#[test]
fn test_mock_provider_set_profile() {
    let mut provider = MockProfileProvider::new();

    let display = Display {
        id: "test".to_string(),
        name: "Test Display".to_string(),
        is_primary: true,
    };

    let profile = ProfileInfo {
        name: "Test Profile".to_string(),
        description: None,
        file_path: None,
        color_space: ColorSpace::RGB,
    };

    provider.add_display(display.clone());
    provider.set_profile("test", profile.clone());

    let retrieved_profile = provider.get_profile(&display).unwrap();
    assert_eq!(retrieved_profile, profile);
}

#[test]
fn test_mock_provider_set_profile_data() {
    let mut provider = MockProfileProvider::new();

    let display = Display {
        id: "test".to_string(),
        name: "Test Display".to_string(),
        is_primary: true,
    };

    let test_data = vec![1, 2, 3, 4, 5];

    provider.add_display(display.clone());
    provider.set_profile_data("test", test_data.clone());

    let retrieved_data = provider.get_profile_data(&display).unwrap();
    assert_eq!(retrieved_data, test_data);
}

#[test]
fn test_mock_provider_failures() {
    let mut provider = MockProfileProvider::new();

    let display = Display {
        id: "test".to_string(),
        name: "Test Display".to_string(),
        is_primary: true,
    };

    provider.add_display(display.clone());
    provider.set_failure("test", ProfileError::SystemError("Mock error".to_string()));

    let profile_result = provider.get_profile(&display);
    assert!(profile_result.is_err());

    if let Err(ProfileError::SystemError(msg)) = profile_result {
        assert_eq!(msg, "Mock error");
    } else {
        panic!("Expected SystemError");
    }
}

#[test]
fn test_mock_provider_profile_not_available() {
    let mut provider = MockProfileProvider::new();

    let display = Display {
        id: "test".to_string(),
        name: "Test Display".to_string(),
        is_primary: true,
    };

    provider.add_display(display.clone());

    let profile_result = provider.get_profile(&display);
    assert!(profile_result.is_err());

    if let Err(ProfileError::ProfileNotAvailable(id)) = profile_result {
        assert_eq!(id, "test");
    } else {
        panic!("Expected ProfileNotAvailable");
    }
}

#[test]
fn test_mock_provider_clear_displays() {
    let mut provider = MockProfileProvider::with_test_data();

    assert_eq!(provider.get_displays().unwrap().len(), 2);

    provider.clear_displays();
    assert!(provider.get_displays().unwrap().is_empty());
    assert!(provider.get_primary_display().is_err());
}

#[test]
fn test_mock_provider_later_profile_wins() {
    let mut provider = MockProfileProvider::new();
    let display = Display {
        id: "test".to_string(),
        name: "Test Display".to_string(),
        is_primary: true,
    };
    provider.add_display(display.clone());
    provider.set_profile(
        "test",
        ProfileInfo {
            name: "First".to_string(),
            description: None,
            file_path: None,
            color_space: ColorSpace::RGB,
        },
    );
    provider.set_profile(
        "test",
        ProfileInfo {
            name: "Second".to_string(),
            description: None,
            file_path: None,
            color_space: ColorSpace::Lab,
        },
    );
    let profile = provider.get_profile(&display).unwrap();
    assert_eq!(profile.name, "Second");
    assert_eq!(profile.color_space, ColorSpace::Lab);
}
