use omasend::views::{
    ThemeMode, device_initials, is_omarchy_os_release, mode_for_environment, nearby_indices, size_label,
};

#[test]
fn preferences_default_to_system_and_round_trip() {
    for value in ["", "invalid", "system"] {
        assert!(ThemeMode::parse(value) == ThemeMode::System);
    }
    for mode in [ThemeMode::System, ThemeMode::Light, ThemeMode::Dark] {
        assert!(ThemeMode::parse(mode.value()) == mode);
    }
}

#[test]
fn omarchy_os_release_is_detected_from_id() {
    assert!(is_omarchy_os_release(
        "NAME=\"Omarchy\"\nID=omarchy\nID_LIKE=arch\n"
    ));
    assert!(is_omarchy_os_release("ID=\"omarchy\"\n"));
    assert!(!is_omarchy_os_release("NAME=Omarchy Theme\nID=arch\n"));
}

#[test]
fn omarchy_ignores_saved_theme_preference() {
    assert!(mode_for_environment(Some("dark"), true) == ThemeMode::System);
    assert!(mode_for_environment(Some("light"), true) == ThemeMode::System);
    assert!(mode_for_environment(Some("dark"), false) == ThemeMode::Dark);
}

#[test]
fn saved_preferences_ignore_surrounding_space() {
    assert!(ThemeMode::parse(" light\n") == ThemeMode::Light);
    assert!(ThemeMode::parse("Dark") == ThemeMode::System);
    assert!(mode_for_environment(None, false) == ThemeMode::System);
    assert!(ThemeMode::default() == ThemeMode::System);
    assert!(is_omarchy_os_release("  ID = 'omarchy' \r\n") == false);
    assert!(is_omarchy_os_release("ID=\"'omarchy'\""));
    assert!(!is_omarchy_os_release("ID=' \"omarchy\"' "));
    assert!(!is_omarchy_os_release(""));
}

#[test]
fn size_labels_round_like_float_formatting() {
    assert_eq!(size_label(0), "0 B");
    assert_eq!(size_label(1023), "1023 B");
    assert_eq!(size_label(1024), "1.0 KB");
    assert_eq!(size_label(1280), "1.2 KB");
    assert_eq!(size_label(1536), "1.5 KB");
    assert_eq!(size_label(1048575), "1024.0 KB");
    assert_eq!(size_label(1048576), "1.0 MB");
    assert_eq!(size_label(1073741824), "1.0 GB");
    let samples: Vec<u64> = vec![
        1024, 1280, 1331, 1434, 5000, 52_428, 999_999, 1_048_575, 1_048_576, 1_310_720, 5_767_168,
        1_073_741_823, 1_073_741_824, 1_342_177_280, 9_999_999_999, 123_456_789_012,
        (1u64 << 53) + 1, (1u64 << 53) + 3, (1u64 << 60) + 12345, u64::MAX - 1, u64::MAX,
    ];
    for bytes in samples {
        let expected = if bytes < 1024 * 1024 {
            format!("{:.1} KB", bytes as f64 / 1024.)
        } else if bytes < 1024 * 1024 * 1024 {
            format!("{:.1} MB", bytes as f64 / (1024. * 1024.))
        } else {
            format!("{:.1} GB", bytes as f64 / (1024. * 1024. * 1024.))
        };
        assert_eq!(size_label(bytes), expected, "{bytes}");
    }
    for bytes in (1024u64..200_000).step_by(7) {
        let expected = if bytes < 1024 * 1024 {
            format!("{:.1} KB", bytes as f64 / 1024.)
        } else {
            format!("{:.1} MB", bytes as f64 / (1024. * 1024.))
        };
        assert_eq!(size_label(bytes), expected, "{bytes}");
    }
}

#[test]
fn nearby_strip_keeps_the_selection_visible() {
    assert_eq!(nearby_indices(5, 3, true, None), vec![0, 1, 2, 3, 4]);
    assert_eq!(nearby_indices(5, 3, false, None), vec![0, 1, 2]);
    assert_eq!(nearby_indices(5, 3, false, Some(4)), vec![0, 1, 4]);
    assert_eq!(nearby_indices(5, 3, false, Some(1)), vec![0, 1, 2]);
    assert_eq!(nearby_indices(2, 3, false, Some(1)), vec![0, 1]);
    assert_eq!(nearby_indices(0, 3, false, Some(7)), Vec::<usize>::new());
}

#[test]
fn device_initials_use_the_first_two_words() {
    assert_eq!(device_initials("Office desktop"), "OD");
    assert_eq!(device_initials("phone"), "PH");
    assert_eq!(device_initials("   "), "?");
    assert_eq!(device_initials("ß x"), "SS");
    assert_eq!(device_initials("a"), "A");
}
