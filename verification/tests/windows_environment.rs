use terminal::text::eq_ignore_ascii_case;
use terminal::windows_environment::{
    registry_environment_value, RegistryValueError, REG_EXPAND_SZ, REG_SZ,
};
use terminal::windows_environment::{
    environment_value, expand_environment_value, merge_environment_overrides,
    merge_persistent_environment, refreshed_windows_environment, replace_environment_references,
    PersistentEnvironmentValue,
};

fn plain(name: &str, value: &str) -> PersistentEnvironmentValue {
    PersistentEnvironmentValue::new(name, value, false)
}

fn expandable(name: &str, value: &str) -> PersistentEnvironmentValue {
    PersistentEnvironmentValue::new(name, value, true)
}

fn pairs(items: &[(&str, &str)]) -> Vec<(String, String)> {
    items
        .iter()
        .map(|(name, value)| (name.to_string(), value.to_string()))
        .collect()
}

#[test]
fn persistent_environment_appends_user_path_and_overrides_other_values() {
    let system = vec![
        plain("Path", r"C:\Windows\System32"),
        plain("Shared", "system"),
    ];
    let user = vec![plain("PATH", r"C:\Tools"), plain("SHARED", "user")];

    let merged = merge_persistent_environment(system, user, vec![]);

    assert_eq!(
        Some(r"C:\Windows\System32;C:\Tools"),
        environment_value(&merged, "PATH")
    );
    assert_eq!(Some("user"), environment_value(&merged, "shared"));
}

#[test]
fn persistent_environment_expands_against_refreshed_and_inherited_values() {
    let system = vec![
        plain("SystemRoot", r"C:\Windows"),
        expandable("Tools", r"%SystemRoot%\Tools"),
        expandable("Path", r"%SystemRoot%\System32"),
    ];
    let user = vec![expandable("PATH", r"%Tools%\bin;%USERPROFILE%\bin")];
    let inherited = vec![("USERPROFILE".to_string(), r"C:\Users\Admin".to_string())];

    let merged = merge_persistent_environment(system, user, inherited);

    assert_eq!(
        Some(r"C:\Windows\System32;C:\Windows\Tools\bin;C:\Users\Admin\bin"),
        environment_value(&merged, "path")
    );
}

#[test]
fn explicit_environment_overrides_refreshed_values_case_insensitively() {
    let refreshed = vec![
        ("Path".to_string(), "registry".to_string()),
        ("KEEP".to_string(), "value".to_string()),
    ];
    let explicit = vec![
        ("PATH".to_string(), "configured".to_string()),
        ("EXTRA".to_string(), "enabled".to_string()),
    ];

    let merged = merge_environment_overrides(refreshed, explicit);

    assert_eq!(Some("configured"), environment_value(&merged, "path"));
    assert_eq!(Some("value"), environment_value(&merged, "keep"));
    assert_eq!(Some("enabled"), environment_value(&merged, "extra"));
    assert_eq!(
        1,
        merged
            .iter()
            .filter(|(name, _)| name.eq_ignore_ascii_case("PATH"))
            .count()
    );
}

#[test]
fn expansion_preserves_unknown_references() {
    let environment = Vec::new();

    assert_eq!(
        r"%MISSING%\bin",
        expand_environment_value(r"%MISSING%\bin", &environment)
    );
}

#[test]
fn cyclic_expansion_is_bounded() {
    let environment = pairs(&[("first", "%SECOND%"), ("second", "%FIRST%")]);

    let expanded = expand_environment_value("%FIRST%", &environment);

    assert!(expanded == "%FIRST%" || expanded == "%SECOND%");
}

#[test]
fn single_pass_handles_double_percent_and_unclosed_references() {
    let environment = pairs(&[("a", "x"), ("A", "y")]);
    let chars = |text: &str| text.chars().collect::<Vec<char>>();
    assert_eq!(
        replace_environment_references(&chars("%a%-%%-%b%-%a"), &environment),
        chars("y-%-%b%-%a")
    );
    assert_eq!(
        replace_environment_references(&chars("no refs"), &environment),
        chars("no refs")
    );
}

#[test]
fn expansion_stops_before_exceeding_the_size_limit() {
    let long = "x".repeat(20 * 1024);
    let environment = pairs(&[("big", &long), ("two", "%BIG%%BIG%")]);
    assert_eq!(expand_environment_value("%BIG%", &environment), long);
    assert_eq!(expand_environment_value("%TWO%", &environment), "%BIG%%BIG%");
}

#[test]
fn user_path_without_system_path_is_added_under_path() {
    let merged = merge_persistent_environment(
        vec![],
        vec![plain("path", "C:\\bin"), plain("Other", "1")],
        pairs(&[("HOME", "C:\\Users")]),
    );
    assert_eq!(
        merged,
        pairs(&[("HOME", "C:\\Users"), ("Path", "C:\\bin"), ("Other", "1")])
    );
    let empty_join = merge_persistent_environment(
        vec![plain("Path", "")],
        vec![plain("PATH", "C:\\x")],
        vec![],
    );
    assert_eq!(environment_value(&empty_join, "path"), Some("C:\\x"));
    assert_eq!(environment_value(&empty_join, "missing"), None);
}

#[test]
fn unreadable_registry_keeps_the_inherited_environment() {
    let inherited = pairs(&[("Path", r"C:\old"), ("HOME", "h")]);
    assert_eq!(refreshed_windows_environment(None, None, inherited.clone()), inherited);
    let refreshed = refreshed_windows_environment(
        None,
        Some(vec![plain("EDITOR", "vim")]),
        pairs(&[("HOME", "h")]),
    );
    assert_eq!(refreshed, pairs(&[("HOME", "h"), ("EDITOR", "vim")]));
}

#[test]
fn registry_strings_decode_up_to_their_nul() {
    let name: Vec<u16> = "Path".encode_utf16().collect();
    let mut data: Vec<u8> = Vec::new();
    for unit in "C:\\bin".encode_utf16().chain([0u16, 0x41]) {
        data.extend_from_slice(&unit.to_le_bytes());
    }
    let value = registry_environment_value(&name, REG_EXPAND_SZ, &data).unwrap().unwrap();
    assert_eq!(
        format!("{value:?}"),
        format!("{:?}", PersistentEnvironmentValue::new("Path", "C:\\bin", true))
    );
    let plain = registry_environment_value(&name, REG_SZ, &data).unwrap().unwrap();
    assert_eq!(
        format!("{plain:?}"),
        format!("{:?}", PersistentEnvironmentValue::new("Path", "C:\\bin", false))
    );
    assert!(registry_environment_value(&name, 4, &data).unwrap().is_none());
    assert!(matches!(
        registry_environment_value(&name, REG_SZ, &[0x41, 0x00, 0x42]),
        Err(RegistryValueError::OddLength)
    ));
    assert_eq!(
        RegistryValueError::OddLength.message(),
        "Windows registry environment string has an odd byte length"
    );
}

#[test]
fn names_compare_equal_up_to_ascii_case_only() {
    assert!(eq_ignore_ascii_case("Path", "PATH"));
    assert!(eq_ignore_ascii_case("", ""));
    assert!(eq_ignore_ascii_case("pwsh.EXE", "PWSH.exe"));
    assert!(!eq_ignore_ascii_case("Path", "Paths"));
    assert!(!eq_ignore_ascii_case("[", "{"));
    assert!(!eq_ignore_ascii_case("\u{e9}", "\u{c9}"));
    assert!(eq_ignore_ascii_case("\u{e9}x", "\u{e9}X"));
}

#[test]
fn the_last_override_of_a_name_is_what_reads_back() {
    let base = vec![
        ("PATH".to_string(), "C:\\bin".to_string()),
        ("HOME".to_string(), "C:\\home".to_string()),
    ];
    let overrides = vec![
        ("path".to_string(), "D:\\first".to_string()),
        ("EDITOR".to_string(), "vim".to_string()),
        ("Path".to_string(), "D:\\last".to_string()),
    ];
    let merged = merge_environment_overrides(base, overrides);
    assert_eq!(environment_value(&merged, "PATH"), Some("D:\\last"));
    assert_eq!(environment_value(&merged, "editor"), Some("vim"));
    assert_eq!(environment_value(&merged, "HOME"), Some("C:\\home"));
    assert_eq!(environment_value(&merged, "SHELL"), None);
    assert_eq!(merged.len(), 3);
}
