use nuls::{
    CapabilityFlags, ErrorKind, FetchedSettings, IdeSettings, SettingsLookup, SettingsStore, Throttle,
};

fn settings_with_problems(n: u32) -> IdeSettings {
    let mut s = IdeSettings::default();
    s.max_number_of_problems = n;
    s
}

fn ready(l: SettingsLookup) -> IdeSettings {
    match l {
        SettingsLookup::Ready(s) => s,
        SettingsLookup::Fetch => panic!("expected settings"),
    }
}

#[test]
fn default_settings_values() {
    let s = IdeSettings::default();
    assert!(s.hints.show_inferred_types);
    assert!(s.include_dirs.is_empty());
    assert_eq!(s.max_number_of_problems, 1000);
    assert_eq!(s.max_nushell_invocation_time_ms, 10_000);
    assert_eq!(s.nushell_executable_path, "nu");
}

#[test]
fn global_settings_without_lookup() {
    let mut store = SettingsStore::new();
    let uri = String::from("file:///a.nu");
    // a cached entry does not matter without lookup support
    store.settings_fetched(&uri, FetchedSettings::Parsed(settings_with_problems(5)));
    assert_eq!(ready(store.get_settings(false, &uri)).max_number_of_problems, 1000);
    store.configuration_changed(false, Some(settings_with_problems(7)));
    assert_eq!(ready(store.get_settings(false, &uri)).max_number_of_problems, 7);
    assert_eq!(ready(store.get_settings(false, &String::from("x"))).max_number_of_problems, 7);
    store.configuration_changed(false, None);
    assert_eq!(ready(store.get_settings(false, &uri)).max_number_of_problems, 1000);
}

#[test]
fn lookup_caches_and_change_clears() {
    let mut store = SettingsStore::new();
    let uri = String::from("file:///a.nu");
    assert!(matches!(store.get_settings(true, &uri), SettingsLookup::Fetch));
    let got = store.settings_fetched(&uri, FetchedSettings::Parsed(settings_with_problems(5)));
    assert_eq!(got.max_number_of_problems, 5);
    assert_eq!(ready(store.get_settings(true, &uri)).max_number_of_problems, 5);
    store.configuration_changed(true, Some(settings_with_problems(9)));
    assert!(matches!(store.get_settings(true, &uri), SettingsLookup::Fetch));
    // the global settings stay as they were
    assert_eq!(ready(store.get_settings(false, &uri)).max_number_of_problems, 1000);
}

#[test]
fn fetch_outcomes() {
    let mut store = SettingsStore::new();
    let uri = String::from("file:///a.nu");
    let got = store.settings_fetched(&uri, FetchedSettings::Nothing);
    assert_eq!(got.max_number_of_problems, 1000);
    assert!(matches!(store.get_settings(true, &uri), SettingsLookup::Fetch));
    let got = store.settings_fetched(&uri, FetchedSettings::Unparsable);
    assert_eq!(got.max_number_of_problems, 1000);
    assert_eq!(ready(store.get_settings(true, &uri)).max_number_of_problems, 1000);
}

#[test]
fn throttle_spacing() {
    let mut t = Throttle::new(0);
    assert!(!t.should_validate(100));
    assert!(t.should_validate(500));
    t.record(600);
    // a second request less than 500 ms after the first validation is skipped
    assert!(!t.should_validate(700));
    assert!(!t.should_validate(1099));
    // one spaced further apart runs
    assert!(t.should_validate(1100));
    t.record(1200);
    assert!(t.should_validate(1800));
    // a clock reading before the last validation counts as no time passed
    assert!(!t.should_validate(10));
}

#[test]
fn capabilities_latch_once() {
    let mut c = CapabilityFlags::new();
    assert!(!c.is_latched());
    assert!(c.latch(true, false, true).is_ok());
    assert!(c.is_latched());
    assert!(c.can_publish_diagnostics());
    assert!(!c.can_change_configuration());
    assert!(c.can_lookup_configuration());
    let e = c.latch(false, true, false).unwrap_err();
    assert_eq!(e.kind, ErrorKind::Internal);
    assert!(c.can_publish_diagnostics());
    assert!(!c.can_change_configuration());
}
