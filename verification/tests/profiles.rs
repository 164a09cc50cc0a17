use opaq::profiles::{
    active_profile_name, login, profile_list_lines, remove_profile, resolve_config, store_from_file, Profile,
    ProfileStore, StoreState,
};
use opaq::CliConfig;

fn s(x: &str) -> String {
    x.to_string()
}

fn cfg(server: &str, key: &str) -> CliConfig {
    CliConfig { server: s(server), api_key: s(key) }
}

fn profile(name: &str, server: &str, key: &str) -> Profile {
    Profile { name: s(name), config: cfg(server, key) }
}

/// A store with `default` (server a) and `work` (server b).
fn two_profiles() -> ProfileStore {
    let (store, migrated) = store_from_file(
        Some(vec![profile("work", "https://b.example.com", "key_b"), profile("default", "https://a.example.com", "key_a")]),
        Err(s("unused")),
    )
    .ok()
    .unwrap();
    assert!(!migrated);
    store
}

fn server_of(r: Result<CliConfig, String>) -> String {
    match r {
        Ok(c) => c.server,
        Err(e) => panic!("expected credentials, got error: {}", e),
    }
}

fn error_of(r: Result<CliConfig, String>) -> String {
    match r {
        Ok(c) => panic!("expected an error, got server {}", c.server),
        Err(e) => e,
    }
}

#[test]
fn flat_config_migrates_to_default() {
    let (store, migrated) = store_from_file(None, Ok(cfg("https://a.example.com", "opaq_abc"))).ok().unwrap();
    assert!(migrated);
    assert_eq!(store.len(), 1);
    assert_eq!(store.at(0).name, "default");
    let c = store.get("default").unwrap();
    assert_eq!(c.server, "https://a.example.com");
    assert_eq!(c.api_key, "opaq_abc");
}

#[test]
fn profile_file_is_kept_in_name_order() {
    let store = two_profiles();
    assert_eq!(store.len(), 2);
    assert_eq!(store.at(0).name, "default");
    assert_eq!(store.at(1).name, "work");
    assert_eq!(store.get("work").unwrap().server, "https://b.example.com");
    assert!(store.get("missing").is_none());
}

#[test]
fn later_entry_of_same_name_wins() {
    let (store, _) = store_from_file(
        Some(vec![profile("default", "https://old", "k1"), profile("default", "https://new", "k2")]),
        Err(s("unused")),
    )
    .ok()
    .unwrap();
    assert_eq!(store.len(), 1);
    assert_eq!(store.get("default").unwrap().server, "https://new");
}

#[test]
fn unreadable_config_is_invalid() {
    match store_from_file(None, Err(s("expected value at line 1 column 1"))) {
        Err(e) => assert_eq!(e, "invalid config: expected value at line 1 column 1"),
        Ok(_) => panic!("a file of neither shape must be refused"),
    }
}

#[test]
fn flag_beats_env_credentials() {
    let st = StoreState::Loaded(two_profiles());
    let r = resolve_config(Some(s("work")), None, Some(s("https://env")), Some(s("env_key")), &st);
    assert_eq!(server_of(r), "https://b.example.com");
}

#[test]
fn flag_beats_env_profile() {
    let st = StoreState::Loaded(two_profiles());
    let r = resolve_config(Some(s("default")), Some(s("work")), None, None, &st);
    assert_eq!(server_of(r), "https://a.example.com");
}

#[test]
fn env_profile_beats_default() {
    let st = StoreState::Loaded(two_profiles());
    let r = resolve_config(None, Some(s("work")), None, None, &st);
    assert_eq!(server_of(r), "https://b.example.com");
}

#[test]
fn env_credentials_beat_default() {
    let st = StoreState::Loaded(two_profiles());
    let r = resolve_config(None, None, Some(s("https://env")), Some(s("env_key")), &st);
    match r {
        Ok(c) => {
            assert_eq!(c.server, "https://env");
            assert_eq!(c.api_key, "env_key");
        }
        Err(e) => panic!("{}", e),
    }
}

#[test]
fn env_credentials_need_no_file() {
    let r = resolve_config(None, None, Some(s("https://env")), Some(s("env_key")), &StoreState::Missing);
    assert_eq!(server_of(r), "https://env");
}

#[test]
fn default_profile_when_nothing_given() {
    let st = StoreState::Loaded(two_profiles());
    assert_eq!(server_of(resolve_config(None, None, None, None, &st)), "https://a.example.com");
}

#[test]
fn half_env_credentials_are_refused() {
    let st = StoreState::Loaded(two_profiles());
    assert_eq!(
        error_of(resolve_config(None, None, Some(s("https://env")), None, &st)),
        "OPAQ_SERVER is set but OPAQ_KEY is missing."
    );
    assert_eq!(
        error_of(resolve_config(None, None, None, Some(s("env_key")), &st)),
        "OPAQ_KEY is set but OPAQ_SERVER is missing."
    );
}

#[test]
fn unknown_profile_is_an_error() {
    let st = StoreState::Loaded(two_profiles());
    assert_eq!(error_of(resolve_config(Some(s("prod")), None, None, None, &st)), "profile 'prod' not found");
    assert_eq!(error_of(resolve_config(None, Some(s("prod")), None, None, &st)), "profile 'prod' not found");
}

#[test]
fn missing_file_is_not_logged_in() {
    let expected = "not logged in. Run `opaq login --server URL --key KEY`, or set OPAQ_SERVER and OPAQ_KEY.";
    assert_eq!(error_of(resolve_config(None, None, None, None, &StoreState::Missing)), expected);
    let empty = StoreState::Loaded(ProfileStore::new());
    assert_eq!(error_of(resolve_config(None, None, None, None, &empty)), expected);
}

#[test]
fn invalid_file_error_is_reported() {
    let st = StoreState::Invalid(s("invalid config: trailing characters"));
    assert_eq!(error_of(resolve_config(None, None, None, None, &st)), "invalid config: trailing characters");
}

#[test]
fn login_with_profile_keeps_default() {
    let (store, message) = login(
        StoreState::Loaded(ProfileStore::new()),
        None,
        s("https://a.example.com"),
        s("key_a"),
    );
    assert_eq!(message, "Logged in (profile: default).");
    let (store, message) =
        login(StoreState::Loaded(store), Some(s("work")), s("https://b.example.com"), s("key_b"));
    assert_eq!(message, "Logged in (profile: work).");
    assert_eq!(store.len(), 2);
    assert_eq!(store.get("default").unwrap().server, "https://a.example.com");
    assert_eq!(store.get("work").unwrap().api_key, "key_b");
}

#[test]
fn login_overwrites_same_profile() {
    let (store, _) = login(StoreState::Loaded(two_profiles()), Some(s("work")), s("https://c"), s("key_c"));
    assert_eq!(store.len(), 2);
    assert_eq!(store.get("work").unwrap().server, "https://c");
    assert_eq!(store.get("default").unwrap().server, "https://a.example.com");
}

#[test]
fn login_over_invalid_file_starts_fresh() {
    let (store, _) = login(StoreState::Invalid(s("invalid config: x")), None, s("https://a"), s("k"));
    assert_eq!(store.len(), 1);
    assert_eq!(store.get("default").unwrap().server, "https://a");
}

#[test]
fn login_then_resolve_gives_saved_credentials() {
    let (store, _) = login(StoreState::Missing, Some(s("work")), s("https://w"), s("key_w"));
    let st = StoreState::Loaded(store);
    let r = resolve_config(Some(s("work")), None, Some(s("https://env")), Some(s("env_key")), &st);
    match r {
        Ok(c) => {
            assert_eq!(c.server, "https://w");
            assert_eq!(c.api_key, "key_w");
        }
        Err(e) => panic!("{}", e),
    }
}

#[test]
fn remove_then_remove_again() {
    let mut store = two_profiles();
    assert_eq!(remove_profile(&mut store, "work").unwrap(), "Removed profile: work");
    assert_eq!(store.len(), 1);
    assert!(store.get("work").is_none());
    assert_eq!(remove_profile(&mut store, "work").unwrap_err(), "profile 'work' not found");
    assert_eq!(store.len(), 1);
}

#[test]
fn removed_profile_no_longer_resolves() {
    let mut store = two_profiles();
    remove_profile(&mut store, "default").unwrap();
    let st = StoreState::Loaded(store);
    assert_eq!(
        error_of(resolve_config(None, None, None, None, &st)),
        "not logged in. Run `opaq login --server URL --key KEY`, or set OPAQ_SERVER and OPAQ_KEY."
    );
}

#[test]
fn active_name_precedence() {
    assert_eq!(active_profile_name(Some(s("a")), Some(s("b"))), "a");
    assert_eq!(active_profile_name(None, Some(s("b"))), "b");
    assert_eq!(active_profile_name(None, None), "default");
}

#[test]
fn profile_list_marks_active() {
    let store = two_profiles();
    let lines = profile_list_lines(&store, "work", false);
    assert_eq!(
        lines,
        vec![s("  default  https://a.example.com  ...ey_a"), s("* work  https://b.example.com  ...ey_b")]
    );
}

#[test]
fn profile_list_styles_name_and_key() {
    let (store, _) = login(StoreState::Missing, None, s("https://a"), s("abc"));
    let lines = profile_list_lines(&store, "default", true);
    assert_eq!(lines, vec![s("* \u{1b}[1mdefault\u{1b}[0m  https://a  \u{1b}[2m...abc\u{1b}[0m")]);
}

#[test]
fn profile_list_empty_store() {
    let lines = profile_list_lines(&ProfileStore::new(), "default", false);
    assert_eq!(lines, vec![s("No profiles. Run `opaq login` to create one.")]);
}

#[test]
fn saved_profiles_read_back() {
    let store = two_profiles();
    let saved: Vec<Profile> = (0..store.len())
        .map(|i| {
            let p = store.at(i);
            profile(&p.name, &p.config.server, &p.config.api_key)
        })
        .collect();
    let (again, migrated) = store_from_file(Some(saved), Err(s("unused"))).ok().unwrap();
    assert!(!migrated);
    assert_eq!(again.len(), 2);
    for name in ["default", "work"] {
        let a = store.get(name).unwrap();
        let b = again.get(name).unwrap();
        assert_eq!((a.server, a.api_key), (b.server, b.api_key));
    }
}
