//! What a screen remembers.

use signage_desktop::config::{Config, ConfigStore};
use signage_desktop::ident::device_id_from;

fn with_server(server: &str) -> Config {
    Config {
        server: Some(server.to_string()),
        ..Config::default()
    }
}

#[test]
fn a_bare_host_and_port_gets_plain_ws() {
    assert_eq!(
        with_server("192.168.1.10:8080").control_url().as_deref(),
        Some("ws://192.168.1.10:8080/ws")
    );
}

#[test]
fn https_becomes_wss() {
    assert_eq!(
        with_server("https://tunnel.example.com")
            .control_url()
            .as_deref(),
        Some("wss://tunnel.example.com/ws")
    );
}

#[test]
fn http_becomes_ws() {
    assert_eq!(
        with_server("http://10.0.0.4:8080").control_url().as_deref(),
        Some("ws://10.0.0.4:8080/ws")
    );
}

#[test]
fn an_explicit_websocket_scheme_is_left_alone() {
    assert_eq!(
        with_server("wss://tunnel.example.com")
            .control_url()
            .as_deref(),
        Some("wss://tunnel.example.com/ws")
    );
    assert_eq!(
        with_server("ws://10.0.0.4:8080").control_url().as_deref(),
        Some("ws://10.0.0.4:8080/ws")
    );
}

#[test]
fn surrounding_whitespace_and_trailing_slashes_go() {
    assert_eq!(
        with_server("  http://10.0.0.4:8080/  ")
            .control_url()
            .as_deref(),
        Some("ws://10.0.0.4:8080/ws")
    );
}

#[test]
fn the_scheme_match_is_case_insensitive_but_the_host_keeps_its_casing() {
    assert_eq!(
        with_server("HTTPS://Tunnel.Example.COM")
            .control_url()
            .as_deref(),
        Some("wss://Tunnel.Example.COM/ws")
    );
}

#[test]
fn an_unprovisioned_screen_has_no_control_url() {
    assert_eq!(Config::default().control_url(), None);
    assert_eq!(with_server("   ").control_url(), None);
}

#[test]
fn a_server_of_slashes_alone_has_no_control_url() {
    assert_eq!(with_server(" /// ").control_url(), None);
}

#[test]
fn provisioning_leaves_omitted_fields_alone_but_current_video_clears_them() {
    let mut store = ConfigStore::load(None);

    assert!(store.set_provisioning(
        Some("10.0.0.4:8080"),
        Some("tv-entrada-01"),
        Some("710")
    ));
    // Only the store: the others must survive.
    assert!(store.set_provisioning(None, None, Some("704")));
    let config = store.snapshot();
    assert_eq!(config.server.as_deref(), Some("10.0.0.4:8080"));
    assert_eq!(config.device_name.as_deref(), Some("tv-entrada-01"));
    assert_eq!(config.store_id.as_deref(), Some("704"));
    // Same again: nothing changed.
    assert!(!store.set_provisioning(None, None, Some("704")));
    assert!(!store.set_provisioning(None, None, None));

    store.set_current_video(Some("v1"), Some("entrada"), Some(42));
    assert_eq!(store.snapshot().current_video_id.as_deref(), Some("v1"));
    assert_eq!(store.snapshot().sync_origin_ms, Some(42));
    store.set_current_video(None, None, None);
    let config = store.snapshot();
    assert_eq!(config.current_video_id, None);
    assert_eq!(config.group_id, None);
    assert_eq!(config.sync_origin_ms, None);
    assert_eq!(config.store_id.as_deref(), Some("704"));
}

#[test]
fn the_device_id_is_minted_once_and_then_survives_reloads() {
    let first = ConfigStore::load(None).snapshot();
    assert!(first.device_id.starts_with("pc-"), "got {first:?}");
    assert_eq!(first.device_id.len(), 13);

    let again = ConfigStore::load(Some(first.clone())).snapshot();
    assert_eq!(again, first, "the id must not change on restart");
    // Two machines do not share one.
    assert_ne!(ConfigStore::load(None).snapshot().device_id, first.device_id);
}

#[test]
fn a_corrupt_config_is_replaced_rather_than_fatal() {
    // What cannot be read counts as nothing stored.
    let config = ConfigStore::load(None).snapshot();
    assert!(config.device_id.starts_with("pc-"));
    assert_eq!(
        config,
        Config {
            device_id: config.device_id.clone(),
            ..Config::default()
        }
    );
}

#[test]
fn a_stored_config_without_an_id_keeps_the_rest() {
    let config = ConfigStore::load(Some(with_server("10.0.0.4"))).snapshot();
    assert!(config.device_id.starts_with("pc-"));
    assert_eq!(config.server.as_deref(), Some("10.0.0.4"));
}

#[test]
fn a_device_id_is_the_beginning_of_what_was_dealt() {
    assert_eq!(
        device_id_from("0123456789abcdef0123456789abcdef"),
        "pc-0123456789"
    );
    let id = ConfigStore::load(None).snapshot().device_id;
    assert!(id[3..]
        .chars()
        .all(|c| c.is_ascii_digit() || ('a'..='f').contains(&c)));
}

#[test]
fn the_display_name_falls_back_to_the_id() {
    let mut config = Config {
        device_id: "pc-1".into(),
        ..Config::default()
    };
    assert_eq!(config.display_name(), "pc-1");
    config.device_name = Some("tv-entrada-01".into());
    assert_eq!(config.display_name(), "tv-entrada-01");
}

#[test]
fn the_config_is_written_beside_itself_and_renamed() {
    let store = ConfigStore::load(Some(with_server("10.0.0.4")));
    let rewrite = store.persist();
    assert_eq!(rewrite.config, store.snapshot());
    assert_eq!(rewrite.temp, "config.json.tmp");
    assert_eq!(rewrite.target, "config.json");
}
