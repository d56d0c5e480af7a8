//! The wire protocol.

use signage_desktop::protocol::{app_version, PlayerMessage};

#[test]
fn hello_omits_null_fields_rather_than_writing_them() {
    let hello = PlayerMessage::Hello {
        device_id: "pc-abc123".into(),
        store_id: None,
        device_name: None,
        app_version: "desktop-0.1.2".into(),
        current_video_id: None,
    };
    assert_eq!(
        hello.to_json(),
        r#"{"type":"hello","deviceId":"pc-abc123","appVersion":"desktop-0.1.2"}"#
    );
}

#[test]
fn a_full_heartbeat_matches_the_kotlin_shape() {
    let beat = PlayerMessage::Heartbeat {
        device_id: "pc-abc123".into(),
        store_id: Some("710".into()),
        current_video_id: Some("vid_2026_08_promo".into()),
        playing: true,
        position_ms: 14_300,
        free_bytes: 2_147_483_648,
        app_version: "desktop-0.1.2".into(),
        uptime_ms: 918_000,
    };
    assert_eq!(
        beat.to_json(),
        r#"{"type":"heartbeat","deviceId":"pc-abc123","storeId":"710","currentVideoId":"vid_2026_08_promo","playing":true,"positionMs":14300,"freeBytes":2147483648,"appVersion":"desktop-0.1.2","uptimeMs":918000}"#
    );
}

#[test]
fn small_messages_are_byte_for_byte_what_the_android_tests_pin() {
    assert_eq!(
        PlayerMessage::DownloadProgress {
            video_id: "v1".into(),
            percent: 42,
        }
        .to_json(),
        r#"{"type":"downloadProgress","videoId":"v1","percent":42}"#
    );
    assert_eq!(
        PlayerMessage::Error {
            code: "HASH_MISMATCH".into(),
            detail: "bad".into(),
        }
        .to_json(),
        r#"{"type":"error","code":"HASH_MISMATCH","detail":"bad"}"#
    );
    assert_eq!(
        PlayerMessage::TimeRequest {
            client_send_ms: 1000
        }
        .to_json(),
        r#"{"type":"timeRequest","clientSendMs":1000}"#
    );
}

#[test]
fn a_full_hello_and_a_sparse_heartbeat() {
    let hello = PlayerMessage::Hello {
        device_id: "pc-1".into(),
        store_id: Some("710".into()),
        device_name: Some("tv".into()),
        app_version: app_version(),
        current_video_id: Some("v1".into()),
    };
    assert_eq!(
        hello.to_json(),
        r#"{"type":"hello","deviceId":"pc-1","storeId":"710","deviceName":"tv","appVersion":"desktop-0.1.2","currentVideoId":"v1"}"#
    );
    let beat = PlayerMessage::Heartbeat {
        device_id: "pc-1".into(),
        store_id: None,
        current_video_id: None,
        playing: false,
        position_ms: i64::MIN,
        free_bytes: u64::MAX,
        app_version: app_version(),
        uptime_ms: 0,
    };
    assert_eq!(
        beat.to_json(),
        r#"{"type":"heartbeat","deviceId":"pc-1","playing":false,"positionMs":-9223372036854775808,"freeBytes":18446744073709551615,"appVersion":"desktop-0.1.2","uptimeMs":0}"#
    );
}

#[test]
fn text_is_escaped() {
    let logs = PlayerMessage::Logs {
        device_id: "pc-1".into(),
        text: "a\"b\\c\n\r\t\u{8}\u{c}\u{1}\u{1f}\u{7f}é\u{2028}😀/".into(),
        truncated: true,
    };
    assert_eq!(
        logs.to_json(),
        "{\"type\":\"logs\",\"deviceId\":\"pc-1\",\"text\":\"a\\\"b\\\\c\\n\\r\\t\\b\\f\\u0001\\u001f\u{7f}é\u{2028}😀/\",\"truncated\":true}"
    );
}

#[test]
fn every_character_reads_back() {
    let text: String = ('\0'..='\u{2fff}').chain(['😀', '\u{10ffff}']).collect();
    let message = PlayerMessage::Error {
        code: "X".into(),
        detail: text.clone(),
    };
    let value: serde_json::Value = serde_json::from_str(&message.to_json()).unwrap();
    assert_eq!(value["type"], "error");
    assert_eq!(value["detail"].as_str(), Some(text.as_str()));
    assert!(message
        .to_json()
        .contains(&serde_json::to_string(&text).unwrap()));
}
