use flow_migrate::client::{
    array_len, choose_download_url, first_json_document, get_auth_headers, login_outcome,
    registration_accepted, registration_record, AppDetail, LoginResponse,
};
use flow_migrate::config::{progress_percentage, Config, SettingsConfig};
use flow_migrate::errs::MigrateError;
use flow_migrate::ident::{derive_name, format_timestamp, Timestamp};
use flow_migrate::manifest::{Manifest, RawField};
use flow_migrate::updater::{evaluate_update, parse_version, version_newer, ReleaseAsset};

fn ts() -> Timestamp {
    Timestamp { year: 2024, month: 5, day: 1, hour: 12, minute: 3, second: 9 }
}

#[test]
fn format_timestamp_is_fixed_width() {
    assert_eq!(format_timestamp(ts()), "2024-05-01 12:03:09");
    let early = Timestamp { year: 7, month: 1, day: 2, hour: 0, minute: 0, second: 5 };
    assert_eq!(format_timestamp(early), "0007-01-02 00:00:05");
}

#[test]
fn derive_name_is_deterministic() {
    let a = derive_name("Foo", ts());
    let b = derive_name("Foo", ts());
    assert_eq!(a, b);
    assert_eq!(a, "Foo_migrated_at_2024-05-01 12:03:09");
}

#[test]
fn derive_name_differs_across_timestamps() {
    let t2 = Timestamp { second: 10, ..ts() };
    let a = derive_name("Foo", ts());
    let b = derive_name("Foo", t2);
    assert_ne!(a, b);
    assert!(a.starts_with("Foo_migrated_at_"));
    assert!(b.starts_with("Foo_migrated_at_"));
}

#[test]
fn auth_headers_carry_bearer_token() {
    let hs = get_auth_headers("tok-123");
    assert_eq!(hs.len(), 6);
    assert_eq!(hs[4].0, "Authorization");
    assert_eq!(hs[4].1, "bearer tok-123");
    assert_eq!(hs[0], ("Connection", "Keep-Alive".to_string()));
}

#[test]
fn login_outcome_decides() {
    let ok = login_outcome(LoginResponse {
        success: Some(true),
        access_token: Some("t".to_string()),
        msg: None,
    });
    assert_eq!(ok, Ok("t".to_string()));
    let no_token = login_outcome(LoginResponse {
        success: Some(true),
        access_token: None,
        msg: Some("odd".to_string()),
    });
    assert_eq!(no_token, Err("odd".to_string()));
    let refused = login_outcome(LoginResponse { success: Some(false), access_token: None, msg: None });
    assert_eq!(refused, Err("登录失败".to_string()));
}

#[test]
fn download_url_preference_order() {
    let d = AppDetail {
        app_id: "a".to_string(),
        bot_read_url: None,
        package_bot_url: Some("b".to_string()),
        package_schema_url: Some("c".to_string()),
    };
    assert_eq!(choose_download_url(&d), Some("b".to_string()));
    let none = AppDetail {
        app_id: "a".to_string(),
        bot_read_url: None,
        package_bot_url: None,
        package_schema_url: None,
    };
    assert_eq!(choose_download_url(&none), None);
}

#[test]
fn parse_version_accepts_tags() {
    assert_eq!(parse_version("v1.2.3"), Some((1, 2, 3)));
    assert_eq!(parse_version("1.2"), Some((1, 2, 0)));
    assert_eq!(parse_version("10.0.7"), Some((10, 0, 7)));
    assert_eq!(parse_version("1.2.3.4"), Some((1, 2, 3)));
}

#[test]
fn parse_version_rejects_malformed() {
    assert_eq!(parse_version("1"), None);
    assert_eq!(parse_version(""), None);
    assert_eq!(parse_version("a.b.c"), None);
    assert_eq!(parse_version("1.2."), None);
    assert_eq!(parse_version("99999999999999999999999.0.0"), None);
}

#[test]
fn version_order_is_lexicographic() {
    assert!(version_newer((2, 0, 0), (1, 9, 9)));
    assert!(version_newer((1, 3, 0), (1, 2, 9)));
    assert!(version_newer((1, 2, 4), (1, 2, 3)));
    assert!(!version_newer((1, 2, 3), (1, 2, 3)));
    assert!(!version_newer((1, 2, 3), (2, 0, 0)));
}

#[test]
fn evaluate_update_picks_installer() {
    let assets = vec![
        ReleaseAsset {
            name: "tool_src.tar.gz".to_string(),
            browser_download_url: "u1".to_string(),
        },
        ReleaseAsset {
            name: "tool_1.1.0_x64-setup.exe".to_string(),
            browser_download_url: "u2".to_string(),
        },
    ];
    let up = evaluate_update("1.0.0".to_string(), "v1.1.0".to_string(), &assets);
    assert!(up.has_update);
    assert_eq!(up.download_url, Some("u2".to_string()));
    let same = evaluate_update("1.1.0".to_string(), "v1.1.0".to_string(), &assets);
    assert!(!same.has_update);
    assert_eq!(same.download_url, None);
    assert_eq!(same.latest_version, "1.1.0");
    assert_eq!(up.latest_version, "1.1.0");
}

#[test]
fn config_default_holds_two_accounts() {
    let c = Config::default();
    assert_eq!(c.accounts.len(), 2);
    assert_eq!(c.accounts[0].name, "账号1");
    assert_eq!(c.accounts[1].name, "账号2");
    assert_eq!(c.accounts[0].username, "");
    let s = SettingsConfig::default();
    assert_eq!(s.language, "zh-CN");
    assert_eq!(s.theme, "system");
    assert!(s.auto_update);
}

#[test]
fn progress_is_capped_whole_percent() {
    assert_eq!(progress_percentage(50, 200), 25);
    assert_eq!(progress_percentage(10, 0), 0);
    assert_eq!(progress_percentage(300, 100), 100);
    assert_eq!(progress_percentage(u64::MAX, 1), 100);
}

#[test]
fn array_len_counts_elements() {
    assert_eq!(array_len(&b"[]".to_vec()), Some(0));
    assert_eq!(array_len(&b"[1, 2, 3]".to_vec()), Some(3));
    assert_eq!(array_len(&b"[{\"a\": [1,2]}, \"x,y\"]".to_vec()), Some(2));
    assert_eq!(array_len(&b"7".to_vec()), None);
}

#[test]
fn registration_record_maps_and_defaults() {
    let m = Manifest {
        identity: "id".to_string(),
        display_name: "Nm".to_string(),
        encrypted: false,
        extra: vec![
            RawField { key: b"icon".to_vec(), value: b"\"ic.png\"".to_vec() },
            RawField { key: b"robot_type".to_vec(), value: b"\"flow\"".to_vec() },
            RawField { key: b"flows".to_vec(), value: b"[1, 2, 3]".to_vec() },
        ],
    };
    let r = registration_record(&m);
    assert_eq!(r.app_icon, "ic.png");
    assert_eq!(r.app_type, "flow");
    assert_eq!(r.name, "Nm");
    assert_eq!(r.flow_count, 3);
    assert_eq!(r.ui_type, "PC");
    assert_eq!(r.description, "");
    assert!(r.custom_items.is_none());

    let bare = Manifest {
        identity: "id".to_string(),
        display_name: "Nm".to_string(),
        encrypted: false,
        extra: vec![],
    };
    let rb = registration_record(&bare);
    assert_eq!(rb.app_type, "app");
    assert_eq!(rb.flow_count, 0);
}

#[test]
fn error_messages_name_each_failure() {
    assert_eq!(MigrateError::SourceUnavailable.message(), "source archive unavailable");
    assert_eq!(MigrateError::ArchiveFormat.message(), "archive or manifest malformed");
    assert_eq!(MigrateError::ManifestMissing.message(), "archive holds no package.json");
    assert_eq!(MigrateError::Io.message(), "file unreadable while packing");
    assert_eq!(MigrateError::Auth.message(), "credential rejected");
    assert_eq!(MigrateError::RemoteUnavailable.message(), "remote unreachable or failed");
    assert_eq!(MigrateError::Protocol.message(), "remote response undecodable");
    assert_eq!(MigrateError::RegistrationRejected.message(), "registration refused");
}

#[test]
fn first_json_document_splits_concatenated_responses() {
    assert_eq!(
        first_json_document(&b"{\"a\":1}{\"b\":2}".to_vec()),
        b"{\"a\":1}".to_vec()
    );
    assert_eq!(first_json_document(&b"{\"a\":1}".to_vec()), b"{\"a\":1}".to_vec());
    assert_eq!(first_json_document(&Vec::new()), Vec::<u8>::new());
}

#[test]
fn registration_acceptance_decision() {
    assert!(registration_accepted(Some(true), None));
    assert!(registration_accepted(None, Some(200)));
    assert!(registration_accepted(Some(false), Some(200)));
    assert!(!registration_accepted(Some(false), Some(500)));
    assert!(!registration_accepted(None, None));
}

#[test]
fn derive_name_with_empty_original() {
    let a = derive_name("", ts());
    assert_eq!(a, "_migrated_at_2024-05-01 12:03:09");
}
