use usb_bridge::config::{
    check_server_url, from_values, generate_client_id, needs_generated_id, resolve, stored_from,
    validate_server_url, with_generated_id, Environment, Overrides, StoredConfig, UrlParts,
};
use usb_bridge::error::ClientError;

fn config_message(r: Result<impl std::fmt::Debug, ClientError>) -> String {
    match r {
        Err(ClientError::Config(m)) => m,
        other => panic!("unexpected {other:?}"),
    }
}

#[test]
fn precedence_is_cli_then_env_then_file() {
    let stored = StoredConfig {
        server_url: Some("http://file:1".into()),
        client_id: Some("file-id".into()),
        usbip_path: Some("file.exe".into()),
    };
    let env = Environment {
        server_url: Some("http://env:2".into()),
        client_id: Some("env-id".into()),
        usbip_path: None,
    };
    let config = resolve(
        &Overrides { server_url: Some("https://cli:3".into()), ..Default::default() },
        &env,
        &stored,
    )
    .unwrap();
    assert_eq!(config.server_url.as_str(), "https://cli:3/");
    assert_eq!(config.client_id, "env-id");
    assert_eq!(config.usbip_path, "file.exe");
}

#[test]
fn generated_id_is_persisted() {
    let stored = StoredConfig::default();
    assert!(needs_generated_id(&stored));
    let first_file = with_generated_id(stored);
    let none = Environment { server_url: None, client_id: None, usbip_path: None };
    let first = resolve(&Overrides::default(), &none, &first_file).unwrap();
    assert!(!needs_generated_id(&first_file));
    let second_file = with_generated_id(first_file.clone());
    let second = resolve(&Overrides::default(), &none, &second_file).unwrap();
    assert_eq!(first.client_id, second.client_id);
}

#[test]
fn generated_ids_have_the_uuid_form() {
    let id = generate_client_id();
    assert!(id.starts_with("windows-"));
    let u = &id["windows-".len()..];
    assert_eq!(u.len(), 36);
    for (i, c) in u.chars().enumerate() {
        if [8, 13, 18, 23].contains(&i) {
            assert_eq!(c, '-');
        } else {
            assert!(c.is_ascii_hexdigit() && !c.is_ascii_uppercase());
        }
    }
    assert_ne!(generate_client_id(), generate_client_id());
    let empty = StoredConfig { server_url: None, client_id: Some(String::new()), usbip_path: None };
    assert!(needs_generated_id(&empty));
    let kept = with_generated_id(StoredConfig { server_url: None, client_id: Some("x".into()), usbip_path: None });
    assert_eq!(kept.client_id.as_deref(), Some("x"));
}

#[test]
fn defaults_apply_when_nothing_is_given() {
    let none = Environment { server_url: None, client_id: None, usbip_path: None };
    let stored = StoredConfig { server_url: None, client_id: Some("id".into()), usbip_path: None };
    let c = resolve(&Overrides { dry_run: true, ..Default::default() }, &none, &stored).unwrap();
    assert_eq!(c.server_url, "http://127.0.0.1:8080/");
    assert_eq!(c.usbip_path, "usbip.exe");
    assert!(c.dry_run);
}

#[test]
fn blank_client_id_is_refused_before_the_url() {
    let env = Environment { server_url: Some("ftp://x".into()), client_id: Some("env".into()), usbip_path: None };
    let stored = StoredConfig::default();
    let m = config_message(resolve(&Overrides { client_id: Some("  ".into()), ..Default::default() }, &env, &stored));
    assert_eq!(m, "client_idは空にできません");
    let none = Environment { server_url: None, client_id: None, usbip_path: None };
    assert_eq!(config_message(resolve(&Overrides::default(), &none, &stored)), "client_idは空にできません");
}

#[test]
fn server_urls_are_checked() {
    assert_eq!(validate_server_url("http://host:8080").unwrap(), "http://host:8080/");
    assert_eq!(validate_server_url("https://h/").unwrap(), "https://h/");
    assert_eq!(config_message(validate_server_url("ftp://h")), "サーバーURLにはhttpまたはhttpsの絶対URLを指定してください");
    assert_eq!(config_message(validate_server_url("http://h/api")), "サーバーURLにはscheme・host・portだけを指定してください");
    assert_eq!(config_message(validate_server_url("http://h/?q=1")), "サーバーURLにはscheme・host・portだけを指定してください");
    assert_eq!(config_message(validate_server_url("http://h/#f")), "サーバーURLにはscheme・host・portだけを指定してください");
    assert!(config_message(validate_server_url("not a url")).starts_with("サーバーURLが不正です: "));
}

#[test]
fn parsed_urls_are_judged() {
    let parts = |scheme: &str, host: Option<&str>, path: &str| UrlParts {
        scheme: scheme.into(),
        host: host.map(Into::into),
        query: None,
        fragment: None,
        path: path.into(),
        text: "T".into(),
    };
    assert_eq!(check_server_url(&Ok(parts("https", Some("h"), "/"))).unwrap(), "T");
    assert_eq!(config_message(check_server_url(&Ok(parts("https", None, "")))), "サーバーURLにはhttpまたはhttpsの絶対URLを指定してください");
    assert_eq!(config_message(check_server_url(&Err("bad".into()))), "サーバーURLが不正です: bad");
}

#[test]
fn hand_entered_values() {
    let c = from_values("http://pi.local:8080", "  me  ", "C:\\usbip.exe".into()).unwrap();
    assert_eq!(c.client_id, "me");
    assert_eq!(c.server_url, "http://pi.local:8080/");
    assert!(!c.dry_run);
    assert_eq!(config_message(from_values("http://h", " \t", "x".into())), "client_idは空にできません");
    let s = stored_from(&c);
    assert_eq!(s.server_url.as_deref(), Some("http://pi.local:8080/"));
    assert_eq!(s.client_id.as_deref(), Some("me"));
    assert_eq!(s.usbip_path.as_deref(), Some("C:\\usbip.exe"));
}
