use celeste::rclone::{
    get_remote, get_remote_config, get_remote_names, get_remotes, Remote, WebDavVendors,
};

fn ok(s: &str) -> Result<String, String> {
    Ok(s.to_string())
}

#[test]
fn dropbox_remote_from_reply() {
    let reply = ok(r#"{"type":"dropbox","client_id":"cid","token":"t"}"#);
    match get_remote("box", &reply) {
        Some(Remote::Dropbox(r)) => {
            assert_eq!(r.remote_name, "box");
            assert_eq!(r.client_id, "cid");
            assert_eq!(r.client_secret, "");
        }
        _ => panic!("expected a Dropbox remote"),
    }
}

#[test]
fn other_remote_types_from_replies() {
    assert!(matches!(get_remote("g", &ok(r#"{"type":"drive"}"#)), Some(Remote::GDrive(_))));
    assert!(matches!(get_remote("p", &ok(r#"{"type":"pcloud","client_secret":"s"}"#)), Some(Remote::PCloud(r)) if r.client_secret == "s"));
    assert!(matches!(get_remote("pd", &ok(r#"{"type":"protondrive","username":"me"}"#)), Some(Remote::ProtonDrive(r)) if r.username == "me"));
    match get_remote("w", &ok(r#"{"type":"webdav","vendor":"owncloud","url":"https://x","user":"u","pass":"p"}"#)) {
        Some(Remote::WebDav(r)) => {
            assert_eq!(r.vendor, WebDavVendors::Owncloud);
            assert_eq!((r.url.as_str(), r.user.as_str(), r.pass.as_str()), ("https://x", "u", "p"));
        }
        _ => panic!("expected a WebDAV remote"),
    }
    assert!(matches!(get_remote("w", &ok(r#"{"type":"webdav","vendor":"nextcloud"}"#)), Some(Remote::WebDav(r)) if r.vendor == WebDavVendors::Nextcloud));
    assert!(matches!(get_remote("w", &ok(r#"{"type":"webdav","vendor":"webdav"}"#)), Some(Remote::WebDav(r)) if r.vendor == WebDavVendors::WebDav));
}

#[test]
fn unsupported_or_broken_replies_give_no_remote() {
    assert!(get_remote("w", &ok(r#"{"type":"webdav","vendor":"sharepoint"}"#)).is_none());
    assert!(get_remote("w", &ok(r#"{"type":"webdav"}"#)).is_none());
    assert!(get_remote("s", &ok(r#"{"type":"s3"}"#)).is_none());
    assert!(get_remote("s", &ok(r#"{"provider":"x"}"#)).is_none());
    assert!(get_remote("s", &ok("null")).is_none());
    assert!(get_remote("s", &ok("not json")).is_none());
    assert!(get_remote("s", &ok(r#"{"type":"drive","n":1}"#)).is_none());
    assert!(get_remote("s", &Err("failed".to_string())).is_none());
}

#[test]
fn remote_config_lookups() {
    let c = get_remote_config(&ok(r#"{"a":"1","b":"","a":"2"}"#)).unwrap();
    assert_eq!(c.get("a"), Some("2".to_string()));
    assert_eq!(c.get("b"), Some(String::new()));
    assert_eq!(c.get("c"), None);
    assert_eq!(c.get_or_empty("c"), "");
    assert!(get_remote_config(&ok("null")).is_none());
    assert!(get_remote_config(&Err("x".into())).is_none());
}

#[test]
fn remote_names_from_listing() {
    assert_eq!(
        get_remote_names(r#"{"remotes":["a","b"]}"#),
        Some(vec!["a".to_string(), "b".to_string()])
    );
    assert_eq!(get_remote_names(r#"{"remotes":[]}"#), Some(vec![]));
    assert_eq!(get_remote_names(r#"{"other":["a"]}"#), None);
    assert_eq!(get_remote_names(r#"{"remotes":"a"}"#), None);
    assert_eq!(get_remote_names("[]"), None);
}

#[test]
fn supported_remotes_in_order() {
    let entries = vec![
        ("a".to_string(), ok(r#"{"type":"drive"}"#)),
        ("b".to_string(), ok(r#"{"type":"s3"}"#)),
        ("c".to_string(), Err("gone".to_string())),
        ("d".to_string(), ok(r#"{"type":"protondrive"}"#)),
    ];
    let names: Vec<String> = get_remotes(&entries).iter().map(|r| r.remote_name()).collect();
    assert_eq!(names, vec!["a", "d"]);
}

#[test]
fn vendor_names() {
    let names: Vec<String> = [
        WebDavVendors::Nextcloud,
        WebDavVendors::Owncloud,
        WebDavVendors::GDrive,
        WebDavVendors::PCloud,
        WebDavVendors::WebDav,
    ]
    .iter()
    .map(|v| v.to_string())
    .collect();
    assert_eq!(names, vec!["Nextcloud", "Owncloud", "Google Drive", "pCloud", "WebDav"]);
}

#[test]
fn listing_and_config_requests() {
    let r = celeste::rclone::remote_config_request("my \"drive\"");
    assert_eq!(r.method, "config/get");
    assert_eq!(r.input, r#"{"name":"my \"drive\""}"#);
    let l = celeste::rclone::remote_names_request();
    assert_eq!(l.method, "config/listremotes");
    assert_eq!(l.input, "{}");
}

#[test]
fn remote_config_entries() {
    let c = get_remote_config(&ok(r#"{"type":"drive","client_id":"x","type":"dropbox"}"#)).unwrap();
    let mut pairs = c.entries();
    pairs.sort();
    assert_eq!(
        pairs,
        vec![("client_id".to_string(), "x".to_string()), ("type".to_string(), "dropbox".to_string())]
    );
}
