use celeste::login::{
    can_login, create_config_request, merge_rclone_config, parse_rclone_remote_names,
    server_type_icon, DropboxConfig, GDriveConfig, LoginFailure, NextcloudConfig,
    OwncloudConfig, PCloudConfig, ProtonDriveConfig, ServerType, ServerTypeIcon, WebDavConfig,
};
use celeste::rclone::RcloneError;

fn oauth(name: &str) -> (String, String, String, String) {
    (name.to_string(), "id".to_string(), "secret".to_string(), "{\"access_token\":\"t\"}".to_string())
}

fn all_server_types() -> Vec<ServerType> {
    let (n, i, s, a) = oauth("box");
    let dropbox = ServerType::Dropbox(DropboxConfig { server_name: n, client_id: i, client_secret: s, auth_json: a });
    let (n, i, s, a) = oauth("gd");
    let gdrive = ServerType::GDrive(GDriveConfig { server_name: n, client_id: i, client_secret: s, auth_json: a });
    let (n, i, s, a) = oauth("pc");
    let pcloud = ServerType::PCloud(PCloudConfig { server_name: n, client_id: i, client_secret: s, auth_json: a });
    let nextcloud = ServerType::Nextcloud(NextcloudConfig {
        server_name: "nc".into(),
        server_url: "https://n.example/dav".into(),
        username: "u".into(),
        password: "p".into(),
    });
    let owncloud = ServerType::Owncloud(OwncloudConfig {
        server_name: "oc".into(),
        server_url: "https://o.example".into(),
        username: "u".into(),
        password: "p".into(),
    });
    let proton = ServerType::ProtonDrive(ProtonDriveConfig {
        server_name: "pd".into(),
        username: "me".into(),
        password: "pw".into(),
        totp: "123456".into(),
    });
    let webdav = ServerType::WebDav(WebDavConfig {
        server_name: "wd".into(),
        server_url: "https://w.example".into(),
        username: "u".into(),
        password: "p\"q".into(),
    });
    vec![dropbox, gdrive, nextcloud, owncloud, pcloud, proton, webdav]
}

#[test]
fn remote_names_of_a_config() {
    let config = "[alpha]\ntype = drive\n\n  [ beta ]  \r\n# [not a header\n[]\n[gamma]\nkey = [x]\n";
    assert_eq!(parse_rclone_remote_names(config), vec!["alpha", "beta", "gamma"]);
    assert_eq!(parse_rclone_remote_names(""), Vec::<String>::new());
    assert_eq!(parse_rclone_remote_names("[   ]\n["), Vec::<String>::new());
}

#[test]
fn merge_replaces_imported_sections() {
    let existing = "[keep]\ntype = drive\n\n[dup]\ntype = dropbox\ntoken = old\n\n[other]\ntype = webdav\n";
    let imported = "\n\n[dup]\ntype = dropbox\ntoken = new\n  \n";
    let merged = merge_rclone_config(existing, imported);
    assert_eq!(
        merged,
        "[keep]\ntype = drive\n\n[other]\ntype = webdav\n\n[dup]\ntype = dropbox\ntoken = new\n"
    );
}

#[test]
fn merge_into_empty_config() {
    assert_eq!(merge_rclone_config("", "[a]\ntype = drive"), "[a]\ntype = drive\n");
    assert_eq!(merge_rclone_config("  \n\n", "[a]\n"), "  \n\n[a]\n");
    assert_eq!(merge_rclone_config("[a]\nx = 1\n", "[a]\nx = 2\n"), "[a]\nx = 2\n");
}

#[test]
fn merge_keeps_lines_before_first_section() {
    let merged = merge_rclone_config("# comment\r\n[b]\nx = 1", "[c]\ny = 2");
    assert_eq!(merged, "# comment\n[b]\nx = 1\n\n[c]\ny = 2\n");
}

#[test]
fn merged_config_names_kept_then_imported_remotes() {
    let existing = "[one]\n[two]\n[three]\n";
    let imported = "[two]\n[four]\n";
    let merged = merge_rclone_config(existing, imported);
    assert_eq!(parse_rclone_remote_names(&merged), vec!["one", "three", "two", "four"]);
}

#[test]
fn server_type_names() {
    let names: Vec<String> = all_server_types().iter().map(|s| s.to_string()).collect();
    assert_eq!(
        names,
        vec!["Dropbox", "Google Drive", "Nextcloud", "Owncloud", "pCloud", "Proton Drive", "WebDAV"]
    );
    let servers: Vec<String> = all_server_types().iter().map(|s| s.server_name()).collect();
    assert_eq!(servers, vec!["box", "gd", "nc", "oc", "pc", "pd", "wd"]);
}

#[test]
fn server_type_icons() {
    let icons: Vec<ServerTypeIcon> =
        all_server_types().iter().map(|s| server_type_icon(&s.to_string())).collect();
    assert_eq!(
        icons,
        vec![
            ServerTypeIcon::Cloud,
            ServerTypeIcon::GoogleDrive,
            ServerTypeIcon::WebDav,
            ServerTypeIcon::WebDav,
            ServerTypeIcon::Cloud,
            ServerTypeIcon::LockedCloud,
            ServerTypeIcon::WebDav,
        ]
    );
    assert_eq!(server_type_icon("GOOGLE DRIVE"), ServerTypeIcon::GoogleDrive);
    assert_eq!(server_type_icon("proton  drive"), ServerTypeIcon::Cloud);
}

#[test]
fn login_failures() {
    assert_eq!(can_login(&Ok(())), Ok(()));
    let err = |e: &str| can_login(&Err(RcloneError { error: e.to_string() }));
    assert_eq!(
        err("dial tcp: lookup x: Temporary failure in name resolution"),
        Err(LoginFailure::NoConnection)
    );
    assert_eq!(err("this account requires a 2FA code"), Err(LoginFailure::TwoFactorRequired));
    assert_eq!(err("401 Unauthorized"), Err(LoginFailure::BadCredentials));
}

#[test]
fn create_requests() {
    let inputs: Vec<String> = all_server_types()
        .iter()
        .map(|s| {
            let r = create_config_request(s);
            assert_eq!(r.method, "config/create");
            r.input
        })
        .collect();
    assert_eq!(inputs[0], r#"{"name":"box","parameters":{"client_id":"id","client_secret":"secret","config_refresh_token":false,"token":"{\"access_token\":\"t\"}"},"type":"dropbox"}"#);
    assert_eq!(inputs[1], r#"{"name":"gd","parameters":{"client_id":"id","client_secret":"secret","config_refresh_token":false,"token":"{\"access_token\":\"t\"}"},"type":"drive"}"#);
    assert_eq!(inputs[2], r#"{"name":"nc","opt":{"obscure":true},"parameters":{"pass":"p","url":"https://n.example/dav","user":"u","vendor":"nextcloud"},"type":"webdav"}"#);
    assert_eq!(inputs[3], r#"{"name":"oc","opt":{"obscure":true},"parameters":{"pass":"p","url":"https://o.example","user":"u","vendor":"owncloud"},"type":"webdav"}"#);
    assert_eq!(inputs[4], r#"{"name":"pc","opt":{"obscure":true},"parameters":{"client_id":"id","client_secret":"secret","config_refresh_token":false,"token":"{\"access_token\":\"t\"}"},"type":"pcloud"}"#);
    assert_eq!(inputs[5], r#"{"name":"pd","opt":{"obscure":true},"parameters":{"2fa":"123456","password":"pw","username":"me"},"type":"protondrive"}"#);
    assert_eq!(inputs[6], r#"{"name":"wd","opt":{"obscure":true},"parameters":{"pass":"p\"q","url":"https://w.example","user":"u","vendor":"webdav"},"type":"webdav"}"#);
}

#[test]
fn config_path_request() {
    let r = celeste::login::set_config_path_request("/home/me/.config/celeste/rclone.conf");
    assert_eq!(r.method, "config/setpath");
    assert_eq!(r.input, r#"{"path":"/home/me/.config/celeste/rclone.conf"}"#);
}

#[test]
fn login_steps() {
    let server = all_server_types().remove(1);
    match celeste::login::login_step(&server, &Ok(())) {
        celeste::login::LoginStep::LoggedIn(name) => assert_eq!(name, "gd"),
        _ => panic!("expected a successful login"),
    }
    let refused = Err(RcloneError { error: "this account requires a 2FA code".to_string() });
    match celeste::login::login_step(&server, &refused) {
        celeste::login::LoginStep::Retry { delete, failure } => {
            assert_eq!(delete.method, "config/delete");
            assert_eq!(delete.input, r#"{"name":"gd"}"#);
            assert_eq!(failure, LoginFailure::TwoFactorRequired);
        }
        _ => panic!("expected a retry"),
    }
}
