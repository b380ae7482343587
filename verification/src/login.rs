//! The server types a user can log in to: their names and pictures, the
//! rclone configuration that a login creates, and the reasons a login fails.

use vstd::prelude::*;
use crate::json::{
    field_views, json_bool, json_bool_text, json_object, json_object_text, json_string,
    json_string_text, text_before,
};
use crate::rclone::sync::delete_config;
use crate::rclone::{RcloneError, RcloneRequest};
use crate::text::{chars_of, contains_chars, has_substring, str_eq, to_lowercase, unicode_lowercase};

pub mod import;

pub use import::{merge_rclone_config, parse_rclone_remote_names, set_config_path_request};

verus! {

/// The object keys written here, in the order that serde_json writes them.
proof fn lemma_create_keys_in_order()
    ensures
        text_before("client_id"@, "client_secret"@),
        text_before("client_secret"@, "config_refresh_token"@),
        text_before("config_refresh_token"@, "token"@),
        text_before("pass"@, "url"@),
        text_before("url"@, "user"@),
        text_before("user"@, "vendor"@),
        text_before("2fa"@, "password"@),
        text_before("password"@, "username"@),
        text_before("name"@, "opt"@),
        text_before("opt"@, "parameters"@),
        text_before("parameters"@, "type"@),
        text_before("name"@, "parameters"@),
{
    reveal_strlit("2fa");
    reveal_strlit("client_id");
    reveal_strlit("client_secret");
    reveal_strlit("config_refresh_token");
    reveal_strlit("name");
    reveal_strlit("opt");
    reveal_strlit("parameters");
    reveal_strlit("pass");
    reveal_strlit("password");
    reveal_strlit("token");
    reveal_strlit("type");
    reveal_strlit("url");
    reveal_strlit("user");
    reveal_strlit("username");
    reveal_strlit("vendor");
    reveal_with_fuel(text_before, 9);
}

/// The settings of a Dropbox login.
#[derive(Clone, Debug)]
pub struct DropboxConfig {
    pub server_name: String,
    pub client_id: String,
    pub client_secret: String,
    pub auth_json: String,
}

/// The settings of a Google Drive login.
#[derive(Clone, Debug)]
pub struct GDriveConfig {
    pub server_name: String,
    pub client_id: String,
    pub client_secret: String,
    pub auth_json: String,
}

/// The settings of a Nextcloud login.
#[derive(Clone, Debug)]
pub struct NextcloudConfig {
    pub server_name: String,
    pub server_url: String,
    pub username: String,
    pub password: String,
}

/// The settings of an Owncloud login.
#[derive(Clone, Debug)]
pub struct OwncloudConfig {
    pub server_name: String,
    pub server_url: String,
    pub username: String,
    pub password: String,
}

/// The settings of a pCloud login.
#[derive(Clone, Debug)]
pub struct PCloudConfig {
    pub server_name: String,
    pub client_id: String,
    pub client_secret: String,
    pub auth_json: String,
}

/// The settings of a Proton Drive login.
#[derive(Clone, Debug)]
pub struct ProtonDriveConfig {
    pub server_name: String,
    pub username: String,
    pub password: String,
    pub totp: String,
}

/// The settings of a WebDAV login.
#[derive(Clone, Debug)]
pub struct WebDavConfig {
    pub server_name: String,
    pub server_url: String,
    pub username: String,
    pub password: String,
}

/// An enum representing valid storage types.
#[derive(Clone, Debug)]
pub enum ServerType {
    Dropbox(DropboxConfig),
    GDrive(GDriveConfig),
    Nextcloud(NextcloudConfig),
    Owncloud(OwncloudConfig),
    PCloud(PCloudConfig),
    ProtonDrive(ProtonDriveConfig),
    WebDav(WebDavConfig),
}

/// The name under which a server type is offered.
pub open spec fn server_type_name(s: ServerType) -> Seq<char> {
    match s {
        ServerType::Dropbox(_) => "Dropbox"@,
        ServerType::GDrive(_) => "Google Drive"@,
        ServerType::Nextcloud(_) => "Nextcloud"@,
        ServerType::Owncloud(_) => "Owncloud"@,
        ServerType::PCloud(_) => "pCloud"@,
        ServerType::ProtonDrive(_) => "Proton Drive"@,
        ServerType::WebDav(_) => "WebDAV"@,
    }
}

/// The name that a login gives the new remote.
pub open spec fn server_name_of(s: ServerType) -> Seq<char> {
    match s {
        ServerType::Dropbox(c) => c.server_name@,
        ServerType::GDrive(c) => c.server_name@,
        ServerType::Nextcloud(c) => c.server_name@,
        ServerType::Owncloud(c) => c.server_name@,
        ServerType::PCloud(c) => c.server_name@,
        ServerType::ProtonDrive(c) => c.server_name@,
        ServerType::WebDav(c) => c.server_name@,
    }
}

impl ServerType {
    /// The name under which the server type is offered.
    pub fn to_string(&self) -> (name: String)
        ensures
            name@ == server_type_name(*self),
    {
        match self {
            ServerType::Dropbox(_) => "Dropbox".to_owned(),
            ServerType::GDrive(_) => "Google Drive".to_owned(),
            ServerType::Nextcloud(_) => "Nextcloud".to_owned(),
            ServerType::Owncloud(_) => "Owncloud".to_owned(),
            ServerType::PCloud(_) => "pCloud".to_owned(),
            ServerType::ProtonDrive(_) => "Proton Drive".to_owned(),
            ServerType::WebDav(_) => "WebDAV".to_owned(),
        }
    }

    /// The name that the login gives the new remote.
    pub fn server_name(&self) -> (name: String)
        ensures
            name@ == server_name_of(*self),
    {
        match self {
            ServerType::Dropbox(c) => c.server_name.clone(),
            ServerType::GDrive(c) => c.server_name.clone(),
            ServerType::Nextcloud(c) => c.server_name.clone(),
            ServerType::Owncloud(c) => c.server_name.clone(),
            ServerType::PCloud(c) => c.server_name.clone(),
            ServerType::ProtonDrive(c) => c.server_name.clone(),
            ServerType::WebDav(c) => c.server_name.clone(),
        }
    }
}

/// The pictures that stand next to a server type.
#[derive(Clone, Copy, Debug, PartialEq, Eq, Structural)]
pub enum ServerTypeIcon {
    GoogleDrive,
    WebDav,
    LockedCloud,
    Cloud,
}

/// The picture for a server type's name, chosen by its lower-case form:
/// Google Drive's own, a WebDAV picture for Nextcloud, Owncloud and WebDAV, a
/// locked cloud for Proton Drive, and a cloud for any other name.
pub open spec fn server_type_icon_of(name: Seq<char>) -> ServerTypeIcon {
    let l = unicode_lowercase(name);
    if l == "google drive"@ {
        ServerTypeIcon::GoogleDrive
    } else if l == "nextcloud"@ || l == "owncloud"@ || l == "webdav"@ {
        ServerTypeIcon::WebDav
    } else if l == "proton drive"@ {
        ServerTypeIcon::LockedCloud
    } else {
        ServerTypeIcon::Cloud
    }
}

/// The picture that stands next to a server type's name.
pub fn server_type_icon(server_type: &str) -> (icon: ServerTypeIcon)
    ensures
        icon == server_type_icon_of(server_type@),
{
    let l = to_lowercase(server_type);
    let l = l.as_str();
    if str_eq(l, "google drive") {
        ServerTypeIcon::GoogleDrive
    } else if str_eq(l, "nextcloud") || str_eq(l, "owncloud") || str_eq(l, "webdav") {
        ServerTypeIcon::WebDav
    } else if str_eq(l, "proton drive") {
        ServerTypeIcon::LockedCloud
    } else {
        ServerTypeIcon::Cloud
    }
}

/// Why a login was refused, by the error that rclone gave when it first
/// looked at the new remote.
#[derive(Clone, Copy, Debug, PartialEq, Eq, Structural)]
pub enum LoginFailure {
    /// The server's name could not be resolved: no connection.
    NoConnection,
    /// The account wants a second factor.
    TwoFactorRequired,
    /// Any other error: the credentials are taken to be wrong.
    BadCredentials,
}

/// The reason that an rclone error message gives for a refused login.
pub open spec fn login_failure_of(error: Seq<char>) -> LoginFailure {
    if has_substring(error, "Temporary failure in name resolution"@) {
        LoginFailure::NoConnection
    } else if has_substring(error, "this account requires a 2FA code"@) {
        LoginFailure::TwoFactorRequired
    } else {
        LoginFailure::BadCredentials
    }
}

/// The reason of a refused login follows the error message: a name
/// resolution failure anywhere in it means no connection; otherwise a
/// required 2FA code anywhere in it means a second factor is needed; any
/// other message means bad credentials.
pub proof fn lemma_login_failure_reasons(before: Seq<char>, after: Seq<char>, error: Seq<char>)
    ensures
        login_failure_of(before + "Temporary failure in name resolution"@ + after)
            == LoginFailure::NoConnection,
        !has_substring(before + "this account requires a 2FA code"@ + after, "Temporary failure in name resolution"@)
            ==> login_failure_of(before + "this account requires a 2FA code"@ + after)
            == LoginFailure::TwoFactorRequired,
        !has_substring(error, "Temporary failure in name resolution"@) && !has_substring(
            error,
            "this account requires a 2FA code"@,
        ) ==> login_failure_of(error) == LoginFailure::BadCredentials,
{
    let n = "Temporary failure in name resolution"@;
    let t = "this account requires a 2FA code"@;
    let e1 = before + n + after;
    let e2 = before + t + after;
    assert(e1.subrange(before.len() as int, (before.len() + n.len()) as int) =~= n);
    assert(e2.subrange(before.len() as int, (before.len() + t.len()) as int) =~= t);
}

/// Whether a new remote can be logged in to, given the outcome of rclone's
/// `operations/stat` on its root: yes where it succeeded, and otherwise the
/// reason that the error gives.
pub fn can_login(stat: &Result<(), RcloneError>) -> (r: Result<(), LoginFailure>)
    ensures
        stat is Ok ==> r is Ok,
        stat matches Err(e) ==> r == Err::<(), LoginFailure>(login_failure_of(e.error@)),
{
    match stat {
        Ok(()) => Ok(()),
        Err(e) => {
            let error = chars_of(e.error.as_str());
            let no_connection = chars_of("Temporary failure in name resolution");
            let two_factor = chars_of("this account requires a 2FA code");
            if contains_chars(&error, &no_connection) {
                Err(LoginFailure::NoConnection)
            } else if contains_chars(&error, &two_factor) {
                Err(LoginFailure::TwoFactorRequired)
            } else {
                Err(LoginFailure::BadCredentials)
            }
        },
    }
}


/// The parameters of a login that rclone completes with an OAuth token.
pub open spec fn oauth_parameters(client_id: Seq<char>, client_secret: Seq<char>, token: Seq<char>) -> Seq<char> {
    json_object(
        seq![
            ("client_id"@, json_string(client_id)),
            ("client_secret"@, json_string(client_secret)),
            ("config_refresh_token"@, json_bool(false)),
            ("token"@, json_string(token)),
        ],
    )
}

/// The parameters of a WebDAV login.
pub open spec fn webdav_parameters(url: Seq<char>, vendor: Seq<char>, user: Seq<char>, pass: Seq<char>) -> Seq<char> {
    json_object(
        seq![
            ("pass"@, json_string(pass)),
            ("url"@, json_string(url)),
            ("user"@, json_string(user)),
            ("vendor"@, json_string(vendor)),
        ],
    )
}

/// The parameters of a Proton Drive login.
pub open spec fn proton_parameters(username: Seq<char>, password: Seq<char>, totp: Seq<char>) -> Seq<char> {
    json_object(
        seq![
            ("2fa"@, json_string(totp)),
            ("password"@, json_string(password)),
            ("username"@, json_string(username)),
        ],
    )
}

/// The options asking rclone to obscure the passwords it stores.
pub open spec fn obscure_option() -> Seq<char> {
    json_object(seq![("obscure"@, json_bool(true))])
}

/// The input of `config/create` without options.
pub open spec fn create_input(name: Seq<char>, parameters: Seq<char>, kind: Seq<char>) -> Seq<char> {
    json_object(
        seq![
            ("name"@, json_string(name)),
            ("parameters"@, parameters),
            ("type"@, json_string(kind)),
        ],
    )
}

/// The input of `config/create` that asks rclone to obscure passwords.
pub open spec fn create_input_obscured(name: Seq<char>, parameters: Seq<char>, kind: Seq<char>) -> Seq<char> {
    json_object(
        seq![
            ("name"@, json_string(name)),
            ("opt"@, obscure_option()),
            ("parameters"@, parameters),
            ("type"@, json_string(kind)),
        ],
    )
}

/// The input of the `config/create` call that a login makes.
pub open spec fn create_config_input(s: ServerType) -> Seq<char> {
    match s {
        ServerType::Dropbox(c) => create_input(
            c.server_name@,
            oauth_parameters(c.client_id@, c.client_secret@, c.auth_json@),
            "dropbox"@,
        ),
        ServerType::GDrive(c) => create_input(
            c.server_name@,
            oauth_parameters(c.client_id@, c.client_secret@, c.auth_json@),
            "drive"@,
        ),
        ServerType::Nextcloud(c) => create_input_obscured(
            c.server_name@,
            webdav_parameters(c.server_url@, "nextcloud"@, c.username@, c.password@),
            "webdav"@,
        ),
        ServerType::Owncloud(c) => create_input_obscured(
            c.server_name@,
            webdav_parameters(c.server_url@, "owncloud"@, c.username@, c.password@),
            "webdav"@,
        ),
        ServerType::PCloud(c) => create_input_obscured(
            c.server_name@,
            oauth_parameters(c.client_id@, c.client_secret@, c.auth_json@),
            "pcloud"@,
        ),
        ServerType::ProtonDrive(c) => create_input_obscured(
            c.server_name@,
            proton_parameters(c.username@, c.password@, c.totp@),
            "protondrive"@,
        ),
        ServerType::WebDav(c) => create_input_obscured(
            c.server_name@,
            webdav_parameters(c.server_url@, "webdav"@, c.username@, c.password@),
            "webdav"@,
        ),
    }
}

fn oauth_parameters_text(client_id: &str, client_secret: &str, token: &str) -> (t: String)
    ensures
        t@ == oauth_parameters(client_id@, client_secret@, token@),
{
    let fields = vec![
        ("client_id", json_string_text(client_id)),
        ("client_secret", json_string_text(client_secret)),
        ("config_refresh_token", json_bool_text(false)),
        ("token", json_string_text(token)),
    ];
    assert(field_views(fields@) =~= seq![
        ("client_id"@, json_string(client_id@)),
        ("client_secret"@, json_string(client_secret@)),
        ("config_refresh_token"@, json_bool(false)),
        ("token"@, json_string(token@)),
    ]);
    proof {
        lemma_create_keys_in_order();
    }
    json_object_text(&fields)
}

fn webdav_parameters_text(url: &str, vendor: &str, user: &str, pass: &str) -> (t: String)
    ensures
        t@ == webdav_parameters(url@, vendor@, user@, pass@),
{
    let fields = vec![
        ("pass", json_string_text(pass)),
        ("url", json_string_text(url)),
        ("user", json_string_text(user)),
        ("vendor", json_string_text(vendor)),
    ];
    assert(field_views(fields@) =~= seq![
        ("pass"@, json_string(pass@)),
        ("url"@, json_string(url@)),
        ("user"@, json_string(user@)),
        ("vendor"@, json_string(vendor@)),
    ]);
    proof {
        lemma_create_keys_in_order();
    }
    json_object_text(&fields)
}

fn proton_parameters_text(username: &str, password: &str, totp: &str) -> (t: String)
    ensures
        t@ == proton_parameters(username@, password@, totp@),
{
    let fields = vec![
        ("2fa", json_string_text(totp)),
        ("password", json_string_text(password)),
        ("username", json_string_text(username)),
    ];
    assert(field_views(fields@) =~= seq![
        ("2fa"@, json_string(totp@)),
        ("password"@, json_string(password@)),
        ("username"@, json_string(username@)),
    ]);
    proof {
        lemma_create_keys_in_order();
    }
    json_object_text(&fields)
}

fn create_input_text(name: &str, parameters: String, kind: &str, obscure: bool) -> (t: String)
    ensures
        obscure ==> t@ == create_input_obscured(name@, parameters@, kind@),
        !obscure ==> t@ == create_input(name@, parameters@, kind@),
{
    if obscure {
        let opt_fields = vec![("obscure", json_bool_text(true))];
        assert(field_views(opt_fields@) =~= seq![("obscure"@, json_bool(true))]);
        let opt = json_object_text(&opt_fields);
        let ghost p = parameters@;
        let fields = vec![
            ("name", json_string_text(name)),
            ("opt", opt),
            ("parameters", parameters),
            ("type", json_string_text(kind)),
        ];
        assert(field_views(fields@) =~= seq![
            ("name"@, json_string(name@)),
            ("opt"@, obscure_option()),
            ("parameters"@, p),
            ("type"@, json_string(kind@)),
        ]);
        proof {
            lemma_create_keys_in_order();
        }
        json_object_text(&fields)
    } else {
        let ghost p = parameters@;
        let fields = vec![
            ("name", json_string_text(name)),
            ("parameters", parameters),
            ("type", json_string_text(kind)),
        ];
        assert(field_views(fields@) =~= seq![
            ("name"@, json_string(name@)),
            ("parameters"@, p),
            ("type"@, json_string(kind@)),
        ]);
        proof {
            lemma_create_keys_in_order();
        }
        json_object_text(&fields)
    }
}

/// The `config/create` request that a login sends for the settings the user
/// entered.
pub fn create_config_request(server: &ServerType) -> (r: RcloneRequest)
    ensures
        r.method@ == "config/create"@,
        r.input@ == create_config_input(*server),
{
    let input = match server {
        ServerType::Dropbox(c) => create_input_text(
            c.server_name.as_str(),
            oauth_parameters_text(c.client_id.as_str(), c.client_secret.as_str(), c.auth_json.as_str()),
            "dropbox",
            false,
        ),
        ServerType::GDrive(c) => create_input_text(
            c.server_name.as_str(),
            oauth_parameters_text(c.client_id.as_str(), c.client_secret.as_str(), c.auth_json.as_str()),
            "drive",
            false,
        ),
        ServerType::Nextcloud(c) => create_input_text(
            c.server_name.as_str(),
            webdav_parameters_text(c.server_url.as_str(), "nextcloud", c.username.as_str(), c.password.as_str()),
            "webdav",
            true,
        ),
        ServerType::Owncloud(c) => create_input_text(
            c.server_name.as_str(),
            webdav_parameters_text(c.server_url.as_str(), "owncloud", c.username.as_str(), c.password.as_str()),
            "webdav",
            true,
        ),
        ServerType::PCloud(c) => create_input_text(
            c.server_name.as_str(),
            oauth_parameters_text(c.client_id.as_str(), c.client_secret.as_str(), c.auth_json.as_str()),
            "pcloud",
            true,
        ),
        ServerType::ProtonDrive(c) => create_input_text(
            c.server_name.as_str(),
            proton_parameters_text(c.username.as_str(), c.password.as_str(), c.totp.as_str()),
            "protondrive",
            true,
        ),
        ServerType::WebDav(c) => create_input_text(
            c.server_name.as_str(),
            webdav_parameters_text(c.server_url.as_str(), "webdav", c.username.as_str(), c.password.as_str()),
            "webdav",
            true,
        ),
    };
    RcloneRequest { method: "config/create".to_owned(), input }
}



/// What a login does once rclone has looked at the remote it created.
pub enum LoginStep {
    /// The login succeeded: the name of the new remote.
    LoggedIn(String),
    /// The login failed: the remote is deleted again with `delete`, and the
    /// user is told `failure` and asked again.
    Retry { delete: RcloneRequest, failure: LoginFailure },
}

/// The step after a login created its remote, given the outcome of rclone's
/// `operations/stat` on the remote's root.
pub fn login_step(server: &ServerType, stat: &Result<(), RcloneError>) -> (step: LoginStep)
    ensures
        match step {
            LoginStep::LoggedIn(name) => stat is Ok && name@ == server_name_of(*server),
            LoginStep::Retry { delete, failure } => {
                &&& stat matches Err(e) && failure == login_failure_of(e.error@)
                &&& delete.method@ == "config/delete"@
                &&& delete.input@ == json_object(seq![("name"@, json_string(server_name_of(*server)))])
            },
        },
{
    let name = server.server_name();
    match can_login(stat) {
        Ok(()) => LoginStep::LoggedIn(name),
        Err(failure) => LoginStep::Retry { delete: delete_config(name.as_str()), failure },
    }
}


/// A login sends what the user entered verbatim: every setting is the JSON
/// string of the field exactly as given, under the setting's name, with the
/// remote's name and type beside them, and the options that ask rclone to
/// obscure stored passwords for every type but Dropbox and Google Drive.
pub proof fn lemma_login_sends_settings_verbatim(s: ServerType)
    ensures
        ({
            let obscure = json_object(seq![("obscure"@, json_bool(true))]);
            let oauth = |id: Seq<char>, secret: Seq<char>, token: Seq<char>|
                json_object(
                    seq![
                        ("client_id"@, json_string(id)),
                        ("client_secret"@, json_string(secret)),
                        ("config_refresh_token"@, json_bool(false)),
                        ("token"@, json_string(token)),
                    ],
                );
            let webdav = |url: Seq<char>, vendor: Seq<char>, user: Seq<char>, pass: Seq<char>|
                json_object(
                    seq![
                        ("pass"@, json_string(pass)),
                        ("url"@, json_string(url)),
                        ("user"@, json_string(user)),
                        ("vendor"@, json_string(vendor)),
                    ],
                );
            match s {
                ServerType::Dropbox(c) => create_config_input(s) == json_object(
                    seq![
                        ("name"@, json_string(c.server_name@)),
                        ("parameters"@, oauth(c.client_id@, c.client_secret@, c.auth_json@)),
                        ("type"@, json_string("dropbox"@)),
                    ],
                ),
                ServerType::GDrive(c) => create_config_input(s) == json_object(
                    seq![
                        ("name"@, json_string(c.server_name@)),
                        ("parameters"@, oauth(c.client_id@, c.client_secret@, c.auth_json@)),
                        ("type"@, json_string("drive"@)),
                    ],
                ),
                ServerType::PCloud(c) => create_config_input(s) == json_object(
                    seq![
                        ("name"@, json_string(c.server_name@)),
                        ("opt"@, obscure),
                        ("parameters"@, oauth(c.client_id@, c.client_secret@, c.auth_json@)),
                        ("type"@, json_string("pcloud"@)),
                    ],
                ),
                ServerType::Nextcloud(c) => create_config_input(s) == json_object(
                    seq![
                        ("name"@, json_string(c.server_name@)),
                        ("opt"@, obscure),
                        (
                            "parameters"@,
                            webdav(c.server_url@, "nextcloud"@, c.username@, c.password@),
                        ),
                        ("type"@, json_string("webdav"@)),
                    ],
                ),
                ServerType::Owncloud(c) => create_config_input(s) == json_object(
                    seq![
                        ("name"@, json_string(c.server_name@)),
                        ("opt"@, obscure),
                        (
                            "parameters"@,
                            webdav(c.server_url@, "owncloud"@, c.username@, c.password@),
                        ),
                        ("type"@, json_string("webdav"@)),
                    ],
                ),
                ServerType::WebDav(c) => create_config_input(s) == json_object(
                    seq![
                        ("name"@, json_string(c.server_name@)),
                        ("opt"@, obscure),
                        ("parameters"@, webdav(c.server_url@, "webdav"@, c.username@, c.password@)),
                        ("type"@, json_string("webdav"@)),
                    ],
                ),
                ServerType::ProtonDrive(c) => create_config_input(s) == json_object(
                    seq![
                        ("name"@, json_string(c.server_name@)),
                        ("opt"@, obscure),
                        (
                            "parameters"@,
                            json_object(
                                seq![
                                    ("2fa"@, json_string(c.totp@)),
                                    ("password"@, json_string(c.password@)),
                                    ("username"@, json_string(c.username@)),
                                ],
                            ),
                        ),
                        ("type"@, json_string("protondrive"@)),
                    ],
                ),
            }
        }),
{
}

} // verus!
