//! The remotes that rclone's configuration holds, and the replies of rclone
//! that describe them.

use vstd::prelude::*;
use crate::json::{
    field_views, json_object, json_object_text, json_string, json_string_text, keys_distinct, list_pairs_map, pairs_map, parse_string_lists, parse_string_map,
    string_lists_json, string_map_json,
};
use crate::text::{str_eq, string_views};

pub mod sync;

verus! {

/// The value of `key` in a remote's configuration, or the empty text where
/// the configuration has no such key.
pub open spec fn config_value(m: Map<Seq<char>, Seq<char>>, key: Seq<char>) -> Seq<char> {
    if m.contains_key(key) {
        m[key]
    } else {
        seq![]
    }
}

proof fn lemma_pairs_map_at(ps: Seq<(String, String)>, i: int)
    requires
        keys_distinct(ps),
        0 <= i < ps.len(),
    ensures
        pairs_map(ps).contains_key(ps[i].0@),
        pairs_map(ps)[ps[i].0@] == ps[i].1@,
    decreases ps.len(),
{
    if i < ps.len() - 1 {
        lemma_pairs_map_at(ps.drop_last(), i);
        assert(ps.drop_last()[i] == ps[i]);
    }
}

proof fn lemma_pairs_map_missing(ps: Seq<(String, String)>, k: Seq<char>)
    requires
        forall|i: int| 0 <= i < ps.len() ==> #[trigger] ps[i].0@ != k,
    ensures
        !pairs_map(ps).contains_key(k),
    decreases ps.len(),
{
    if ps.len() > 0 {
        assert(ps.last() == ps[ps.len() - 1]);
        lemma_pairs_map_missing(ps.drop_last(), k);
    }
}

proof fn lemma_list_pairs_map_at(ps: Seq<(String, Vec<String>)>, i: int)
    requires
        keys_distinct(ps),
        0 <= i < ps.len(),
    ensures
        list_pairs_map(ps).contains_key(ps[i].0@),
        list_pairs_map(ps)[ps[i].0@] == string_views(ps[i].1@),
    decreases ps.len(),
{
    if i < ps.len() - 1 {
        lemma_list_pairs_map_at(ps.drop_last(), i);
        assert(ps.drop_last()[i] == ps[i]);
    }
}

proof fn lemma_list_pairs_map_missing(ps: Seq<(String, Vec<String>)>, k: Seq<char>)
    requires
        forall|i: int| 0 <= i < ps.len() ==> #[trigger] ps[i].0@ != k,
    ensures
        !list_pairs_map(ps).contains_key(k),
    decreases ps.len(),
{
    if ps.len() > 0 {
        assert(ps.last() == ps[ps.len() - 1]);
        lemma_list_pairs_map_missing(ps.drop_last(), k);
    }
}

/// The configuration of one remote, as rclone's `config/get` reports it: a
/// map from option names to values.
pub struct RemoteConfig {
    entries: Vec<(String, String)>,
}

impl View for RemoteConfig {
    type V = Map<Seq<char>, Seq<char>>;

    closed spec fn view(&self) -> Map<Seq<char>, Seq<char>> {
        pairs_map(self.entries@)
    }
}

impl RemoteConfig {
    #[verifier::type_invariant]
    spec fn keys_unique(self) -> bool {
        keys_distinct(self.entries@)
    }

    /// The value of an option, where the configuration sets it.
    pub fn get(&self, key: &str) -> (value: Option<String>)
        ensures
            value matches Some(v) ==> self@.contains_key(key@) && v@ == self@[key@],
            value is None ==> !self@.contains_key(key@),
    {
        proof {
            use_type_invariant(self);
        }
        let mut i: usize = 0;
        while i < self.entries.len()
            invariant
                keys_distinct(self.entries@),
                i <= self.entries@.len(),
                forall|k: int| 0 <= k < i ==> #[trigger] self.entries@[k].0@ != key@,
            decreases self.entries@.len() - i,
        {
            if str_eq(self.entries[i].0.as_str(), key) {
                proof {
                    lemma_pairs_map_at(self.entries@, i as int);
                }
                return Some(self.entries[i].1.clone());
            }
            i = i + 1;
        }
        proof {
            lemma_pairs_map_missing(self.entries@, key@);
        }
        None
    }

    /// All options of the configuration with their values, each option once;
    /// the order of the pairs is unspecified.
    pub fn entries(&self) -> (pairs: Vec<(String, String)>)
        ensures
            pairs_map(pairs@) == self@,
            keys_distinct(pairs@),
    {
        proof {
            use_type_invariant(self);
        }
        let mut pairs: Vec<(String, String)> = Vec::new();
        let mut i: usize = 0;
        while i < self.entries.len()
            invariant
                i <= self.entries@.len(),
                pairs@ == self.entries@.take(i as int),
            decreases self.entries@.len() - i,
        {
            let pair = (self.entries[i].0.clone(), self.entries[i].1.clone());
            pairs.push(pair);
            assert(self.entries@.take(i + 1) =~= self.entries@.take(i as int).push(self.entries@[i as int]));
            i = i + 1;
        }
        assert(self.entries@.take(self.entries@.len() as int) =~= self.entries@);
        pairs
    }

    /// The value of an option, or the empty text where the configuration does
    /// not set it.
    pub fn get_or_empty(&self, key: &str) -> (value: String)
        ensures
            value@ == config_value(self@, key@),
    {
        match self.get(key) {
            Some(v) => v,
            None => String::new(),
        }
    }
}

/// The `config/get` request for the configuration of a remote.
pub fn remote_config_request(remote: &str) -> (r: RcloneRequest)
    ensures
        r.method@ == "config/get"@,
        r.input@ == json_object(seq![("name"@, json_string(remote@))]),
{
    let fields = vec![("name", json_string_text(remote))];
    assert(field_views(fields@) =~= seq![("name"@, json_string(remote@))]);
    RcloneRequest { method: "config/get".to_owned(), input: json_object_text(&fields) }
}

/// The `config/listremotes` request for the names of all remotes.
pub fn remote_names_request() -> (r: RcloneRequest)
    ensures
        r.method@ == "config/listremotes"@,
        r.input@ == json_object(Seq::empty()),
{
    let fields: Vec<(&str, String)> = Vec::new();
    assert(field_views(fields@) =~= Seq::empty());
    RcloneRequest { method: "config/listremotes".to_owned(), input: json_object_text(&fields) }
}

/// The configuration that a reply of rclone's `config/get` describes: none
/// where the call failed, where the reply is not a JSON object of strings, or
/// where it is `null`.
pub open spec fn remote_config_of(reply: Result<String, String>) -> Option<
    Map<Seq<char>, Seq<char>>,
> {
    match reply {
        Err(_) => None,
        Ok(text) => match string_map_json(text@) {
            Some(Some(m)) => Some(m),
            _ => None,
        },
    }
}

/// Reads a remote's configuration from the reply of rclone's `config/get`
/// (the text it returned, or the error it failed with).
pub fn get_remote_config(reply: &Result<String, String>) -> (config: Option<RemoteConfig>)
    ensures
        config matches Some(c) ==> remote_config_of(*reply) == Some(c@),
        config is None ==> remote_config_of(*reply) is None,
{
    match reply {
        Err(_) => None,
        Ok(text) => match parse_string_map(text.as_str()) {
            Some(Some(entries)) => Some(RemoteConfig { entries }),
            _ => None,
        },
    }
}

fn clone_strings(v: &Vec<String>) -> (r: Vec<String>)
    ensures
        string_views(r@) == string_views(v@),
{
    let mut r: Vec<String> = Vec::new();
    let mut i: usize = 0;
    while i < v.len()
        invariant
            i <= v@.len(),
            string_views(r@) == string_views(v@.take(i as int)),
        decreases v@.len() - i,
    {
        let ghost before = r@;
        r.push(v[i].clone());
        assert(v@.take(i + 1) =~= v@.take(i as int).push(v@[i as int]));
        assert(string_views(r@) =~= string_views(before).push(v@[i as int]@));
        assert(string_views(r@) =~= string_views(v@.take(i + 1)));
        i = i + 1;
    }
    assert(v@.take(v@.len() as int) =~= v@);
    r
}

/// The names of the remotes that a reply of rclone's `config/listremotes`
/// lists: the list under `remotes`, where the reply is an object of string
/// lists that has that key.
pub open spec fn remote_names_of(text: Seq<char>) -> Option<Seq<Seq<char>>> {
    match string_lists_json(text) {
        Some(m) => if m.contains_key("remotes"@) {
            Some(m["remotes"@])
        } else {
            None
        },
        None => None,
    }
}

/// Reads the names of all remotes from the text that rclone's
/// `config/listremotes` returned; `None` where the text does not list them.
pub fn get_remote_names(reply: &str) -> (names: Option<Vec<String>>)
    ensures
        names matches Some(v) ==> remote_names_of(reply@) == Some(string_views(v@)),
        names is None ==> remote_names_of(reply@) is None,
{
    match parse_string_lists(reply) {
        None => None,
        Some(lists) => {
            let mut i: usize = 0;
            while i < lists.len()
                invariant
                    keys_distinct(lists@),
                    string_lists_json(reply@) == Some(list_pairs_map(lists@)),
                    i <= lists@.len(),
                    forall|k: int| 0 <= k < i ==> #[trigger] lists@[k].0@ != "remotes"@,
                decreases lists@.len() - i,
            {
                if str_eq(lists[i].0.as_str(), "remotes") {
                    proof {
                        lemma_list_pairs_map_at(lists@, i as int);
                    }
                    let found = clone_strings(&lists[i].1);
                    return Some(found);
                }
                i = i + 1;
            }
            proof {
                lemma_list_pairs_map_missing(lists@, "remotes"@);
            }
            None
        },
    }
}


/// The WebDAV servers that a WebDAV remote can be.
#[derive(Clone, Copy, Debug, PartialEq, Eq, Structural)]
pub enum WebDavVendors {
    Nextcloud,
    Owncloud,
    GDrive,
    PCloud,
    WebDav,
}

/// The name under which a WebDAV vendor is shown.
pub open spec fn vendor_name(v: WebDavVendors) -> Seq<char> {
    match v {
        WebDavVendors::Nextcloud => "Nextcloud"@,
        WebDavVendors::Owncloud => "Owncloud"@,
        WebDavVendors::GDrive => "Google Drive"@,
        WebDavVendors::PCloud => "pCloud"@,
        WebDavVendors::WebDav => "WebDav"@,
    }
}

impl WebDavVendors {
    /// The name under which the vendor is shown.
    pub fn to_string(&self) -> (name: String)
        ensures
            name@ == vendor_name(*self),
    {
        match self {
            WebDavVendors::Nextcloud => "Nextcloud".to_owned(),
            WebDavVendors::Owncloud => "Owncloud".to_owned(),
            WebDavVendors::GDrive => "Google Drive".to_owned(),
            WebDavVendors::PCloud => "pCloud".to_owned(),
            WebDavVendors::WebDav => "WebDav".to_owned(),
        }
    }
}

/// The Dropbox remote type.
#[derive(Clone, Debug)]
pub struct DropboxRemote {
    /// The name of the remote.
    pub remote_name: String,
    /// The client id.
    pub client_id: String,
    /// The client secret.
    pub client_secret: String,
}

/// The Google Drive remote type.
#[derive(Clone, Debug)]
pub struct GDriveRemote {
    /// The name of the remote.
    pub remote_name: String,
    /// The client id.
    pub client_id: String,
    /// The client secret.
    pub client_secret: String,
}

/// The pCloud remote type.
#[derive(Clone, Debug)]
pub struct PCloudRemote {
    /// The name of the remote.
    pub remote_name: String,
    /// The client id.
    pub client_id: String,
    /// The client secret.
    pub client_secret: String,
}

/// The Proton Drive remote type.
#[derive(Clone, Debug)]
pub struct ProtonDriveRemote {
    /// The name of the remote.
    pub remote_name: String,
    /// The username.
    pub username: String,
}

/// The WebDAV remote type.
#[derive(Clone, Debug)]
pub struct WebDavRemote {
    /// The name of the remote.
    pub remote_name: String,
    /// The username for the remote.
    pub user: String,
    /// The password for the remote.
    pub pass: String,
    /// The URL for the remote.
    pub url: String,
    /// The vendor of the remote.
    pub vendor: WebDavVendors,
}

/// The types of remotes in the config.
#[derive(Clone)]
pub enum Remote {
    Dropbox(DropboxRemote),
    GDrive(GDriveRemote),
    PCloud(PCloudRemote),
    ProtonDrive(ProtonDriveRemote),
    WebDav(WebDavRemote),
}

/// A remote, its texts taken as character sequences.
pub enum RemoteView {
    Dropbox { remote_name: Seq<char>, client_id: Seq<char>, client_secret: Seq<char> },
    GDrive { remote_name: Seq<char>, client_id: Seq<char>, client_secret: Seq<char> },
    PCloud { remote_name: Seq<char>, client_id: Seq<char>, client_secret: Seq<char> },
    ProtonDrive { remote_name: Seq<char>, username: Seq<char> },
    WebDav {
        remote_name: Seq<char>,
        user: Seq<char>,
        pass: Seq<char>,
        url: Seq<char>,
        vendor: WebDavVendors,
    },
}

impl RemoteView {
    /// The name of the remote.
    pub open spec fn name(self) -> Seq<char> {
        match self {
            RemoteView::Dropbox { remote_name, .. } => remote_name,
            RemoteView::GDrive { remote_name, .. } => remote_name,
            RemoteView::PCloud { remote_name, .. } => remote_name,
            RemoteView::ProtonDrive { remote_name, .. } => remote_name,
            RemoteView::WebDav { remote_name, .. } => remote_name,
        }
    }
}

impl View for Remote {
    type V = RemoteView;

    open spec fn view(&self) -> RemoteView {
        match self {
            Remote::Dropbox(r) => RemoteView::Dropbox {
                remote_name: r.remote_name@,
                client_id: r.client_id@,
                client_secret: r.client_secret@,
            },
            Remote::GDrive(r) => RemoteView::GDrive {
                remote_name: r.remote_name@,
                client_id: r.client_id@,
                client_secret: r.client_secret@,
            },
            Remote::PCloud(r) => RemoteView::PCloud {
                remote_name: r.remote_name@,
                client_id: r.client_id@,
                client_secret: r.client_secret@,
            },
            Remote::ProtonDrive(r) => RemoteView::ProtonDrive {
                remote_name: r.remote_name@,
                username: r.username@,
            },
            Remote::WebDav(r) => RemoteView::WebDav {
                remote_name: r.remote_name@,
                user: r.user@,
                pass: r.pass@,
                url: r.url@,
                vendor: r.vendor,
            },
        }
    }
}

impl Remote {
    /// The name of the remote.
    pub fn remote_name(&self) -> (name: String)
        ensures
            name@ == self@.name(),
    {
        match self {
            Remote::Dropbox(remote) => remote.remote_name.clone(),
            Remote::GDrive(remote) => remote.remote_name.clone(),
            Remote::PCloud(remote) => remote.remote_name.clone(),
            Remote::ProtonDrive(remote) => remote.remote_name.clone(),
            Remote::WebDav(remote) => remote.remote_name.clone(),
        }
    }
}

/// The vendor that a WebDAV remote's configuration names under `vendor`:
/// `nextcloud`, `owncloud` or `webdav`; none for any other value.
pub open spec fn webdav_vendor_of(m: Map<Seq<char>, Seq<char>>) -> Option<WebDavVendors> {
    if !m.contains_key("vendor"@) {
        None
    } else if m["vendor"@] == "nextcloud"@ {
        Some(WebDavVendors::Nextcloud)
    } else if m["vendor"@] == "owncloud"@ {
        Some(WebDavVendors::Owncloud)
    } else if m["vendor"@] == "webdav"@ {
        Some(WebDavVendors::WebDav)
    } else {
        None
    }
}

/// The remote named `name` whose configuration is `m`, by the configuration's
/// `type`: `dropbox`, `drive`, `pcloud`, `protondrive`, or `webdav` with a
/// known vendor; none for any other configuration. Options that the
/// configuration does not set are empty.
pub open spec fn remote_from_config(name: Seq<char>, m: Map<Seq<char>, Seq<char>>) -> Option<
    RemoteView,
> {
    if !m.contains_key("type"@) {
        None
    } else if m["type"@] == "dropbox"@ {
        Some(
            RemoteView::Dropbox {
                remote_name: name,
                client_id: config_value(m, "client_id"@),
                client_secret: config_value(m, "client_secret"@),
            },
        )
    } else if m["type"@] == "drive"@ {
        Some(
            RemoteView::GDrive {
                remote_name: name,
                client_id: config_value(m, "client_id"@),
                client_secret: config_value(m, "client_secret"@),
            },
        )
    } else if m["type"@] == "pcloud"@ {
        Some(
            RemoteView::PCloud {
                remote_name: name,
                client_id: config_value(m, "client_id"@),
                client_secret: config_value(m, "client_secret"@),
            },
        )
    } else if m["type"@] == "protondrive"@ {
        Some(
            RemoteView::ProtonDrive { remote_name: name, username: config_value(m, "username"@) },
        )
    } else if m["type"@] == "webdav"@ {
        match webdav_vendor_of(m) {
            Some(vendor) => Some(
                RemoteView::WebDav {
                    remote_name: name,
                    user: config_value(m, "user"@),
                    pass: config_value(m, "pass"@),
                    url: config_value(m, "url"@),
                    vendor,
                },
            ),
            None => None,
        }
    } else {
        None
    }
}

/// The remote named `name` that rclone's reply to `config/get` describes.
pub open spec fn remote_of_reply(name: Seq<char>, reply: Result<String, String>) -> Option<
    RemoteView,
> {
    match remote_config_of(reply) {
        Some(m) => remote_from_config(name, m),
        None => None,
    }
}

/// The view of an optional remote.
pub open spec fn remote_option_view(r: Option<Remote>) -> Option<RemoteView> {
    match r {
        Some(x) => Some(x@),
        None => None,
    }
}

fn webdav_vendor(config: &RemoteConfig) -> (vendor: Option<WebDavVendors>)
    ensures
        vendor == webdav_vendor_of(config@),
{
    match config.get("vendor") {
        None => None,
        Some(v) => {
            if str_eq(v.as_str(), "nextcloud") {
                Some(WebDavVendors::Nextcloud)
            } else if str_eq(v.as_str(), "owncloud") {
                Some(WebDavVendors::Owncloud)
            } else if str_eq(v.as_str(), "webdav") {
                Some(WebDavVendors::WebDav)
            } else {
                None
            }
        },
    }
}

fn remote_of_config(remote: &str, config: &RemoteConfig) -> (r: Option<Remote>)
    ensures
        remote_option_view(r) == remote_from_config(remote@, config@),
{
    let ty = match config.get("type") {
        Some(t) => t,
        None => {
            return None;
        },
    };
    if str_eq(ty.as_str(), "dropbox") {
        Some(
            Remote::Dropbox(
                DropboxRemote {
                    remote_name: remote.to_owned(),
                    client_id: config.get_or_empty("client_id"),
                    client_secret: config.get_or_empty("client_secret"),
                },
            ),
        )
    } else if str_eq(ty.as_str(), "drive") {
        Some(
            Remote::GDrive(
                GDriveRemote {
                    remote_name: remote.to_owned(),
                    client_id: config.get_or_empty("client_id"),
                    client_secret: config.get_or_empty("client_secret"),
                },
            ),
        )
    } else if str_eq(ty.as_str(), "pcloud") {
        Some(
            Remote::PCloud(
                PCloudRemote {
                    remote_name: remote.to_owned(),
                    client_id: config.get_or_empty("client_id"),
                    client_secret: config.get_or_empty("client_secret"),
                },
            ),
        )
    } else if str_eq(ty.as_str(), "protondrive") {
        Some(
            Remote::ProtonDrive(
                ProtonDriveRemote {
                    remote_name: remote.to_owned(),
                    username: config.get_or_empty("username"),
                },
            ),
        )
    } else if str_eq(ty.as_str(), "webdav") {
        let vendor = match webdav_vendor(config) {
            Some(v) => v,
            None => {
                return None;
            },
        };
        Some(
            Remote::WebDav(
                WebDavRemote {
                    remote_name: remote.to_owned(),
                    user: config.get_or_empty("user"),
                    pass: config.get_or_empty("pass"),
                    url: config.get_or_empty("url"),
                    vendor,
                },
            ),
        )
    } else {
        None
    }
}

/// Gets the remote named `remote` from rclone's reply to `config/get` for it
/// (the text it returned, or the error it failed with).
pub fn get_remote(remote: &str, reply: &Result<String, String>) -> (r: Option<Remote>)
    ensures
        remote_option_view(r) == remote_of_reply(remote@, *reply),
{
    match get_remote_config(reply) {
        Some(config) => remote_of_config(remote, &config),
        None => None,
    }
}

/// The remotes, in order, that the replies of `config/get` for the given
/// remote names describe; names whose reply describes none are skipped.
pub open spec fn remotes_of_replies(entries: Seq<(String, Result<String, String>)>) -> Seq<
    RemoteView,
>
    decreases entries.len(),
{
    if entries.len() == 0 {
        seq![]
    } else {
        let earlier = remotes_of_replies(entries.drop_last());
        match remote_of_reply(entries.last().0@, entries.last().1) {
            Some(r) => earlier.push(r),
            None => earlier,
        }
    }
}

/// The views of a sequence of remotes.
pub open spec fn remote_views(rs: Seq<Remote>) -> Seq<RemoteView> {
    rs.map_values(|r: Remote| r@)
}

/// The remotes that a list of replies describes are those of each reply in
/// turn: one reply gives its remote or none, and the replies of two lists give
/// the remotes of the first followed by those of the second.
pub proof fn lemma_remotes_of_replies(
    first: Seq<(String, Result<String, String>)>,
    second: Seq<(String, Result<String, String>)>,
    entry: (String, Result<String, String>),
)
    ensures
        remotes_of_replies(first + second) == remotes_of_replies(first) + remotes_of_replies(second),
        remotes_of_replies(seq![entry]) == match remote_of_reply(entry.0@, entry.1) {
            Some(r) => seq![r],
            None => Seq::<RemoteView>::empty(),
        },
    decreases second.len(),
{
    let one = seq![entry];
    assert(one.drop_last() =~= Seq::<(String, Result<String, String>)>::empty());
    assert(remotes_of_replies(one.drop_last()) =~= Seq::<RemoteView>::empty());
    assert(Seq::<RemoteView>::empty().push(remote_of_reply(entry.0@, entry.1)->0) =~= seq![
        remote_of_reply(entry.0@, entry.1)->0,
    ]);
    if second.len() == 0 {
        assert(first + second =~= first);
        assert(remotes_of_replies(first) + Seq::<RemoteView>::empty() =~= remotes_of_replies(first));
    } else {
        lemma_remotes_of_replies(first, second.drop_last(), entry);
        assert((first + second).drop_last() =~= first + second.drop_last());
        assert((first + second).last() == second.last());
        let e = second.last();
        match remote_of_reply(e.0@, e.1) {
            Some(r) => {
                assert(remotes_of_replies(first) + remotes_of_replies(second.drop_last()).push(r)
                    =~= (remotes_of_replies(first) + remotes_of_replies(second.drop_last())).push(r));
            },
            None => {},
        }
    }
}

/// Gets all the supported remotes, given each remote's name with rclone's
/// reply to `config/get` for it.
pub fn get_remotes(entries: &Vec<(String, Result<String, String>)>) -> (remotes: Vec<Remote>)
    ensures
        remote_views(remotes@) == remotes_of_replies(entries@),
{
    let mut remotes: Vec<Remote> = Vec::new();
    let mut i: usize = 0;
    while i < entries.len()
        invariant
            i <= entries@.len(),
            remote_views(remotes@) == remotes_of_replies(entries@.take(i as int)),
        decreases entries@.len() - i,
    {
        assert(entries@.take(i + 1).drop_last() =~= entries@.take(i as int));
        assert(entries@.take(i + 1).last() == entries@[i as int]);
        let ghost before = remotes@;
        match get_remote(entries[i].0.as_str(), &entries[i].1) {
            Some(remote) => {
                remotes.push(remote);
                assert(remote_views(remotes@) =~= remote_views(before).push(remote@));
            },
            None => {},
        }
        i = i + 1;
    }
    assert(entries@.take(entries@.len() as int) =~= entries@);
    remotes
}


/// A call of rclone's RPC interface: the method and its JSON input.
#[derive(Clone, Debug)]
pub struct RcloneRequest {
    /// The method, such as `operations/mkdir`.
    pub method: String,
    /// The JSON text of the input.
    pub input: String,
}

/// Error returned from Rclone.
#[derive(Clone, Debug)]
pub struct RcloneError {
    pub error: String,
}

/// The types of items to show in an `operations/list` command.
#[derive(Clone, Copy, Debug, PartialEq, Eq, Structural)]
pub enum RcloneListFilter {
    /// Return all items.
    All,
    /// Only return directories.
    Dirs,
    /// Only return files.
    Files,
}

/// Whether `get_remote` finds a remote under the name asked for: every remote
/// it gives carries that name.
pub proof fn lemma_remote_keeps_name(name: Seq<char>, reply: Result<String, String>)
    ensures
        remote_of_reply(name, reply) matches Some(r) ==> r.name() == name,
{
}


/// What `get_remote` reads from a `config/get` reply whose configuration is
/// `m`: the remote carries the name asked for; Dropbox, Google Drive and
/// pCloud remotes take their client id and secret from the `client_id` and
/// `client_secret` settings, a Proton Drive remote its username from
/// `username`, and a WebDAV remote its user, password and URL from `user`,
/// `pass` and `url` and its vendor from `vendor` (each setting empty where
/// the configuration lacks it); any other type, an unknown WebDAV vendor, or
/// a configuration without a type gives no remote.
pub proof fn lemma_remote_settings(
    name: Seq<char>,
    reply: Result<String, String>,
    m: Map<Seq<char>, Seq<char>>,
)
    requires
        remote_config_of(reply) == Some(m),
    ensures
        ({
            let setting = |k: Seq<char>|
                if m.contains_key(k) {
                    m[k]
                } else {
                    Seq::<char>::empty()
                };
            let has_type = |t: Seq<char>| m.contains_key("type"@) && m["type"@] == t;
            let has_vendor = |v: Seq<char>| m.contains_key("vendor"@) && m["vendor"@] == v;
            &&& has_type("dropbox"@) ==> remote_of_reply(name, reply) == Some(
                RemoteView::Dropbox {
                    remote_name: name,
                    client_id: setting("client_id"@),
                    client_secret: setting("client_secret"@),
                },
            )
            &&& has_type("drive"@) ==> remote_of_reply(name, reply) == Some(
                RemoteView::GDrive {
                    remote_name: name,
                    client_id: setting("client_id"@),
                    client_secret: setting("client_secret"@),
                },
            )
            &&& has_type("pcloud"@) ==> remote_of_reply(name, reply) == Some(
                RemoteView::PCloud {
                    remote_name: name,
                    client_id: setting("client_id"@),
                    client_secret: setting("client_secret"@),
                },
            )
            &&& has_type("protondrive"@) ==> remote_of_reply(name, reply) == Some(
                RemoteView::ProtonDrive { remote_name: name, username: setting("username"@) },
            )
            &&& has_type("webdav"@) && has_vendor("nextcloud"@) ==> remote_of_reply(name, reply)
                == Some(
                RemoteView::WebDav {
                    remote_name: name,
                    user: setting("user"@),
                    pass: setting("pass"@),
                    url: setting("url"@),
                    vendor: WebDavVendors::Nextcloud,
                },
            )
            &&& has_type("webdav"@) && has_vendor("owncloud"@) ==> remote_of_reply(name, reply)
                == Some(
                RemoteView::WebDav {
                    remote_name: name,
                    user: setting("user"@),
                    pass: setting("pass"@),
                    url: setting("url"@),
                    vendor: WebDavVendors::Owncloud,
                },
            )
            &&& has_type("webdav"@) && has_vendor("webdav"@) ==> remote_of_reply(name, reply)
                == Some(
                RemoteView::WebDav {
                    remote_name: name,
                    user: setting("user"@),
                    pass: setting("pass"@),
                    url: setting("url"@),
                    vendor: WebDavVendors::WebDav,
                },
            )
            &&& has_type("webdav"@) && !has_vendor("nextcloud"@) && !has_vendor("owncloud"@)
                && !has_vendor("webdav"@) ==> remote_of_reply(name, reply) is None
            &&& !has_type("dropbox"@) && !has_type("drive"@) && !has_type("pcloud"@) && !has_type(
                "protondrive"@,
            ) && !has_type("webdav"@) ==> remote_of_reply(name, reply) is None
        }),
{
    reveal_strlit("dropbox");
    reveal_strlit("drive");
    reveal_strlit("pcloud");
    reveal_strlit("protondrive");
    reveal_strlit("webdav");
    reveal_strlit("nextcloud");
    reveal_strlit("owncloud");
    assert("dropbox"@.len() == 7 && "drive"@.len() == 5 && "pcloud"@.len() == 6);
    assert("protondrive"@.len() == 11 && "webdav"@.len() == 6);
    assert("pcloud"@[0] != "webdav"@[0]);
    assert("nextcloud"@.len() == 9 && "owncloud"@.len() == 8);
}

/// Dropbox, Google Drive and pCloud remotes read the same settings: for one
/// configuration, whichever of the three types it names, the remote has the
/// same client id and client secret; and the client secret does not change
/// with the `client_id` setting.
pub proof fn lemma_oauth_settings_shared(
    name: Seq<char>,
    m: Map<Seq<char>, Seq<char>>,
    other_id: Seq<char>,
)
    ensures
        ({
            let as_type = |t: Seq<char>| remote_from_config(name, m.insert("type"@, t));
            let id_of = |r: Option<RemoteView>|
                match r {
                    Some(RemoteView::Dropbox { client_id, .. }) => client_id,
                    Some(RemoteView::GDrive { client_id, .. }) => client_id,
                    Some(RemoteView::PCloud { client_id, .. }) => client_id,
                    _ => Seq::<char>::empty(),
                };
            let secret_of = |r: Option<RemoteView>|
                match r {
                    Some(RemoteView::Dropbox { client_secret, .. }) => client_secret,
                    Some(RemoteView::GDrive { client_secret, .. }) => client_secret,
                    Some(RemoteView::PCloud { client_secret, .. }) => client_secret,
                    _ => Seq::<char>::empty(),
                };
            &&& id_of(as_type("drive"@)) == id_of(as_type("dropbox"@))
            &&& id_of(as_type("pcloud"@)) == id_of(as_type("dropbox"@))
            &&& secret_of(as_type("drive"@)) == secret_of(as_type("dropbox"@))
            &&& secret_of(as_type("pcloud"@)) == secret_of(as_type("dropbox"@))
            &&& secret_of(as_type("drive"@)) == secret_of(
                remote_from_config(name, m.insert("client_id"@, other_id).insert("type"@, "drive"@)),
            )
        }),
{
    reveal_strlit("dropbox");
    reveal_strlit("drive");
    reveal_strlit("pcloud");
    reveal_strlit("type");
    reveal_strlit("client_id");
    reveal_strlit("client_secret");
    assert("type"@.len() == 4 && "client_id"@.len() == 9 && "client_secret"@.len() == 13);
    let md = m.insert("type"@, "dropbox"@);
    let mg = m.insert("type"@, "drive"@);
    let mp = m.insert("type"@, "pcloud"@);
    let mo = m.insert("client_id"@, other_id).insert("type"@, "drive"@);
    assert(md["type"@] == "dropbox"@);
    assert(mg["type"@] == "drive"@);
    assert(mp["type"@] == "pcloud"@);
    assert(mo["type"@] == "drive"@);
    assert(config_value(mg, "client_id"@) == config_value(md, "client_id"@));
    assert(config_value(mp, "client_id"@) == config_value(md, "client_id"@));
    assert(config_value(mg, "client_secret"@) == config_value(md, "client_secret"@));
    assert(config_value(mp, "client_secret"@) == config_value(md, "client_secret"@));
    assert(config_value(mo, "client_secret"@) == config_value(mg, "client_secret"@));
}

} // verus!
