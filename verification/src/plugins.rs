//! The built-in plugins: the BililiveRecorder connector (its settings,
//! request routing and authentication headers) and the SMB storage
//! provider (its requests, mount commands and the registry of mounts).

use vstd::prelude::*;
use crate::encoding::{base64, base64_encode, percent_encode, url_encode, utf8};
use crate::manifest::{host_os_named, opt_view, HostOs, PluginError};
use crate::text::{chars_of, is_ws, push_str, str_eq, string_of};

verus! {

/// Connection settings of the recorder's HTTP API.
pub struct BilibiliRecorderConfig {
    pub api_url: String,
    pub api_key: String,
    pub basic_user: String,
    pub basic_pass: String,
}

pub open spec fn default_recorder_url() -> Seq<char> {
    "http://127.0.0.1:2007"@
}

impl Default for BilibiliRecorderConfig {
    fn default() -> (r: Self)
        ensures
            r.api_url@ == Seq::<char>::empty(),
            r.api_key@ == Seq::<char>::empty(),
            r.basic_user@ == Seq::<char>::empty(),
            r.basic_pass@ == Seq::<char>::empty(),
    {
        BilibiliRecorderConfig {
            api_url: String::new(),
            api_key: String::new(),
            basic_user: String::new(),
            basic_pass: String::new(),
        }
    }
}

impl BilibiliRecorderConfig {
    /// The settings a new connector starts with: the recorder's default
    /// local address, no credentials.
    pub fn initial() -> (r: Self)
        ensures
            r.api_url@ == default_recorder_url(),
            r.api_key@ == Seq::<char>::empty(),
            r.basic_user@ == Seq::<char>::empty(),
            r.basic_pass@ == Seq::<char>::empty(),
    {
        BilibiliRecorderConfig {
            api_url: "http://127.0.0.1:2007".to_owned(),
            api_key: String::new(),
            basic_user: String::new(),
            basic_pass: String::new(),
        }
    }
}

/// What `get_config` reports: the address and whether credentials are
/// set, never the secrets themselves.
pub struct PublicRecorderConfig {
    pub api_url: String,
    pub has_api_key: bool,
    pub has_basic_auth: bool,
}

/// A setting after an update that may or may not carry a new value.
pub open spec fn updated(current: Seq<char>, new: Option<Seq<char>>) -> Seq<char> {
    match new {
        Some(n) => n,
        None => current,
    }
}

impl BilibiliRecorderConfig {
    /// The `get_config` reply for these settings.
    pub fn public_view(&self) -> (r: PublicRecorderConfig)
        ensures
            r.api_url@ == self.api_url@,
            r.has_api_key == (self.api_key@.len() > 0),
            r.has_basic_auth == (self.basic_user@.len() > 0),
    {
        PublicRecorderConfig {
            api_url: self.api_url.clone(),
            has_api_key: !self.api_key.as_str().is_empty(),
            has_basic_auth: !self.basic_user.as_str().is_empty(),
        }
    }

    /// `set_config`: each setting given as a string replaces the stored
    /// one; the others stay.
    pub fn apply_update(
        &mut self,
        api_url: Option<String>,
        api_key: Option<String>,
        basic_user: Option<String>,
        basic_pass: Option<String>,
    )
        ensures
            final(self).api_url@ == updated(old(self).api_url@, opt_view(api_url)),
            final(self).api_key@ == updated(old(self).api_key@, opt_view(api_key)),
            final(self).basic_user@ == updated(old(self).basic_user@, opt_view(basic_user)),
            final(self).basic_pass@ == updated(old(self).basic_pass@, opt_view(basic_pass)),
    {
        if let Some(v) = api_url {
            self.api_url = v;
        }
        if let Some(v) = api_key {
            self.api_key = v;
        }
        if let Some(v) = basic_user {
            self.basic_user = v;
        }
        if let Some(v) = basic_pass {
            self.basic_pass = v;
        }
    }

    /// The settings one request runs with: each setting the request
    /// carries overrides the stored one; for the address the request's
    /// `base_url` comes first, then its `api_url`.
    pub fn for_request(
        &self,
        base_url: Option<String>,
        api_url: Option<String>,
        api_key: Option<String>,
        basic_user: Option<String>,
        basic_pass: Option<String>,
    ) -> (r: BilibiliRecorderConfig)
        ensures
            r.api_url@ == updated(updated(self.api_url@, opt_view(api_url)), opt_view(base_url)),
            r.api_key@ == updated(self.api_key@, opt_view(api_key)),
            r.basic_user@ == updated(self.basic_user@, opt_view(basic_user)),
            r.basic_pass@ == updated(self.basic_pass@, opt_view(basic_pass)),
    {
        let url = match base_url {
            Some(u) => u,
            None => match api_url {
                Some(u) => u,
                None => self.api_url.clone(),
            },
        };
        BilibiliRecorderConfig {
            api_url: url,
            api_key: match api_key {
                Some(k) => k,
                None => self.api_key.clone(),
            },
            basic_user: match basic_user {
                Some(u) => u,
                None => self.basic_user.clone(),
            },
            basic_pass: match basic_pass {
                Some(p) => p,
                None => self.basic_pass.clone(),
            },
        }
    }
}

/// Reading the settings back after `set_config` reports the address just
/// stored (or the old one when none was given), and reports a key exactly
/// when the key now stored is non-empty.
pub proof fn law_settings_read_back(
    url: Seq<char>,
    key: Seq<char>,
    new_url: Option<Seq<char>>,
    new_key: Option<Seq<char>>,
)
    ensures
        new_url matches Some(u) ==> updated(url, new_url) == u,
        new_url is None ==> updated(url, new_url) == url,
        new_key matches Some(k) ==> (updated(key, new_key).len() > 0 <==> k.len() > 0),
        new_key is None ==> (updated(key, new_key).len() > 0 <==> key.len() > 0),
{
}

/// Makes the recorder connector.
pub struct BilibiliRecorderPluginBuilder;

impl BilibiliRecorderPluginBuilder {
    pub fn new() -> (r: Self) {
        BilibiliRecorderPluginBuilder
    }

    /// The plugin's identifier.
    pub fn id(&self) -> (r: String)
        ensures
            r@ == "builtin.recorder.bilibili"@,
    {
        "builtin.recorder.bilibili".to_owned()
    }
}

/// Makes the SMB storage provider.
pub struct StorageProviderPluginBuilder;

impl StorageProviderPluginBuilder {
    pub fn new() -> (r: Self) {
        StorageProviderPluginBuilder
    }

    /// The plugin's identifier.
    pub fn id(&self) -> (r: String)
        ensures
            r@ == "builtin.storage.smb"@,
    {
        "builtin.storage.smb".to_owned()
    }
}

/// A request to the recorder connector.
pub enum RecorderAction {
    /// Forward to this endpoint of the recorder's API.
    Call(String),
    /// Report the settings without secrets.
    GetConfig,
    /// Update the settings.
    SetConfig,
}

pub open spec fn recorder_route(action: Seq<char>) -> Option<(int, Seq<char>)> {
    if action == "status"@ {
        Some((0, "/status"@))
    } else if action == "sync_files"@ {
        Some((0, "/sync_files"@))
    } else if action == "get_rooms"@ {
        Some((0, "/rooms"@))
    } else if action == "get_config"@ {
        Some((1, Seq::empty()))
    } else if action == "set_config"@ {
        Some((2, Seq::empty()))
    } else {
        None
    }
}

pub open spec fn recorder_action_view(a: RecorderAction) -> (int, Seq<char>) {
    match a {
        RecorderAction::Call(e) => (0, e@),
        RecorderAction::GetConfig => (1, Seq::empty()),
        RecorderAction::SetConfig => (2, Seq::empty()),
    }
}

pub open spec fn unsupported(e: PluginError, action: Seq<char>) -> bool {
    e matches PluginError::UnsupportedAction(a) && a@ == action
}

/// Routes a connector request; unknown actions are refused.
pub fn route_recorder_action(action: &str) -> (r: Result<RecorderAction, PluginError>)
    ensures
        match recorder_route(action@) {
            Some(v) => r matches Ok(a) && recorder_action_view(a) == v,
            None => r matches Err(e) && unsupported(e, action@),
        },
{
    if str_eq(action, "status") {
        Ok(RecorderAction::Call("/status".to_owned()))
    } else if str_eq(action, "sync_files") {
        Ok(RecorderAction::Call("/sync_files".to_owned()))
    } else if str_eq(action, "get_rooms") {
        Ok(RecorderAction::Call("/rooms".to_owned()))
    } else if str_eq(action, "get_config") {
        Ok(RecorderAction::GetConfig)
    } else if str_eq(action, "set_config") {
        Ok(RecorderAction::SetConfig)
    } else {
        Err(PluginError::UnsupportedAction(action.to_owned()))
    }
}

/// `s` without trailing `/`s.
pub open spec fn trim_end_slashes(s: Seq<char>) -> Seq<char>
    decreases s.len(),
{
    if s.len() > 0 && s.last() == '/' {
        trim_end_slashes(s.drop_last())
    } else {
        s
    }
}

/// The address of a recorder endpoint.
pub fn endpoint_url(api_url: &str, endpoint: &str) -> (r: String)
    ensures
        r@ == trim_end_slashes(api_url@) + endpoint@,
{
    let cs = chars_of(api_url);
    let mut n = cs.len();
    assert(cs@.take(n as int) == cs@);
    while n > 0 && cs[n - 1] == '/'
        invariant
            n <= cs.len(),
            trim_end_slashes(cs@) == trim_end_slashes(cs@.take(n as int)),
        decreases n,
    {
        assert(cs@.take(n as int).drop_last() == cs@.take(n - 1));
        n = n - 1;
    }
    let mut buf: Vec<char> = Vec::new();
    let mut i: usize = 0;
    while i < n
        invariant
            i <= n <= cs.len(),
            buf@ == cs@.take(i as int),
        decreases n - i,
    {
        buf.push(cs[i]);
        i = i + 1;
        assert(buf@ == cs@.take(i as int));
    }
    push_str(&mut buf, endpoint);
    string_of(&buf)
}

/// The headers a recorder request carries: the API key when one is set,
/// and Basic authentication when a user is set.
pub open spec fn auth_headers_spec(c: BilibiliRecorderConfig) -> Seq<(Seq<char>, Seq<char>)> {
    (if c.api_key@.len() > 0 {
        seq![("X-API-Key"@, c.api_key@)]
    } else {
        Seq::empty()
    }) + (if c.basic_user@.len() > 0 {
        seq![
            (
                "Authorization"@,
                "Basic "@ + base64(utf8(c.basic_user@ + ":"@ + c.basic_pass@)),
            ),
        ]
    } else {
        Seq::empty()
    })
}

pub open spec fn header_views(v: Seq<(String, String)>) -> Seq<(Seq<char>, Seq<char>)> {
    v.map_values(|h: (String, String)| (h.0@, h.1@))
}

pub fn auth_headers(config: &BilibiliRecorderConfig) -> (r: Vec<(String, String)>)
    ensures
        header_views(r@) == auth_headers_spec(*config),
{
    let mut r: Vec<(String, String)> = Vec::new();
    if !config.api_key.as_str().is_empty() {
        r.push(("X-API-Key".to_owned(), config.api_key.clone()));
    }
    let ghost first = header_views(r@);
    if !config.basic_user.as_str().is_empty() {
        let mut cred = config.basic_user.clone();
        cred.append(":");
        cred.append(config.basic_pass.as_str());
        let mut value = "Basic ".to_owned();
        let b = base64_encode(cred.as_str());
        value.append(b.as_str());
        r.push(("Authorization".to_owned(), value));
        assert(header_views(r@) == first.push(("Authorization"@, value@)));
    }
    r
}

/// Parameters of a share to mount.
pub struct MountParams {
    pub server: String,
    pub share: String,
    pub username: Option<String>,
    pub password: Option<String>,
    /// Where to mount; chosen automatically when absent.
    pub mount_point: Option<String>,
}

/// A mounted share.
pub struct MountInfo {
    pub server: String,
    pub share: String,
    pub mount_point: String,
}

pub open spec fn info_view(m: MountInfo) -> (Seq<char>, Seq<char>, Seq<char>) {
    (m.server@, m.share@, m.mount_point@)
}

pub open spec fn infos_view(v: Seq<MountInfo>) -> Seq<(Seq<char>, Seq<char>, Seq<char>)> {
    v.map_values(|m: MountInfo| info_view(m))
}

impl MountInfo {
    pub fn duplicate(&self) -> (r: MountInfo)
        ensures
            info_view(r) == info_view(*self),
    {
        MountInfo {
            server: self.server.clone(),
            share: self.share.clone(),
            mount_point: self.mount_point.clone(),
        }
    }
}

/// Platform mount operations.
pub struct MountBackend;

pub open spec fn nonempty_opt(s: Seq<char>) -> Option<Seq<char>> {
    if s.len() == 0 { None } else { Some(s) }
}

fn nonempty_or_none(s: &String) -> (r: Option<String>)
    ensures
        opt_view(r) == nonempty_opt(s@),
{
    if s.as_str().is_empty() {
        None
    } else {
        Some(s.clone())
    }
}

/// What a mount request became: server and share are required, empty
/// optional fields are absent.
pub fn mount_params(
    server: &String,
    share: &String,
    username: &String,
    password: &String,
    mount_point: &String,
) -> (r: Result<MountParams, PluginError>)
    ensures
        server@.len() == 0 || share@.len() == 0 ==> (r matches Err(e) && e matches PluginError::InvalidPayload(m)
            && m@ == "server and share are required"@),
        server@.len() > 0 && share@.len() > 0 ==> (r matches Ok(p) && p.server@ == server@
            && p.share@ == share@ && opt_view(p.username) == nonempty_opt(username@) && opt_view(
            p.password,
        ) == nonempty_opt(password@) && opt_view(p.mount_point) == nonempty_opt(mount_point@)),
{
    if server.as_str().is_empty() || share.as_str().is_empty() {
        return Err(PluginError::InvalidPayload("server and share are required".to_owned()));
    }
    Ok(
        MountParams {
            server: server.clone(),
            share: share.clone(),
            username: nonempty_or_none(username),
            password: nonempty_or_none(password),
            mount_point: nonempty_or_none(mount_point),
        },
    )
}

/// The SMB URL `mount_smbfs` takes: credentials in the URL, the password
/// percent-encoded, a guest login without a user.
pub open spec fn smb_url(p: MountParams) -> Seq<char> {
    match (p.username, p.password) {
        (Some(u), Some(w)) => "//"@ + u@ + ":"@ + percent_encode(w@) + "@"@ + p.server@ + "/"@
            + p.share@,
        (Some(u), None) => "//"@ + u@ + "@"@ + p.server@ + "/"@ + p.share@,
        _ => "//guest@"@ + p.server@ + "/"@ + p.share@,
    }
}

/// Options of a CIFS mount: the user (or guest), the password if given,
/// and the owner of the mounted files.
pub open spec fn cifs_options(p: MountParams, uid: u32, gid: u32) -> Seq<char> {
    (match p.username {
        Some(u) => "username="@ + u@,
        None => "guest"@,
    }) + (match p.password {
        Some(w) => ",password="@ + w@,
        None => Seq::empty(),
    }) + ",uid="@ + crate::text::digits_of(uid as nat) + ",gid="@ + crate::text::digits_of(
        gid as nat,
    )
}

/// The directory name of an automatic mount point on Unix: dots of the
/// server become hyphens.
pub open spec fn auto_mount_dir(server: Seq<char>, share: Seq<char>) -> Seq<char> {
    server.map_values(|c: char| if c == '.' { '-' } else { c }) + "_"@ + share
}

/// The first whitespace-separated word of the form `X:` with an ASCII
/// letter, upper-cased, scanning from word start `i`.
pub open spec fn is_drive_word_at(s: Seq<char>, i: int) -> bool {
    0 <= i && i + 2 <= s.len() && (i == 0 || is_ws(s[i - 1])) && (('a' <= s[i] <= 'z') || ('A'
        <= s[i] <= 'Z')) && s[i + 1] == ':' && (i + 2 == s.len() || is_ws(s[i + 2]))
}

pub open spec fn drive_letter_spec(s: Seq<char>) -> Option<Seq<char>> {
    if exists|i: int| is_drive_word_at(s, i) {
        let i = choose|i: int| is_drive_word_at(s, i) && forall|j: int| 0 <= j < i ==> !is_drive_word_at(s, j);
        Some(seq![crate::text::ascii_upper_char(s[i]), ':'])
    } else {
        None
    }
}

impl MountBackend {
    /// Whether SMB mounting is available on the system named `os_name`
    /// (as `std::env::consts::OS` names it): on macOS, Linux and Windows.
    pub fn is_supported(os_name: &str) -> (r: bool)
        ensures
            r == (host_os_named(os_name@) is Some),
    {
        HostOs::from_name(os_name).is_some()
    }

    /// The URL for `mount_smbfs`.
    pub fn build_smb_url(params: &MountParams) -> (r: String)
        ensures
            r@ == smb_url(*params),
    {
        let mut buf: Vec<char> = Vec::new();
        match (&params.username, &params.password) {
            (Some(user), Some(pass)) => {
                push_str(&mut buf, "//");
                push_str(&mut buf, user.as_str());
                push_str(&mut buf, ":");
                let enc = url_encode(pass.as_str());
                push_str(&mut buf, enc.as_str());
                push_str(&mut buf, "@");
            },
            (Some(user), None) => {
                push_str(&mut buf, "//");
                push_str(&mut buf, user.as_str());
                push_str(&mut buf, "@");
            },
            _ => {
                push_str(&mut buf, "//guest@");
            },
        }
        push_str(&mut buf, params.server.as_str());
        push_str(&mut buf, "/");
        push_str(&mut buf, params.share.as_str());
        string_of(&buf)
    }

    /// Percent-encodes a password for an SMB URL.
    pub fn url_encode(s: &str) -> (r: String)
        ensures
            r@ == percent_encode(s@),
    {
        url_encode(s)
    }

    /// The `-o` options of a CIFS mount.
    pub fn cifs_mount_options(params: &MountParams, uid: u32, gid: u32) -> (r: String)
        ensures
            r@ == cifs_options(*params, uid, gid),
    {
        let mut buf: Vec<char> = Vec::new();
        match &params.username {
            Some(u) => {
                push_str(&mut buf, "username=");
                push_str(&mut buf, u.as_str());
            },
            None => {
                push_str(&mut buf, "guest");
            },
        }
        match &params.password {
            Some(w) => {
                push_str(&mut buf, ",password=");
                push_str(&mut buf, w.as_str());
            },
            None => {},
        }
        push_str(&mut buf, ",uid=");
        crate::text::push_digits(&mut buf, uid as u64);
        push_str(&mut buf, ",gid=");
        crate::text::push_digits(&mut buf, gid as u64);
        string_of(&buf)
    }

    /// The UNC path `\\server\share` of a share.
    pub fn unc_path(params: &MountParams) -> (r: String)
        ensures
            r@ == "\\\\"@ + params.server@ + "\\"@ + params.share@,
    {
        let mut buf: Vec<char> = Vec::new();
        push_str(&mut buf, "\\\\");
        push_str(&mut buf, params.server.as_str());
        push_str(&mut buf, "\\");
        push_str(&mut buf, params.share.as_str());
        string_of(&buf)
    }

    /// The directory name of an automatic Unix mount point.
    pub fn auto_mount_dir_name(server: &str, share: &str) -> (r: String)
        ensures
            r@ == auto_mount_dir(server@, share@),
    {
        let cs = chars_of(server);
        let mut buf: Vec<char> = Vec::new();
        let mut i: usize = 0;
        while i < cs.len()
            invariant
                i <= cs.len(),
                buf@ == cs@.take(i as int).map_values(|c: char| if c == '.' { '-' } else { c }),
            decreases cs.len() - i,
        {
            buf.push(if cs[i] == '.' { '-' } else { cs[i] });
            i = i + 1;
            assert(buf@ == cs@.take(i as int).map_values(|c: char| if c == '.' { '-' } else { c }));
        }
        assert(cs@.take(cs.len() as int) == cs@);
        push_str(&mut buf, "_");
        push_str(&mut buf, share);
        string_of(&buf)
    }

    /// The drive letter that `net use *` reports having assigned.
    pub fn parse_net_use_drive(output: &str) -> (r: Option<String>)
        ensures
            opt_view(r) == drive_letter_spec(output@),
    {
        let cs = chars_of(output);
        let mut i: usize = 0;
        while i < cs.len() && i + 1 < cs.len()
            invariant
                i <= cs.len(),
                cs@ == output@,
                forall|j: int| 0 <= j < i ==> !is_drive_word_at(cs@, j),
            decreases cs.len() - i,
        {
            let start_ok = i == 0 || crate::text::is_whitespace(cs[i - 1]);
            let c = cs[i];
            let letter = ('a' <= c && c <= 'z') || ('A' <= c && c <= 'Z');
            let end_ok = i + 2 == cs.len() || (i + 2 < cs.len() && crate::text::is_whitespace(cs[i + 2]));
            if start_ok && letter && cs[i + 1] == ':' && end_ok {
                assert(is_drive_word_at(cs@, i as int));
                let ghost k = choose|k: int| is_drive_word_at(cs@, k) && forall|j: int| 0 <= j < k ==> !is_drive_word_at(cs@, j);
                assert(k == i) by {
                    if k < i {
                    } else if k > i {
                    }
                }
                let mut out: Vec<char> = Vec::new();
                out.push(crate::text::upper_ascii_char(c));
                out.push(':');
                return Some(string_of(&out));
            }
            i = i + 1;
        }
        assert forall|j: int| !is_drive_word_at(cs@, j) by {
            if 0 <= j && j + 2 <= cs@.len() {
                assert(j < i);
            }
        }
        None
    }
}

/// The registry of mounts a storage provider tracks.
pub struct MountRegistry {
    pub mounts: Vec<MountInfo>,
}

pub open spec fn mount_points(v: Seq<(Seq<char>, Seq<char>, Seq<char>)>) -> Seq<Seq<char>> {
    v.map_values(|m: (Seq<char>, Seq<char>, Seq<char>)| m.2)
}

/// Entries whose mount point is not `p`, in order.
pub open spec fn without_point(v: Seq<(Seq<char>, Seq<char>, Seq<char>)>, p: Seq<char>) -> Seq<
    (Seq<char>, Seq<char>, Seq<char>),
>
    decreases v.len(),
{
    if v.len() == 0 {
        v
    } else if v.last().2 == p {
        without_point(v.drop_last(), p)
    } else {
        without_point(v.drop_last(), p).push(v.last())
    }
}

/// The registry after adopting `ds` in order, each unless its mount point
/// is already tracked.
pub open spec fn merged(v: Seq<(Seq<char>, Seq<char>, Seq<char>)>, ds: Seq<(Seq<char>, Seq<char>, Seq<char>)>) -> Seq<
    (Seq<char>, Seq<char>, Seq<char>),
>
    decreases ds.len(),
{
    if ds.len() == 0 {
        v
    } else {
        let m = merged(v, ds.drop_last());
        if mount_points(m).contains(ds.last().2) {
            m
        } else {
            m.push(ds.last())
        }
    }
}

impl MountRegistry {
    pub fn new() -> (r: MountRegistry)
        ensures
            r.mounts@.len() == 0,
    {
        MountRegistry { mounts: Vec::new() }
    }

    /// Tracks a new mount.
    pub fn add(&mut self, info: MountInfo)
        ensures
            infos_view(final(self).mounts@) == infos_view(old(self).mounts@).push(info_view(info)),
    {
        let ghost pre = infos_view(self.mounts@);
        self.mounts.push(info);
        assert(infos_view(self.mounts@) == pre.push(info_view(info)));
    }

    /// Forgets every mount at `mount_point`.
    pub fn remove(&mut self, mount_point: &str)
        ensures
            infos_view(final(self).mounts@) == without_point(infos_view(old(self).mounts@), mount_point@),
    {
        let ghost orig = infos_view(self.mounts@);
        let mut kept: Vec<MountInfo> = Vec::new();
        let mut i: usize = 0;
        while i < self.mounts.len()
            invariant
                i <= self.mounts.len(),
                orig == infos_view(self.mounts@),
                infos_view(kept@) == without_point(orig.take(i as int), mount_point@),
            decreases self.mounts.len() - i,
        {
            assert(orig.take(i + 1).drop_last() == orig.take(i as int));
            assert(orig.take(i + 1).last() == info_view(self.mounts@[i as int]));
            if !str_eq(self.mounts[i].mount_point.as_str(), mount_point) {
                let m = self.mounts[i].duplicate();
                let ghost pre = infos_view(kept@);
                kept.push(m);
                assert(infos_view(kept@) == pre.push(info_view(m)));
            }
            i = i + 1;
        }
        assert(orig.take(self.mounts.len() as int) == orig);
        self.mounts = kept;
    }

    fn tracks(&self, mount_point: &String) -> (r: bool)
        ensures
            r == mount_points(infos_view(self.mounts@)).contains(mount_point@),
    {
        let ghost ps = mount_points(infos_view(self.mounts@));
        let mut i: usize = 0;
        while i < self.mounts.len()
            invariant
                i <= self.mounts.len(),
                ps == mount_points(infos_view(self.mounts@)),
                forall|k: int| 0 <= k < i ==> ps[k] != mount_point@,
            decreases self.mounts.len() - i,
        {
            assert(ps[i as int] == self.mounts@[i as int].mount_point@);
            if str_eq(self.mounts[i].mount_point.as_str(), mount_point.as_str()) {
                return true;
            }
            i = i + 1;
        }
        false
    }

    /// Adopts detected mounts that are not tracked yet.
    pub fn merge_detected(&mut self, detected: &Vec<MountInfo>)
        ensures
            infos_view(final(self).mounts@) == merged(infos_view(old(self).mounts@), infos_view(detected@)),
    {
        let ghost orig = infos_view(self.mounts@);
        let ghost ds = infos_view(detected@);
        let mut i: usize = 0;
        while i < detected.len()
            invariant
                i <= detected.len(),
                ds == infos_view(detected@),
                infos_view(self.mounts@) == merged(orig, ds.take(i as int)),
            decreases detected.len() - i,
        {
            assert(ds.take(i + 1).drop_last() == ds.take(i as int));
            assert(ds.take(i + 1).last() == info_view(detected@[i as int]));
            if !self.tracks(&detected[i].mount_point) {
                let m = detected[i].duplicate();
                let ghost pre = infos_view(self.mounts@);
                self.mounts.push(m);
                assert(infos_view(self.mounts@) == pre.push(info_view(m)));
            }
            i = i + 1;
        }
        assert(ds.take(detected.len() as int) == ds);
    }
}

/// Adopting detected mounts never tracks a mount point twice that was
/// tracked once.
pub proof fn law_merge_keeps_points_unique(
    v: Seq<(Seq<char>, Seq<char>, Seq<char>)>,
    ds: Seq<(Seq<char>, Seq<char>, Seq<char>)>,
)
    requires
        forall|i: int, j: int| 0 <= i < j < v.len() ==> v[i].2 != v[j].2,
    ensures
        forall|i: int, j: int|
            0 <= i < j < merged(v, ds).len() ==> merged(v, ds)[i].2 != merged(v, ds)[j].2,
    decreases ds.len(),
{
    if ds.len() > 0 {
        law_merge_keeps_points_unique(v, ds.drop_last());
        let m = merged(v, ds.drop_last());
        if !mount_points(m).contains(ds.last().2) {
            assert forall|i: int, j: int| 0 <= i < j < m.push(ds.last()).len() implies m.push(
                ds.last(),
            )[i].2 != m.push(ds.last())[j].2 by {
                if j == m.len() {
                    assert(mount_points(m)[i] == m[i].2);
                }
            }
        }
    }
}

/// After forgetting a mount point, no tracked mount is at it.
pub proof fn law_remove_forgets(v: Seq<(Seq<char>, Seq<char>, Seq<char>)>, p: Seq<char>)
    ensures
        forall|i: int| 0 <= i < without_point(v, p).len() ==> without_point(v, p)[i].2 != p,
    decreases v.len(),
{
    if v.len() > 0 {
        law_remove_forgets(v.drop_last(), p);
        let w = without_point(v.drop_last(), p);
        if v.last().2 != p {
            assert forall|i: int| 0 <= i < w.push(v.last()).len() implies w.push(v.last())[i].2 != p by {
                if i < w.len() {
                    assert(w.push(v.last())[i] == w[i]);
                }
            }
        }
    }
}

} // verus!
