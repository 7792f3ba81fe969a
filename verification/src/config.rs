//! The client's settings: where they are kept, how the command line, the
//! environment and the settings file are combined (in that order of
//! precedence), and which server URLs are accepted.

use vstd::prelude::*;
use crate::error::{ClientError, ClientErrorView};
use crate::protocol::{copy_opt_string, opt_view};
use crate::text::{concat, is_blank, is_blank_str, owned, str_eq, trim, trimmed};

verus! {

#[verifier::external_type_specification]
#[verifier::external_body]
pub struct ExProjectDirs(directories::ProjectDirs);

#[verifier::external_type_specification]
#[verifier::external_body]
pub struct ExPathBuf(std::path::PathBuf);

/// The directories of a project (`directories::ProjectDirs::from`). Trusted,
/// with nothing stated: the answer depends on the user's environment.
#[verifier::external_body]
fn project_dirs_for(qualifier: &str, organization: &str, application: &str) -> (r: Option<
    directories::ProjectDirs,
>) {
    directories::ProjectDirs::from(qualifier, organization, application)
}

/// The project's configuration directory (`ProjectDirs::config_dir`).
/// Trusted, with nothing stated: a path is opaque here.
#[verifier::external_body]
fn config_dir_of(dirs: &directories::ProjectDirs) -> (r: std::path::PathBuf) {
    dirs.config_dir().to_path_buf()
}

/// The project's local data directory (`ProjectDirs::data_local_dir`).
/// Trusted, with nothing stated: a path is opaque here.
#[verifier::external_body]
fn data_local_dir_of(dirs: &directories::ProjectDirs) -> (r: std::path::PathBuf) {
    dirs.data_local_dir().to_path_buf()
}

/// What `Path::join` gives for a directory and a relative name.
pub uninterp spec fn joined_path(dir: std::path::PathBuf, name: Seq<char>) -> std::path::PathBuf;

/// A file `name` in directory `dir` (`Path::join`). Trusted: the result is
/// `joined_path` of the directory and the name; how the parts are joined is
/// left to the standard library.
#[verifier::external_body]
pub(crate) fn file_in(dir: &std::path::PathBuf, name: &str) -> (r: std::path::PathBuf)
    ensures
        r == joined_path(*dir, name@),
{
    dir.join(name)
}

/// The message when the user's directories cannot be found.
pub open spec fn no_dirs_message() -> Seq<char> {
    "ユーザー設定ディレクトリを特定できません"@
}

fn project_dirs() -> (r: Result<directories::ProjectDirs, ClientError>)
    ensures
        r matches Err(e) ==> e@ == ClientErrorView::Config(no_dirs_message()),
{
    match project_dirs_for("net", "lan-usb-bridge", "LAN USB Bridge") {
        Some(d) => Ok(d),
        None => Err(ClientError::Config(owned("ユーザー設定ディレクトリを特定できません"))),
    }
}

/// Where the settings file is kept: `config.json` in the configuration
/// directory of the project, when the user's directories can be found.
pub fn default_path() -> (r: Result<std::path::PathBuf, ClientError>)
    ensures
        r matches Err(e) ==> e@ == ClientErrorView::Config(no_dirs_message()),
        r matches Ok(p) ==> exists|d: std::path::PathBuf| p == joined_path(d, "config.json"@),
{
    let dirs = project_dirs()?;
    let dir = config_dir_of(&dirs);
    let p = file_in(&dir, "config.json");
    assert(p == joined_path(dir, "config.json"@));
    Ok(p)
}

/// The project's local data directory (where the log is kept), when the
/// user's directories can be found.
pub fn local_data_dir() -> (r: Result<std::path::PathBuf, ClientError>)
    ensures
        r matches Err(e) ==> e@ == ClientErrorView::Config(no_dirs_message()),
{
    let dirs = project_dirs()?;
    Ok(data_local_dir_of(&dirs))
}

/// The parts of a parsed URL that the client reads.
#[derive(Clone, Debug)]
pub struct UrlParts {
    pub scheme: String,
    pub host: Option<String>,
    pub query: Option<String>,
    pub fragment: Option<String>,
    pub path: String,
    pub text: String,
}

/// URL parts as values.
pub struct UrlPartsView {
    pub scheme: Seq<char>,
    pub host: Option<Seq<char>>,
    pub query: Option<Seq<char>>,
    pub fragment: Option<Seq<char>>,
    pub path: Seq<char>,
    pub text: Seq<char>,
}

impl View for UrlParts {
    type V = UrlPartsView;

    open spec fn view(&self) -> UrlPartsView {
        UrlPartsView {
            scheme: self.scheme@,
            host: opt_view(self.host),
            query: opt_view(self.query),
            fragment: opt_view(self.fragment),
            path: self.path@,
            text: self.text@,
        }
    }
}

/// The view of a URL reading.
pub open spec fn url_result_view(r: Result<UrlParts, String>) -> Result<UrlPartsView, Seq<char>> {
    match r {
        Ok(p) => Ok(p@),
        Err(e) => Err(e@),
    }
}

/// What `url::Url::parse` makes of a text: its scheme, host, query,
/// fragment, path and serialization, or the text of the parse error.
pub uninterp spec fn url_reading(value: Seq<char>) -> Result<UrlPartsView, Seq<char>>;

/// Parses a URL (`url::Url::parse`) and reads its parts. Trusted: the
/// result is `url_reading` of the text, and the path of an http or https
/// URL with a host starts with `/` (the crate gives such special URLs at
/// least the path `/`); the parsing rules themselves are left to the crate.
#[verifier::external_body]
pub(crate) fn read_url(value: &str) -> (r: Result<UrlParts, String>)
    ensures
        url_result_view(r) == url_reading(value@),
        r matches Ok(p) ==> (p.host is Some && (p.scheme@ == "http"@ || p.scheme@ == "https"@)
            ==> "/"@.is_prefix_of(p.path@)),
{
    match url::Url::parse(value) {
        Ok(u) => Ok(UrlParts {
            scheme: u.scheme().to_owned(),
            host: u.host_str().map(str::to_owned),
            query: u.query().map(str::to_owned),
            fragment: u.fragment().map(str::to_owned),
            path: u.path().to_owned(),
            text: u.as_str().to_owned(),
        }),
        Err(e) => Err(e.to_string()),
    }
}

/// The message for a URL that is not an absolute http(s) URL.
pub open spec fn not_http_message() -> Seq<char> {
    "サーバーURLにはhttpまたはhttpsの絶対URLを指定してください"@
}

/// The message for a URL with more than a scheme, host and port.
pub open spec fn extra_parts_message() -> Seq<char> {
    "サーバーURLにはscheme・host・portだけを指定してください"@
}

/// Which server URL is accepted, from how it was parsed: an http or https
/// URL with a host and nothing after it but an empty or `/` path; it is
/// kept with the path `/`.
pub open spec fn server_url_check(parsed: Result<UrlPartsView, Seq<char>>) -> Result<
    Seq<char>,
    ClientErrorView,
> {
    match parsed {
        Err(e) => Err(ClientErrorView::Config("サーバーURLが不正です: "@ + e)),
        Ok(p) => if !(p.scheme == "http"@ || p.scheme == "https"@) || p.host is None {
            Err(ClientErrorView::Config(not_http_message()))
        } else if p.query is Some || p.fragment is Some || !(p.path == ""@ || p.path == "/"@) {
            Err(ClientErrorView::Config(extra_parts_message()))
        } else {
            Ok(p.text)
        },
    }
}

/// The view of a checked URL.
pub open spec fn text_result_view(r: Result<String, ClientError>) -> Result<Seq<char>, ClientErrorView> {
    match r {
        Ok(s) => Ok(s@),
        Err(e) => Err(e@),
    }
}

/// Accepts a parsed server URL: an http or https URL with a host and
/// nothing after it but an empty or `/` path. For a URL that `read_url`
/// parsed, the path of an accepted URL is `/` (see `read_url`), so the
/// accepted text already ends in the path `/` that the URL is kept with.
pub fn check_server_url(parsed: &Result<UrlParts, String>) -> (r: Result<String, ClientError>)
    ensures
        text_result_view(r) == server_url_check(url_result_view(*parsed)),
{
    match parsed {
        Err(e) => Err(ClientError::Config(concat("サーバーURLが不正です: ", e.as_str()))),
        Ok(p) => {
            let web = str_eq(p.scheme.as_str(), "http") || str_eq(p.scheme.as_str(), "https");
            if !web || p.host.is_none() {
                return Err(
                    ClientError::Config(
                        owned("サーバーURLにはhttpまたはhttpsの絶対URLを指定してください"),
                    ),
                );
            }
            let bare = str_eq(p.path.as_str(), "") || str_eq(p.path.as_str(), "/");
            if p.query.is_some() || p.fragment.is_some() || !bare {
                return Err(
                    ClientError::Config(owned("サーバーURLにはscheme・host・portだけを指定してください")),
                );
            }
            Ok(p.text.clone())
        },
    }
}

/// Parses and checks a server URL.
pub fn validate_server_url(value: &str) -> (r: Result<String, ClientError>)
    ensures
        text_result_view(r) == server_url_check(url_reading(value@)),
{
    let parsed = read_url(value);
    check_server_url(&parsed)
}

/// The URL used when none is given anywhere.
pub const DEFAULT_SERVER_URL: &'static str = "http://127.0.0.1:8080";

/// The client's settings.
#[derive(Clone, Debug)]
pub struct Config {
    pub server_url: String,
    pub client_id: String,
    pub usbip_path: String,
    pub dry_run: bool,
}

/// Settings as values.
pub struct ConfigView {
    pub server_url: Seq<char>,
    pub client_id: Seq<char>,
    pub usbip_path: Seq<char>,
    pub dry_run: bool,
}

impl View for Config {
    type V = ConfigView;

    open spec fn view(&self) -> ConfigView {
        ConfigView {
            server_url: self.server_url@,
            client_id: self.client_id@,
            usbip_path: self.usbip_path@,
            dry_run: self.dry_run,
        }
    }
}

/// Settings given on the command line.
#[derive(Debug)]
pub struct Overrides {
    pub server_url: Option<String>,
    pub client_id: Option<String>,
    pub usbip_path: Option<String>,
    pub dry_run: bool,
}

impl Default for Overrides {
    fn default() -> (r: Overrides)
        ensures
            r.server_url is None,
            r.client_id is None,
            r.usbip_path is None,
            !r.dry_run,
    {
        Overrides { server_url: None, client_id: None, usbip_path: None, dry_run: false }
    }
}

/// Settings from the environment (`USB_BRIDGE_SERVER_URL`,
/// `USB_BRIDGE_CLIENT_ID`, `USB_BRIDGE_USBIP_PATH`).
#[derive(Debug)]
pub struct Environment {
    pub server_url: Option<String>,
    pub client_id: Option<String>,
    pub usbip_path: Option<String>,
}

/// The settings file.
#[derive(Clone, Debug)]
pub struct StoredConfig {
    pub server_url: Option<String>,
    pub client_id: Option<String>,
    pub usbip_path: Option<String>,
}

impl Default for StoredConfig {
    fn default() -> (r: StoredConfig)
        ensures
            r.server_url is None,
            r.client_id is None,
            r.usbip_path is None,
    {
        StoredConfig { server_url: None, client_id: None, usbip_path: None }
    }
}

/// The first of three settings that is given.
pub open spec fn first_given(a: Option<Seq<char>>, b: Option<Seq<char>>, c: Option<Seq<char>>) -> Option<
    Seq<char>,
> {
    if a is Some {
        a
    } else if b is Some {
        b
    } else {
        c
    }
}

/// The message for a missing or blank client ID.
pub open spec fn empty_id_message() -> Seq<char> {
    "client_idは空にできません"@
}

/// The settings in force: each from the command line, else the
/// environment, else the file, else its default; a blank client ID is
/// refused, then the server URL is checked.
pub open spec fn resolved(o: Overrides, env: Environment, stored: StoredConfig) -> Result<
    ConfigView,
    ClientErrorView,
> {
    let server = match first_given(opt_view(o.server_url), opt_view(env.server_url), opt_view(stored.server_url)) {
        Some(s) => s,
        None => DEFAULT_SERVER_URL@,
    };
    let usbip = match first_given(opt_view(o.usbip_path), opt_view(env.usbip_path), opt_view(stored.usbip_path)) {
        Some(s) => s,
        None => "usbip.exe"@,
    };
    match first_given(opt_view(o.client_id), opt_view(env.client_id), opt_view(stored.client_id)) {
        None => Err(ClientErrorView::Config(empty_id_message())),
        Some(id) => if is_blank(id) {
            Err(ClientErrorView::Config(empty_id_message()))
        } else {
            match server_url_check(url_reading(server)) {
                Err(e) => Err(e),
                Ok(u) => Ok(ConfigView { server_url: u, client_id: id, usbip_path: usbip, dry_run: o.dry_run }),
            }
        },
    }
}

/// The view of a settings outcome.
pub open spec fn config_result_view(r: Result<Config, ClientError>) -> Result<ConfigView, ClientErrorView> {
    match r {
        Ok(c) => Ok(c@),
        Err(e) => Err(e@),
    }
}

/// The first of three settings that is given, as a copy.
fn first_of(a: &Option<String>, b: &Option<String>, c: &Option<String>) -> (r: Option<String>)
    ensures
        opt_view(r) == first_given(opt_view(*a), opt_view(*b), opt_view(*c)),
{
    if a.is_some() {
        copy_opt_string(a)
    } else if b.is_some() {
        copy_opt_string(b)
    } else {
        copy_opt_string(c)
    }
}

/// Combines the settings: the command line first, then the environment,
/// then the file, then the defaults (`http://127.0.0.1:8080` and
/// `usbip.exe`).
pub fn resolve(overrides: &Overrides, env: &Environment, stored: &StoredConfig) -> (r: Result<
    Config,
    ClientError,
>)
    ensures
        config_result_view(r) == resolved(*overrides, *env, *stored),
{
    let server = match first_of(&overrides.server_url, &env.server_url, &stored.server_url) {
        Some(s) => s,
        None => owned(DEFAULT_SERVER_URL),
    };
    let usbip_path = match first_of(&overrides.usbip_path, &env.usbip_path, &stored.usbip_path) {
        Some(s) => s,
        None => owned("usbip.exe"),
    };
    let client_id = match first_of(&overrides.client_id, &env.client_id, &stored.client_id) {
        None => {
            return Err(ClientError::Config(owned("client_idは空にできません")));
        },
        Some(id) => id,
    };
    if is_blank_str(client_id.as_str()) {
        return Err(ClientError::Config(owned("client_idは空にできません")));
    }
    let server_url = validate_server_url(server.as_str())?;
    Ok(Config { server_url, client_id, usbip_path, dry_run: overrides.dry_run })
}

/// Settings from values entered by hand: the client ID trimmed, and
/// refused when blank; the server URL checked.
pub open spec fn from_values_result(server_url: Seq<char>, client_id: Seq<char>, usbip_path: Seq<char>) -> Result<
    ConfigView,
    ClientErrorView,
> {
    if is_blank(client_id) {
        Err(ClientErrorView::Config(empty_id_message()))
    } else {
        match server_url_check(url_reading(server_url)) {
            Err(e) => Err(e),
            Ok(u) => Ok(ConfigView { server_url: u, client_id: trim(client_id), usbip_path, dry_run: false }),
        }
    }
}

/// Settings from values entered by hand.
pub fn from_values(server_url: &str, client_id: &str, usbip_path: String) -> (r: Result<Config, ClientError>)
    ensures
        config_result_view(r) == from_values_result(server_url@, client_id@, usbip_path@),
{
    if is_blank_str(client_id) {
        return Err(ClientError::Config(owned("client_idは空にできません")));
    }
    let server_url = validate_server_url(server_url)?;
    Ok(Config { server_url, client_id: trimmed(client_id), usbip_path, dry_run: false })
}

/// Whether the file holds no client ID (none, or an empty one), so one is
/// generated and saved.
pub open spec fn id_missing(stored: StoredConfig) -> bool {
    match stored.client_id {
        None => true,
        Some(id) => id@.len() == 0,
    }
}

/// Whether the file holds no client ID.
pub fn needs_generated_id(stored: &StoredConfig) -> (r: bool)
    ensures
        r == id_missing(*stored),
{
    match &stored.client_id {
        None => true,
        Some(id) => id.as_str().is_empty(),
    }
}

/// A lower-case hexadecimal digit.
pub open spec fn hex_digit(c: char) -> bool {
    ('0' <= c && c <= '9') || ('a' <= c && c <= 'f')
}

/// The text of a UUID as `Uuid` writes it: 36 characters, hyphens at 8,
/// 13, 18 and 23, lower-case hex digits elsewhere.
pub open spec fn uuid_text(s: Seq<char>) -> bool {
    &&& s.len() == 36
    &&& forall|i: int|
        0 <= i < 36 ==> if i == 8 || i == 13 || i == 18 || i == 23 {
            #[trigger] s[i] == '-'
        } else {
            hex_digit(s[i])
        }
}

/// A new random (version 4) UUID as text (`uuid::Uuid::new_v4`, written
/// with `Display`). Trusted: the text has the hyphenated form; which UUID
/// comes out is chance. The crate panics when the operating system's random
/// source fails, which no precondition can rule out.
#[verifier::external_body]
fn random_uuid_text() -> (r: String)
    ensures
        uuid_text(r@),
{
    uuid::Uuid::new_v4().to_string()
}

/// A fresh client ID, `windows-` and a random UUID.
pub fn generate_client_id() -> (r: String)
    ensures
        exists|u: Seq<char>| uuid_text(u) && r@ == "windows-"@ + u,
        !is_blank(r@),
{
    let u = random_uuid_text();
    let r = concat("windows-", u.as_str());
    proof {
        reveal_strlit("windows-");
        assert(r@[0] == 'w');
    }
    r
}

/// Whether `after` is what loading makes of the file `before`: the same
/// settings, with a generated `windows-<uuid>` client ID in place of a
/// missing one.
pub open spec fn regenerated(before: StoredConfig, after: StoredConfig) -> bool {
    &&& after.server_url == before.server_url
    &&& after.usbip_path == before.usbip_path
    &&& id_missing(before) ==> (after.client_id matches Some(id) && (exists|u: Seq<char>|
        uuid_text(u) && id@ == "windows-"@ + u))
    &&& !id_missing(before) ==> after.client_id == before.client_id
}

/// The file with a generated client ID in place of a missing one; other
/// settings as they were.
pub fn with_generated_id(stored: StoredConfig) -> (r: StoredConfig)
    ensures
        regenerated(stored, r),
{
    if needs_generated_id(&stored) {
        StoredConfig { client_id: Some(generate_client_id()), ..stored }
    } else {
        stored
    }
}

/// What is saved for some settings.
pub fn stored_from(config: &Config) -> (r: StoredConfig)
    ensures
        opt_view(r.server_url) == Some(config.server_url@),
        opt_view(r.client_id) == Some(config.client_id@),
        opt_view(r.usbip_path) == Some(config.usbip_path@),
{
    StoredConfig {
        server_url: Some(config.server_url.clone()),
        client_id: Some(config.client_id.clone()),
        usbip_path: Some(config.usbip_path.clone()),
    }
}

} // verus!

verus! {

/// Each setting comes from the command line when given there, else from
/// the environment, else from the file, else from its default; the dry-run
/// flag only from the command line.
pub proof fn law_precedence(o: Overrides, env: Environment, stored: StoredConfig)
    requires
        resolved(o, env, stored) is Ok,
    ensures
        ({
            let c = resolved(o, env, stored)->Ok_0;
            &&& Some(c.client_id) == first_given(
                opt_view(o.client_id),
                opt_view(env.client_id),
                opt_view(stored.client_id),
            )
            &&& c.usbip_path == match first_given(
                opt_view(o.usbip_path),
                opt_view(env.usbip_path),
                opt_view(stored.usbip_path),
            ) {
                Some(p) => p,
                None => "usbip.exe"@,
            }
            &&& Ok::<Seq<char>, ClientErrorView>(c.server_url) == server_url_check(
                url_reading(
                    match first_given(
                        opt_view(o.server_url),
                        opt_view(env.server_url),
                        opt_view(stored.server_url),
                    ) {
                        Some(s) => s,
                        None => DEFAULT_SERVER_URL@,
                    },
                ),
            )
            &&& c.dry_run == o.dry_run
        }),
{
}

/// A generated client ID is never blank, so settings that fall back on it
/// never fail for want of an ID.
pub proof fn law_generated_id_usable(u: Seq<char>)
    requires
        uuid_text(u),
    ensures
        !is_blank("windows-"@ + u),
{
    reveal_strlit("windows-");
    assert(("windows-"@ + u)[0] == 'w');
}

} // verus!

verus! {

/// A generated client ID, once saved, is used from then on: a file that
/// holds it does not get another, and unless the command line or the
/// environment names a client, the settings use it.
pub proof fn law_saved_id_is_reused(o: Overrides, env: Environment, t: StoredConfig, u: Seq<char>)
    requires
        uuid_text(u),
        t.client_id matches Some(id) && id@ == "windows-"@ + u,
        o.client_id is None,
        env.client_id is None,
    ensures
        !id_missing(t),
        resolved(o, env, t) matches Ok(c) ==> c.client_id == "windows-"@ + u,
{
    reveal_strlit("windows-");
    assert(("windows-"@ + u).len() > 0);
}

} // verus!

verus! {

/// Loading twice gives the same client ID: the first load generates an ID
/// for a file without one and saves the file (`before` as read, `saved` as
/// written); the second load reads that file back (`saved`) and keeps it
/// (`again`), so both loads resolve to the same settings, whatever the
/// command line and the environment give.
pub proof fn law_two_loads_same_id(
    o: Overrides,
    env: Environment,
    before: StoredConfig,
    saved: StoredConfig,
    again: StoredConfig,
)
    requires
        regenerated(before, saved),
        regenerated(saved, again),
    ensures
        !id_missing(saved),
        again.client_id == saved.client_id,
        resolved(o, env, again) == resolved(o, env, saved),
        id_missing(before) ==> (saved.client_id matches Some(id) && (exists|u: Seq<char>|
            uuid_text(u) && id@ == "windows-"@ + u)),
{
    if id_missing(before) {
        let id = saved.client_id->0;
        let u = choose|u: Seq<char>| uuid_text(u) && id@ == "windows-"@ + u;
        reveal_strlit("windows-");
        assert(id@.len() > 0);
    }
}

} // verus!
