//! Configuration: the YAML file's fields, command-line flags, how the two
//! are merged into the running configuration, and the application's paths.
use vstd::prelude::*;
use crate::http::path_push;
use crate::scripts::first_occurrence;
use crate::text::{
    chars_of, find_from, push_all, push_str, slice_of, split_chars, split_on, string_of, trim,
    trim_chars, occurs_at,
};

verus! {

// ---------------------------------------------------------------------------
// Configuration values
// ---------------------------------------------------------------------------

/// A webhook entry in YAML config: a URL, or a URL with an event filter.
#[derive(Debug)]
pub enum WebhookConfigEntry {
    Simple(String),
    Detailed { url: String, events: Option<Vec<String>> },
}

/// YAML config file structure (config.yml in the data directory).
#[derive(Debug, Default)]
pub struct YamlConfig {
    pub password: Option<String>,
    pub socket_port: Option<u16>,
    pub server_address: Option<String>,
    pub enable_private_api: Option<bool>,
    pub enable_facetime_private_api: Option<bool>,
    pub enable_findmy_private_api: Option<bool>,
    pub markdown_to_formatting: Option<bool>,
    pub webhooks: Option<Vec<WebhookConfigEntry>>,
}

/// Merged configuration (YAML + CLI, with defaults applied).
#[derive(Debug)]
pub struct AppConfig {
    pub password: String,
    pub socket_port: u16,
    pub server_address: String,
    pub enable_private_api: bool,
    pub enable_facetime_private_api: bool,
    pub enable_findmy_private_api: bool,
    pub markdown_to_formatting: bool,
    pub webhooks: Vec<WebhookConfigEntry>,
}

/// The configuration used when nothing is set.
pub open spec fn is_default_config(c: AppConfig) -> bool {
    &&& c.password@ == Seq::<char>::empty()
    &&& c.socket_port == 1234
    &&& c.server_address@ == Seq::<char>::empty()
    &&& !c.enable_private_api
    &&& !c.enable_facetime_private_api
    &&& !c.enable_findmy_private_api
    &&& !c.markdown_to_formatting
    &&& c.webhooks@.len() == 0
}

impl Default for AppConfig {
    fn default() -> (r: Self)
        ensures
            is_default_config(r),
    {
        Self {
            password: String::new(),
            socket_port: 1234,
            server_address: String::new(),
            enable_private_api: false,
            enable_facetime_private_api: false,
            enable_findmy_private_api: false,
            markdown_to_formatting: false,
            webhooks: Vec::new(),
        }
    }
}

pub open spec fn text_or_empty(o: Option<String>) -> Seq<char> {
    match o {
        Some(s) => s@,
        None => Seq::empty(),
    }
}

/// `y` with each unset field given its default.
pub open spec fn applied(y: YamlConfig, c: AppConfig) -> bool {
    &&& c.password@ == text_or_empty(y.password)
    &&& c.socket_port == (match y.socket_port { Some(p) => p, None => 1234 })
    &&& c.server_address@ == text_or_empty(y.server_address)
    &&& c.enable_private_api == (match y.enable_private_api { Some(b) => b, None => false })
    &&& c.enable_facetime_private_api == (match y.enable_facetime_private_api { Some(b) => b, None => false })
    &&& c.enable_findmy_private_api == (match y.enable_findmy_private_api { Some(b) => b, None => false })
    &&& c.markdown_to_formatting == (match y.markdown_to_formatting { Some(b) => b, None => false })
    &&& c.webhooks@ == (match y.webhooks { Some(w) => w@, None => Seq::empty() })
}

fn text_or_new(o: Option<String>) -> (r: String)
    ensures
        r@ == text_or_empty(o),
{
    match o {
        Some(s) => s,
        None => String::new(),
    }
}

impl YamlConfig {
    /// Convert to final AppConfig by applying defaults.
    pub fn into_app_config(self) -> (r: AppConfig)
        ensures
            applied(self, r),
    {
        let YamlConfig {
            password,
            socket_port,
            server_address,
            enable_private_api,
            enable_facetime_private_api,
            enable_findmy_private_api,
            markdown_to_formatting,
            webhooks,
        } = self;
        AppConfig {
            password: text_or_new(password),
            socket_port: match socket_port { Some(p) => p, None => 1234 },
            server_address: text_or_new(server_address),
            enable_private_api: match enable_private_api { Some(b) => b, None => false },
            enable_facetime_private_api: match enable_facetime_private_api { Some(b) => b, None => false },
            enable_findmy_private_api: match enable_findmy_private_api { Some(b) => b, None => false },
            markdown_to_formatting: match markdown_to_formatting { Some(b) => b, None => false },
            webhooks: match webhooks { Some(w) => w, None => Vec::new() },
        }
    }
}

// ---------------------------------------------------------------------------
// Paths
// ---------------------------------------------------------------------------

/// Trusted: calls `home::home_dir` and converts the path to text (lossily);
/// the home directory comes from the environment, so nothing is claimed of it.
#[verifier::external_body]
pub(crate) fn home_dir_text() -> Option<String> {
    home::home_dir().map(|p| p.to_string_lossy().into_owned())
}

/// Paths used by the application.
pub struct AppPaths;

/// The home directory, or `/tmp` when there is none.
pub open spec fn home_or_tmp(home: Option<Seq<char>>) -> Seq<char> {
    match home {
        Some(h) => h,
        None => "/tmp"@,
    }
}

pub open spec fn user_data_path(home: Option<Seq<char>>) -> Seq<char> {
    path_push(path_push(path_push(home_or_tmp(home), "Library"@), "Application Support"@), "imessage-rs"@)
}

pub open spec fn messages_path(home: Option<Seq<char>>) -> Seq<char> {
    path_push(path_push(home_or_tmp(home), "Library"@), "Messages"@)
}

fn opt_view(o: &Option<String>) -> (r: Option<Vec<char>>)
    ensures
        match o {
            Some(s) => r matches Some(v) && v@ == s@,
            None => r is None,
        },
{
    match o {
        Some(s) => Some(chars_of(s.as_str())),
        None => None,
    }
}

pub open spec fn opt_text(o: Option<String>) -> Option<Seq<char>> {
    match o {
        Some(s) => Some(s@),
        None => None,
    }
}

fn join(base: &Vec<char>, seg: &str) -> (r: Vec<char>)
    ensures
        r@ == path_push(base@, seg@),
{
    if base.len() == 0 {
        chars_of(seg)
    } else if base[base.len() - 1] == '/' {
        let mut r = slice_of(base, 0, base.len());
        push_str(&mut r, seg);
        r
    } else {
        let mut r = slice_of(base, 0, base.len());
        r.push('/');
        push_str(&mut r, seg);
        r
    }
}

fn home_chars(home: &Option<String>) -> (r: Vec<char>)
    ensures
        r@ == home_or_tmp(opt_text(*home)),
{
    match opt_view(home) {
        Some(v) => v,
        None => chars_of("/tmp"),
    }
}

impl AppPaths {
    fn user_data_chars(home: &Option<String>) -> (r: Vec<char>)
        ensures
            r@ == user_data_path(opt_text(*home)),
    {
        let h = home_chars(home);
        let a = join(&h, "Library");
        let b = join(&a, "Application Support");
        join(&b, "imessage-rs")
    }

    fn messages_chars(home: &Option<String>) -> (r: Vec<char>)
        ensures
            r@ == messages_path(opt_text(*home)),
    {
        let h = home_chars(home);
        let a = join(&h, "Library");
        join(&a, "Messages")
    }

    /// User data directory under the given home directory.
    pub fn user_data_in(home: &Option<String>) -> (r: String)
        ensures
            r@ == user_data_path(opt_text(*home)),
    {
        string_of(&Self::user_data_chars(home))
    }

    /// PID file location under the given home directory.
    pub fn pid_file_in(home: &Option<String>) -> (r: String)
        ensures
            r@ == path_push(user_data_path(opt_text(*home)), ".imessage-rs.pid"@),
    {
        string_of(&join(&Self::user_data_chars(home), ".imessage-rs.pid"))
    }

    /// iMessage database path under the given home directory.
    pub fn imessage_db_in(home: &Option<String>) -> (r: String)
        ensures
            r@ == path_push(messages_path(opt_text(*home)), "chat.db"@),
    {
        string_of(&join(&Self::messages_chars(home), "chat.db"))
    }

    /// The database's write-ahead log: `chat.db` with the extension `db-wal`.
    pub fn imessage_db_wal_in(home: &Option<String>) -> (r: String)
        ensures
            r@ == path_push(messages_path(opt_text(*home)), "chat.db-wal"@),
    {
        string_of(&join(&Self::messages_chars(home), "chat.db-wal"))
    }

    pub fn attachments_dir_in(home: &Option<String>) -> (r: String)
        ensures
            r@ == path_push(user_data_path(opt_text(*home)), "Attachments"@),
    {
        string_of(&join(&Self::user_data_chars(home), "Attachments"))
    }

    pub fn messages_attachments_dir_in(home: &Option<String>) -> (r: String)
        ensures
            r@ == path_push(path_push(messages_path(opt_text(*home)), "Attachments"@), "imessage-rs"@),
    {
        let a = join(&Self::messages_chars(home), "Attachments");
        string_of(&join(&a, "imessage-rs"))
    }

    pub fn attachment_cache_dir_in(home: &Option<String>) -> (r: String)
        ensures
            r@ == path_push(path_push(user_data_path(opt_text(*home)), "Attachments"@), "Cached"@),
    {
        let a = join(&Self::user_data_chars(home), "Attachments");
        string_of(&join(&a, "Cached"))
    }

    pub fn convert_dir_in(home: &Option<String>) -> (r: String)
        ensures
            r@ == path_push(user_data_path(opt_text(*home)), "Convert"@),
    {
        string_of(&join(&Self::user_data_chars(home), "Convert"))
    }

    pub fn yaml_config_in(home: &Option<String>) -> (r: String)
        ensures
            r@ == path_push(user_data_path(opt_text(*home)), "config.yml"@),
    {
        string_of(&join(&Self::user_data_chars(home), "config.yml"))
    }

    /// User data directory: ~/Library/Application Support/imessage-rs
    pub fn user_data() -> (r: String)
        ensures
            exists|h: Option<String>| r@ == user_data_path(opt_text(h)),
    {
        let h = home_dir_text();
        Self::user_data_in(&h)
    }

    /// PID file location
    pub fn pid_file() -> (r: String)
        ensures
            exists|h: Option<String>| r@ == path_push(user_data_path(opt_text(h)), ".imessage-rs.pid"@),
    {
        let h = home_dir_text();
        Self::pid_file_in(&h)
    }

    /// iMessage database path
    pub fn imessage_db() -> (r: String)
        ensures
            exists|h: Option<String>| r@ == path_push(messages_path(opt_text(h)), "chat.db"@),
    {
        let h = home_dir_text();
        Self::imessage_db_in(&h)
    }

    /// iMessage database WAL path
    pub fn imessage_db_wal() -> (r: String)
        ensures
            exists|h: Option<String>| r@ == path_push(messages_path(opt_text(h)), "chat.db-wal"@),
    {
        let h = home_dir_text();
        Self::imessage_db_wal_in(&h)
    }

    /// Attachments directory (app data)
    pub fn attachments_dir() -> (r: String)
        ensures
            exists|h: Option<String>| r@ == path_push(user_data_path(opt_text(h)), "Attachments"@),
    {
        let h = home_dir_text();
        Self::attachments_dir_in(&h)
    }

    /// Messages attachments directory (inside ~/Library/Messages/).
    pub fn messages_attachments_dir() -> (r: String)
        ensures
            exists|h: Option<String>| r@ == path_push(path_push(messages_path(opt_text(h)), "Attachments"@), "imessage-rs"@),
    {
        let h = home_dir_text();
        Self::messages_attachments_dir_in(&h)
    }

    /// Cached attachments directory
    pub fn attachment_cache_dir() -> (r: String)
        ensures
            exists|h: Option<String>| r@ == path_push(path_push(user_data_path(opt_text(h)), "Attachments"@), "Cached"@),
    {
        let h = home_dir_text();
        Self::attachment_cache_dir_in(&h)
    }

    /// Convert staging directory
    pub fn convert_dir() -> (r: String)
        ensures
            exists|h: Option<String>| r@ == path_push(user_data_path(opt_text(h)), "Convert"@),
    {
        let h = home_dir_text();
        Self::convert_dir_in(&h)
    }

    /// YAML config file path
    pub fn yaml_config() -> (r: String)
        ensures
            exists|h: Option<String>| r@ == path_push(user_data_path(opt_text(h)), "config.yml"@),
    {
        let h = home_dir_text();
        Self::yaml_config_in(&h)
    }

    /// Server version.
    pub fn version() -> (r: &'static str)
        ensures
            r@ == "0.1.0"@,
    {
        "0.1.0"
    }
}

// ---------------------------------------------------------------------------
// Command-line flags
// ---------------------------------------------------------------------------

/// Config flags shared by the top-level command line and `bootstrap`.
#[derive(Debug, Default)]
pub struct ConfigFlags {
    pub password: Option<String>,
    pub socket_port: Option<u16>,
    pub server_address: Option<String>,
    pub enable_private_api: Option<bool>,
    pub enable_facetime_private_api: Option<bool>,
    pub enable_findmy_private_api: Option<bool>,
    pub markdown_to_formatting: Option<bool>,
    /// Webhook targets: `url`, or `url;event1,event2`.
    pub webhook: Vec<String>,
}

/// Command-line arguments.
#[derive(Debug)]
pub struct CliArgs {
    pub command: Option<Command>,
    /// Path to a config file (exclusive with the config flags).
    pub config: Option<String>,
    pub flags: ConfigFlags,
}

/// Subcommands.
#[derive(Debug)]
pub enum Command {
    /// Write configuration to config.yml from CLI flags
    Bootstrap { flags: ConfigFlags },
}

pub open spec fn flags_set(f: ConfigFlags) -> bool {
    ||| f.password is Some
    ||| f.socket_port is Some
    ||| f.server_address is Some
    ||| f.enable_private_api is Some
    ||| f.enable_facetime_private_api is Some
    ||| f.enable_findmy_private_api is Some
    ||| f.markdown_to_formatting is Some
    ||| f.webhook@.len() > 0
}

/// The non-empty trimmed pieces of a comma-separated event list.
pub open spec fn event_list(pieces: Seq<Seq<char>>) -> Seq<Seq<char>>
    decreases pieces.len(),
{
    if pieces.len() == 0 {
        Seq::empty()
    } else {
        let r = event_list(pieces.drop_last());
        let t = trim(pieces.last());
        if t.len() > 0 {
            r.push(t)
        } else {
            r
        }
    }
}

pub open spec fn strings_view(v: Seq<String>) -> Seq<Seq<char>> {
    v.map_values(|s: String| s@)
}

/// The entry a webhook argument gives: `url;events` (split at the first `;`)
/// is a detailed entry, anything else a simple one.
pub open spec fn webhook_entry_of(e: WebhookConfigEntry, arg: Seq<char>) -> bool {
    if arg.contains(';') {
        exists|i: int| {
            &&& first_occurrence(arg, seq![';'], i)
            &&& e matches WebhookConfigEntry::Detailed { url, events }
            &&& url@ == arg.take(i)
            &&& events matches Some(ev)
            &&& strings_view(ev@) == event_list(split_on(arg.skip(i + 1), ','))
        }
    } else {
        e matches WebhookConfigEntry::Simple(u) && u@ == arg
    }
}

fn parse_webhook_arg(arg: &String) -> (r: WebhookConfigEntry)
    ensures
        webhook_entry_of(r, arg@),
{
    let a = chars_of(arg.as_str());
    let mut semi: Vec<char> = Vec::new();
    semi.push(';');
    assert(semi@ =~= seq![';']);
    match find_from(&a, &semi, 0) {
        Some(i) => {
            let url = slice_of(&a, 0, i);
            let rest = slice_of(&a, i + 1, a.len());
            let pieces = split_chars(&rest, ',');
            let ghost ps = split_on(rest@, ',');
            let mut events: Vec<String> = Vec::new();
            let mut k: usize = 0;
            while k < pieces.len()
                invariant
                    k <= pieces.len(),
                    pieces@.len() == ps.len(),
                    forall|j: int| 0 <= j < pieces@.len() ==> #[trigger] pieces@[j]@ == ps[j],
                    strings_view(events@) == event_list(ps.take(k as int)),
                decreases pieces.len() - k,
            {
                assert(ps.take(k + 1).drop_last() =~= ps.take(k as int));
                assert(ps.take(k + 1).last() == pieces@[k as int]@);
                let t = trim_chars(&pieces[k]);
                if t.len() > 0 {
                    let ghost e0 = events@;
                    events.push(string_of(&t));
                    assert(strings_view(events@) =~= strings_view(e0).push(t@));
                }
                k = k + 1;
            }
            assert(ps.take(ps.len() as int) =~= ps);
            assert(arg@.contains(';')) by {
                assert(a@.subrange(i as int, i + 1) =~= seq![';']);
                assert(a@.subrange(i as int, i + 1)[0] == ';');
            }
            let r = WebhookConfigEntry::Detailed { url: string_of(&url), events: Some(events) };
            assert(url@ =~= arg@.take(i as int));
            assert(rest@ =~= arg@.skip(i + 1));
            assert(first_occurrence(arg@, seq![';'], i as int));
            r
        },
        None => {
            assert(!arg@.contains(';')) by {
                if arg@.contains(';') {
                    let j = choose|j: int| 0 <= j < arg@.len() && arg@[j] == ';';
                    assert(a@.subrange(j, j + 1) =~= seq![';']);
                    assert(occurs_at(a@, semi@, j));
                }
            }
            WebhookConfigEntry::Simple(string_of(&a))
        },
    }
}

/// Parse webhook CLI args ("url" or "url;event1,event2") into entries.
pub fn parse_webhook_args(args: &[String]) -> (r: Vec<WebhookConfigEntry>)
    ensures
        r@.len() == args@.len(),
        forall|i: int| 0 <= i < args@.len() ==> webhook_entry_of(#[trigger] r@[i], args@[i]@),
{
    let mut r: Vec<WebhookConfigEntry> = Vec::new();
    let mut i: usize = 0;
    while i < args.len()
        invariant
            i <= args.len(),
            r@.len() == i,
            forall|k: int| 0 <= k < i ==> webhook_entry_of(#[trigger] r@[k], args@[k]@),
        decreases args.len() - i,
    {
        let e = parse_webhook_arg(&args[i]);
        r.push(e);
        i = i + 1;
    }
    r
}

fn copy_text(o: &Option<String>) -> (r: Option<String>)
    ensures
        opt_text(r) == opt_text(*o),
{
    match o {
        Some(s) => Some(string_of(&chars_of(s.as_str()))),
        None => None,
    }
}

/// The YAML configuration the flags describe.
pub open spec fn yaml_of_flags(f: ConfigFlags, y: YamlConfig) -> bool {
    &&& opt_text(y.password) == opt_text(f.password)
    &&& y.socket_port == f.socket_port
    &&& opt_text(y.server_address) == opt_text(f.server_address)
    &&& y.enable_private_api == f.enable_private_api
    &&& y.enable_facetime_private_api == f.enable_facetime_private_api
    &&& y.enable_findmy_private_api == f.enable_findmy_private_api
    &&& y.markdown_to_formatting == f.markdown_to_formatting
    &&& (f.webhook@.len() == 0 ==> y.webhooks is None)
    &&& (f.webhook@.len() > 0 ==> (y.webhooks matches Some(w) && w@.len() == f.webhook@.len()
        && forall|i: int| 0 <= i < w@.len() ==> webhook_entry_of(#[trigger] w@[i], f.webhook@[i]@)))
}

impl ConfigFlags {
    /// Returns true if any config flag was set on the CLI.
    pub fn has_any(&self) -> (r: bool)
        ensures
            r == flags_set(*self),
    {
        self.password.is_some() || self.socket_port.is_some() || self.server_address.is_some()
            || self.enable_private_api.is_some() || self.enable_facetime_private_api.is_some()
            || self.enable_findmy_private_api.is_some() || self.markdown_to_formatting.is_some()
            || self.webhook.len() > 0
    }

    /// Convert CLI flags to a YamlConfig (for bootstrap serialization and merge).
    pub fn to_yaml_config(&self) -> (r: YamlConfig)
        ensures
            yaml_of_flags(*self, r),
    {
        let webhooks = if self.webhook.len() == 0 {
            None
        } else {
            Some(parse_webhook_args(self.webhook.as_slice()))
        };
        YamlConfig {
            password: copy_text(&self.password),
            socket_port: self.socket_port,
            server_address: copy_text(&self.server_address),
            enable_private_api: self.enable_private_api,
            enable_facetime_private_api: self.enable_facetime_private_api,
            enable_findmy_private_api: self.enable_findmy_private_api,
            markdown_to_formatting: self.markdown_to_formatting,
            webhooks,
        }
    }
}

// ---------------------------------------------------------------------------
// Resolving the configuration
// ---------------------------------------------------------------------------

/// Which configuration file has to be read before the configuration can be resolved.
#[derive(Debug)]
pub enum ConfigFileRequest {
    /// The file named by `--config`; it must exist and parse.
    Explicit(String),
    /// The default `config.yml`; defaults apply when it is missing or unreadable.
    Default,
}

/// What reading a configuration file gave.
#[derive(Debug)]
pub enum ConfigFile {
    /// No file at the path.
    Missing,
    Loaded(YamlConfig),
    /// The file could not be read or parsed; the message says which.
    Failed(String),
}

/// The message for a configuration file that could not be read.
pub open spec fn read_failed_message(path: Seq<char>) -> Seq<char> {
    "Failed to read "@ + path
}

/// The message for a configuration file that is not valid YAML for the
/// configuration.
pub open spec fn parse_failed_message(path: Seq<char>) -> Seq<char> {
    "Failed to parse "@ + path
}

/// What reading the configuration file at `path` gave when it could not be
/// read.
pub fn unreadable_config(path: &str) -> (r: ConfigFile)
    ensures
        r matches ConfigFile::Failed(m) && m@ == read_failed_message(path@),
{
    let mut e = chars_of("Failed to read ");
    push_all(&mut e, &chars_of(path));
    ConfigFile::Failed(string_of(&e))
}

/// What reading the configuration file at `path` gave when its text did
/// not parse.
pub fn unparsable_config(path: &str) -> (r: ConfigFile)
    ensures
        r matches ConfigFile::Failed(m) && m@ == parse_failed_message(path@),
{
    let mut e = chars_of("Failed to parse ");
    push_all(&mut e, &chars_of(path));
    ConfigFile::Failed(string_of(&e))
}

/// The file `resolve_config` needs for these arguments, if any.
pub fn config_file_request(cli: &CliArgs) -> (r: Option<ConfigFileRequest>)
    ensures
        match cli.config {
            Some(p) => r matches Some(ConfigFileRequest::Explicit(q)) && q@ == p@,
            None => if flags_set(cli.flags) {
                r is None
            } else {
                r matches Some(ConfigFileRequest::Default)
            },
        },
{
    match &cli.config {
        Some(p) => Some(ConfigFileRequest::Explicit(string_of(&chars_of(p.as_str())))),
        None => {
            if cli.flags.has_any() {
                None
            } else {
                Some(ConfigFileRequest::Default)
            }
        },
    }
}

pub open spec fn not_found_message(path: Seq<char>) -> Seq<char> {
    "Config file not found: "@ + path
}

/// Resolve the final configuration from the command line and the file that
/// `config_file_request` asked for (none when it asked for none):
/// - `--config path`: that file, which must exist and parse;
/// - any config flag set: the flags alone;
/// - otherwise the default file, with defaults when it is missing or bad.
pub fn resolve_config(cli: &CliArgs, file: Option<ConfigFile>) -> (r: Result<AppConfig, String>)
    ensures
        cli.config matches Some(p) ==> {
            &&& (file matches Some(ConfigFile::Loaded(y)) ==> (r matches Ok(c) && applied(y, c)))
            &&& (file matches Some(ConfigFile::Failed(m)) ==> (r matches Err(e) && e@ == m@))
            &&& (file is None || file matches Some(ConfigFile::Missing)) ==> (r matches Err(e)
                && e@ == not_found_message(p@))
        },
        cli.config is None && flags_set(cli.flags) ==> (r matches Ok(c) && exists|y: YamlConfig|
            #[trigger] yaml_of_flags(cli.flags, y) && applied(y, c)),
        cli.config is None && !flags_set(cli.flags) ==> {
            &&& (file matches Some(ConfigFile::Loaded(y)) ==> (r matches Ok(c) && applied(y, c)))
            &&& !(file matches Some(ConfigFile::Loaded(_))) ==> (r matches Ok(c) && is_default_config(c))
        },
{
    match &cli.config {
        Some(p) => match file {
            Some(ConfigFile::Loaded(y)) => {
                let ghost yg = y;
                let c = y.into_app_config();
                assert(applied(yg, c));
                Ok(c)
            },
            Some(ConfigFile::Failed(m)) => {
                let ghost mg = m;
                assert(file == Some(ConfigFile::Failed(mg)));
                Err(m)
            },
            _ => {
                let mut e = chars_of("Config file not found: ");
                let pc = chars_of(p.as_str());
                push_all(&mut e, &pc);
                let es = string_of(&e);
                assert(es@ == not_found_message(p@));
                Err(es)
            },
        },
        None => {
            if cli.flags.has_any() {
                let y = cli.flags.to_yaml_config();
                let ghost yg = y;
                let c = y.into_app_config();
                assert(yaml_of_flags(cli.flags, yg) && applied(yg, c));
                assert(exists|y: YamlConfig| #[trigger] yaml_of_flags(cli.flags, y) && applied(y, c));
                Ok(c)
            } else {
                match file {
                    Some(ConfigFile::Loaded(y)) => Ok(y.into_app_config()),
                    _ => Ok(AppConfig::default()),
                }
            }
        },
    }
}

} // verus!
