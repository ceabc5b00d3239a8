//! What the setup of a daemon writes, and how further clients are made known to it.

use crate::config::{
    ClientConfig, DaemonConfig, Effect, PkiConfig, PolicyConfig, SecretsConfig, ServerConfig,
};
use crate::ordered::{ascending, sorted_unique};
use crate::pki::{
    authority_cert, client_profile, daemon_profile, is_authority_text, issued,
    make_further_client_cert, make_setup_certs, public_key_in, BuiltCert, PkiError, SetupCerts,
};
use crate::text::{copy_texts, decimal, decimal_digits, join_path, path_join, texts, trim, trimmed};
use vstd::prelude::*;
use vstd::string::*;
use vstd::utf8::is_ascii_chars;

verus! {

/// Where the files of a daemon go, if nothing else is said.
pub const DEFAULT_OUT_DIR: &'static str = "./warden-state";

/// Where a daemon listens, if nothing else is said.
pub const DEFAULT_LISTEN: &'static str = "0.0.0.0:50051";

/// The name of a daemon, if nothing else is said.
pub const DEFAULT_SERVER_DOMAIN: &'static str = "localhost";

/// The name of the first client, if nothing else is said.
pub const DEFAULT_CLIENT_NAME: &'static str = "default-client";

/// What is said beforehand about a setup. What is not said is asked for.
#[derive(Debug, Clone)]
pub struct SetupOptions {
    pub out_dir: Option<String>,
    pub listen: Option<String>,
    pub server_domain: Option<String>,
    pub sans: Vec<String>,
    pub client_name: Option<String>,
}

/// Why a setup is refused.
#[derive(Debug, Clone)]
pub enum SetupError {
    /// The listen address has no character but white space.
    EmptyListen,
    /// The listen address is none.
    InvalidListen { listen: String },
    /// The host of the listen address has no address.
    UnresolvedListen { listen: String },
    /// The server domain has no character but white space.
    EmptyServerDomain,
}

/// What is said of a setup that is refused.
pub open spec fn setup_refusal(error: SetupError) -> Seq<char> {
    match error {
        SetupError::EmptyListen => "invalid listen address: value is empty"@,
        SetupError::InvalidListen { listen } => "invalid listen address '"@ + listen@ + "'"@,
        SetupError::UnresolvedListen { listen } => "invalid listen address '"@ + listen@
            + "': resolved to no addresses"@,
        SetupError::EmptyServerDomain => "invalid server domain: value is empty"@,
    }
}

impl SetupError {
    /// What is said of a setup that is refused.
    pub fn message(&self) -> (text: String)
        ensures
            text@ == setup_refusal(*self),
    {
        match self {
            SetupError::EmptyListen => "invalid listen address: value is empty".to_owned(),
            SetupError::InvalidListen { listen } => {
                let mut text = "invalid listen address '".to_owned();
                text.append(listen.as_str());
                text.append("'");
                text
            },
            SetupError::UnresolvedListen { listen } => {
                let mut text = "invalid listen address '".to_owned();
                text.append(listen.as_str());
                text.append("': resolved to no addresses");
                text
            },
            SetupError::EmptyServerDomain => "invalid server domain: value is empty".to_owned(),
        }
    }
}

/// The address of a socket: its text and its port.
#[derive(Debug, Clone)]
pub struct ListenAddr {
    pub text: String,
    pub port: u16,
}

/// The text of a listen address that is to be read: what is said, without the white space
/// around it.
pub fn listen_text(listen: &str) -> (r: Result<String, SetupError>)
    ensures
        match r {
            Ok(text) => trimmed(listen@).len() > 0 && text@ == trimmed(listen@),
            Err(e) => trimmed(listen@).len() == 0 && e is EmptyListen,
        },
{
    let text = trim(listen);
    if text.as_str().is_empty() {
        return Err(SetupError::EmptyListen);
    }
    Ok(text)
}

/// The address that a daemon listens on: what the text was read as, or else the first of the
/// addresses that its host has. `parsed` is given where the text is a socket address, and
/// `resolved` where its host could be looked up.
pub fn normalize_listen_addr(
    listen: &str,
    parsed: Option<ListenAddr>,
    resolved: Option<Vec<ListenAddr>>,
) -> (r: Result<ListenAddr, SetupError>)
    ensures
        match r {
            Ok(addr) => trimmed(listen@).len() > 0 && match (parsed, resolved) {
                (Some(read), _) => addr.text@ == read.text@ && addr.port == read.port,
                (None, Some(list)) => list@.len() > 0 && addr.text@ == list@[0].text@ && addr.port
                    == list@[0].port,
                (None, None) => false,
            },
            Err(SetupError::EmptyListen) => trimmed(listen@).len() == 0,
            Err(SetupError::InvalidListen { listen: said }) => {
                &&& trimmed(listen@).len() > 0
                &&& parsed is None && resolved is None
                &&& said@ == listen@
            },
            Err(SetupError::UnresolvedListen { listen: said }) => {
                &&& trimmed(listen@).len() > 0
                &&& parsed is None
                &&& resolved matches Some(list) && list@.len() == 0
                &&& said@ == listen@
            },
            Err(SetupError::EmptyServerDomain) => false,
        },
{
    if let Err(e) = listen_text(listen) {
        return Err(e);
    }
    match parsed {
        Some(addr) => Ok(addr),
        None => match resolved {
            None => Err(SetupError::InvalidListen { listen: listen.to_owned() }),
            Some(list) => if list.len() == 0 {
                Err(SetupError::UnresolvedListen { listen: listen.to_owned() })
            } else {
                Ok(ListenAddr { text: list[0].text.clone(), port: list[0].port })
            },
        },
    }
}

/// The address that clients connect to.
pub open spec fn server_uri(port: u16, domain: Seq<char>) -> Seq<char> {
    "https://"@ + trimmed(domain) + ":"@ + decimal_digits(port as nat)
}

/// The address that clients connect to. A domain without a character but white space is
/// refused.
pub fn server_uri_from_listen(port: u16, domain: &str) -> (r: Result<String, SetupError>)
    ensures
        match r {
            Ok(uri) => trimmed(domain@).len() > 0 && uri@ == server_uri(port, domain@),
            Err(e) => trimmed(domain@).len() == 0 && e is EmptyServerDomain,
        },
{
    let domain = trim(domain);
    if domain.as_str().is_empty() {
        return Err(SetupError::EmptyServerDomain);
    }
    let mut uri = "https://".to_owned();
    uri.append(domain.as_str());
    uri.append(":");
    uri.append(decimal(port as u64).as_str());
    Ok(uri)
}

/// Whether `names` are those that the certificate of a daemon is for: its domain and the further
/// ones, each once and in ascending order.
pub open spec fn are_daemon_names(
    names: Seq<Seq<char>>,
    server_domain: Seq<char>,
    sans: Seq<Seq<char>>,
) -> bool {
    &&& ascending(names)
    &&& forall|name: Seq<char>| #[trigger]
        names.contains(name) <==> name == server_domain || sans.contains(name)
}

/// The names that the certificate of a daemon is for.
pub fn daemon_sans(server_domain: &str, sans: &[String]) -> (names: Vec<String>)
    ensures
        are_daemon_names(texts(names@), server_domain@, texts(sans@)),
        names@.len() > 0,
{
    let mut all: Vec<String> = copy_texts(sans);
    let ghost before = texts(all@);
    all.push(server_domain.to_owned());
    let names = sorted_unique(all.as_slice());
    proof {
        let now = texts(all@);
        assert(now =~= before.push(server_domain@));
        assert forall|name: Seq<char>| #[trigger] now.contains(name) <==> name == server_domain@
            || before.contains(name) by {
            if before.contains(name) {
                let i = choose|i: int| 0 <= i < before.len() && before[i] == name;
                assert(now[i] == name);
            }
            assert(now[before.len() as int] == server_domain@);
        }
        assert(now.contains(server_domain@));
        assert(texts(names@).contains(server_domain@));
    }
    names
}

/// The name of the file with the certificate of a client.
pub open spec fn cert_file(name: Seq<char>) -> Seq<char> {
    name + "-cert.pem"@
}

/// The name of the file with the key of a client.
pub open spec fn key_file(name: Seq<char>) -> Seq<char> {
    name + "-key.pem"@
}

fn cert_file_name(name: &str) -> (file: String)
    ensures
        file@ == cert_file(name@),
{
    let mut file = name.to_owned();
    file.append("-cert.pem");
    file
}

fn key_file_name(name: &str) -> (file: String)
    ensures
        file@ == key_file(name@),
{
    let mut file = name.to_owned();
    file.append("-key.pem");
    file
}

/// Where the files of a client go.
#[derive(Debug, Clone)]
pub struct ClientFiles {
    pub cert_path: String,
    pub key_path: String,
}

impl ClientFiles {
    /// Whether these are the places of a client of this name, under the directory of the clients.
    pub open spec fn are_of(&self, clients_dir: Seq<char>, name: Seq<char>) -> bool {
        &&& self.cert_path@ == path_join(clients_dir, cert_file(name))
        &&& self.key_path@ == path_join(clients_dir, key_file(name))
    }
}

/// Where the files of a client go, under the directory of the clients.
pub fn client_files(clients_dir: &str, name: &str) -> (files: ClientFiles)
    ensures
        files.are_of(clients_dir@, name@),
{
    let cert = cert_file_name(name);
    let key = key_file_name(name);
    ClientFiles {
        cert_path: join_path(clients_dir, cert.as_str()),
        key_path: join_path(clients_dir, key.as_str()),
    }
}

/// Where the files of a daemon go.
#[derive(Debug, Clone)]
pub struct Layout {
    pub pki_dir: String,
    pub clients_dir: String,
    pub config_dir: String,
    pub ca_cert_path: String,
    pub ca_key_path: String,
    pub daemon_cert_path: String,
    pub daemon_key_path: String,
    pub secrets_path: String,
    pub daemon_config_path: String,
}

impl Layout {
    /// Whether these are the places under the directory `out_dir`.
    pub open spec fn is_under(&self, out_dir: Seq<char>) -> bool {
        &&& self.pki_dir@ == path_join(out_dir, "pki"@)
        &&& self.clients_dir@ == path_join(self.pki_dir@, "clients"@)
        &&& self.config_dir@ == path_join(out_dir, "config"@)
        &&& self.ca_cert_path@ == path_join(self.pki_dir@, "ca-cert.pem"@)
        &&& self.ca_key_path@ == path_join(self.pki_dir@, "ca-key.pem"@)
        &&& self.daemon_cert_path@ == path_join(self.pki_dir@, "daemon-cert.pem"@)
        &&& self.daemon_key_path@ == path_join(self.pki_dir@, "daemon-key.pem"@)
        &&& self.secrets_path@ == path_join(out_dir, "secrets.txt"@)
        &&& self.daemon_config_path@ == path_join(self.config_dir@, "daemon.toml"@)
    }

    /// The places under the directory `out_dir`.
    pub fn new(out_dir: &str) -> (layout: Layout)
        ensures
            layout.is_under(out_dir@),
    {
        let pki_dir = join_path(out_dir, "pki");
        let config_dir = join_path(out_dir, "config");
        Layout {
            clients_dir: join_path(pki_dir.as_str(), "clients"),
            ca_cert_path: join_path(pki_dir.as_str(), "ca-cert.pem"),
            ca_key_path: join_path(pki_dir.as_str(), "ca-key.pem"),
            daemon_cert_path: join_path(pki_dir.as_str(), "daemon-cert.pem"),
            daemon_key_path: join_path(pki_dir.as_str(), "daemon-key.pem"),
            secrets_path: join_path(out_dir, "secrets.txt"),
            daemon_config_path: join_path(config_dir.as_str(), "daemon.toml"),
            pki_dir,
            config_dir,
        }
    }
}

/// Whether `cfg` is the configuration of a new daemon: it knows no command, and denies whatever
/// is asked.
pub open spec fn is_new_daemon_config(
    cfg: DaemonConfig,
    layout: Layout,
    listen: Seq<char>,
    server_uri: Seq<char>,
    server_domain: Seq<char>,
) -> bool {
    &&& cfg.server.listen@ == listen
    &&& cfg.server.tls_cert_path@ == layout.daemon_cert_path@
    &&& cfg.server.tls_key_path@ == layout.daemon_key_path@
    &&& cfg.server.client_ca_cert_path@ == layout.ca_cert_path@
    &&& cfg.pki.ca_cert_path@ == layout.ca_cert_path@
    &&& cfg.pki.ca_key_path@ == layout.ca_key_path@
    &&& cfg.pki.clients_dir@ == layout.clients_dir@
    &&& cfg.pki.server_uri@ == server_uri
    &&& cfg.pki.server_domain@ == server_domain
    &&& cfg.policy.default == Effect::Deny
    &&& cfg.policy.ask_requires_intent
    &&& cfg.policy.allow_hook_timeout_secs == 1800
    &&& cfg.policy.allow_hook is None
    &&& cfg.policy.allow@.len() == 0
    &&& cfg.policy.deny@.len() == 0
    &&& cfg.policy.ask@.len() == 0
    &&& cfg.commands@.len() == 0
    &&& cfg.secrets matches Some(secrets) && secrets.file@ == layout.secrets_path@
    &&& cfg.rules@.len() == 0
}

/// The configuration of a new daemon.
pub fn daemon_config(
    layout: &Layout,
    listen: &str,
    server_uri: &str,
    server_domain: &str,
) -> (cfg: DaemonConfig)
    ensures
        is_new_daemon_config(cfg, *layout, listen@, server_uri@, server_domain@),
{
    DaemonConfig {
        server: ServerConfig {
            listen: listen.to_owned(),
            tls_cert_path: layout.daemon_cert_path.clone(),
            tls_key_path: layout.daemon_key_path.clone(),
            client_ca_cert_path: layout.ca_cert_path.clone(),
        },
        pki: PkiConfig {
            ca_cert_path: layout.ca_cert_path.clone(),
            ca_key_path: layout.ca_key_path.clone(),
            clients_dir: layout.clients_dir.clone(),
            server_uri: server_uri.to_owned(),
            server_domain: server_domain.to_owned(),
        },
        policy: PolicyConfig {
            default: Effect::Deny,
            ask_requires_intent: true,
            allow_hook_timeout_secs: 1800,
            allow_hook: None,
            allow: Vec::new(),
            deny: Vec::new(),
            ask: Vec::new(),
        },
        commands: Vec::new(),
        secrets: Some(SecretsConfig { file: layout.secrets_path.clone() }),
        rules: Vec::new(),
    }
}

/// Where the files of a client lie on the client's machine.
pub const CLIENT_PKI_DIR: &'static str = "~/.config/cli-warden/pki/";

/// Whether `cfg` is the configuration of a client of this name.
pub open spec fn is_client_config(
    cfg: ClientConfig,
    server_uri: Seq<char>,
    server_domain: Seq<char>,
    name: Seq<char>,
) -> bool {
    &&& cfg.server_uri@ == server_uri
    &&& cfg.server_domain@ == server_domain
    &&& cfg.ca_cert_path@ == CLIENT_PKI_DIR@ + "ca-cert.pem"@
    &&& cfg.client_cert_path@ == CLIENT_PKI_DIR@ + cert_file(name)
    &&& cfg.client_key_path@ == CLIENT_PKI_DIR@ + key_file(name)
}

/// The configuration of a client.
pub fn client_config(server_uri: &str, server_domain: &str, name: &str) -> (cfg: ClientConfig)
    ensures
        is_client_config(cfg, server_uri@, server_domain@, name@),
{
    let mut ca_cert_path = CLIENT_PKI_DIR.to_owned();
    ca_cert_path.append("ca-cert.pem");
    let mut client_cert_path = CLIENT_PKI_DIR.to_owned();
    let cert = cert_file_name(name);
    client_cert_path.append(cert.as_str());
    let mut client_key_path = CLIENT_PKI_DIR.to_owned();
    let key = key_file_name(name);
    client_key_path.append(key.as_str());
    ClientConfig {
        server_uri: server_uri.to_owned(),
        server_domain: server_domain.to_owned(),
        ca_cert_path,
        client_cert_path,
        client_key_path,
    }
}

/// A line that sets a text in a configuration file.
pub open spec fn setting(key: Seq<char>, value: Seq<char>) -> Seq<char> {
    key + " = \""@ + value + "\"\n"@
}

fn append_setting(out: &mut String, key: &str, value: &str)
    ensures
        final(out)@ == old(out)@ + setting(key@, value@),
{
    let ghost before = out@;
    out.append(key);
    out.append(" = \"");
    out.append(value);
    out.append("\"\n");
    assert(out@ =~= before + setting(key@, value@));
}

/// The commands that write the configuration of a client.
pub open spec fn bootstrap(cfg: ClientConfig) -> Seq<char> {
    "\nClient bootstrap snippet (paste on client machine):\n\n"@
        + "mkdir -p ~/.config/cli-warden\n"@
        + "cat > ~/.config/cli-warden/client.toml <<'EOF'\n"@ + setting(
        "server_uri"@,
        cfg.server_uri@,
    ) + setting("server_domain"@, cfg.server_domain@) + setting("ca_cert_path"@, cfg.ca_cert_path@)
        + setting("client_cert_path"@, cfg.client_cert_path@) + setting(
        "client_key_path"@,
        cfg.client_key_path@,
    ) + "EOF\n\n"@
}

/// The commands that write the configuration of a client, as they are printed.
pub fn print_client_bootstrap(cfg: &ClientConfig) -> (text: String)
    ensures
        text@ == bootstrap(*cfg),
{
    let mut text = "\nClient bootstrap snippet (paste on client machine):\n\n".to_owned();
    text.append("mkdir -p ~/.config/cli-warden\n");
    text.append("cat > ~/.config/cli-warden/client.toml <<'EOF'\n");
    append_setting(&mut text, "server_uri", cfg.server_uri.as_str());
    append_setting(&mut text, "server_domain", cfg.server_domain.as_str());
    append_setting(&mut text, "ca_cert_path", cfg.ca_cert_path.as_str());
    append_setting(&mut text, "client_cert_path", cfg.client_cert_path.as_str());
    append_setting(&mut text, "client_key_path", cfg.client_key_path.as_str());
    text.append("EOF\n\n");
    text
}

/// A file that is to be written.
#[derive(Debug, Clone)]
pub struct FileWrite {
    pub path: String,
    pub content: String,
}

/// The paths of files, each with what is written there.
pub open spec fn write_views(writes: Seq<FileWrite>) -> Seq<(Seq<char>, Seq<char>)> {
    writes.map_values(|w: FileWrite| (w.path@, w.content@))
}

fn add_write(writes: &mut Vec<FileWrite>, path: &String, content: &String)
    ensures
        write_views(final(writes)@) == write_views(old(writes)@).push((path@, content@)),
{
    let ghost before = writes@;
    let write = FileWrite { path: path.clone(), content: content.clone() };
    assert(write_views(before.push(write)) =~= write_views(before).push((path@, content@)));
    writes.push(write);
}

/// The certificates and the keys of a new daemon, each with its path.
pub open spec fn cert_writes(layout: Layout, files: ClientFiles, certs: SetupCerts) -> Seq<
    (Seq<char>, Seq<char>),
> {
    seq![
        (layout.ca_cert_path@, certs.ca.cert_pem@),
        (layout.ca_key_path@, certs.ca.key_pem@),
        (layout.daemon_cert_path@, certs.daemon.cert_pem@),
        (layout.daemon_key_path@, certs.daemon.key_pem@),
        (files.cert_path@, certs.client.cert_pem@),
        (files.key_path@, certs.client.key_pem@),
    ]
}

/// The files with the certificates and the keys of a new daemon.
pub fn setup_writes(layout: &Layout, files: &ClientFiles, certs: &SetupCerts) -> (writes: Vec<
    FileWrite,
>)
    ensures
        write_views(writes@) == cert_writes(*layout, *files, *certs),
{
    let mut writes: Vec<FileWrite> = Vec::new();
    assert(write_views(writes@) =~= seq![]);
    add_write(&mut writes, &layout.ca_cert_path, &certs.ca.cert_pem);
    add_write(&mut writes, &layout.ca_key_path, &certs.ca.key_pem);
    add_write(&mut writes, &layout.daemon_cert_path, &certs.daemon.cert_pem);
    add_write(&mut writes, &layout.daemon_key_path, &certs.daemon.key_pem);
    add_write(&mut writes, &files.cert_path, &certs.client.cert_pem);
    add_write(&mut writes, &files.key_path, &certs.client.key_pem);
    writes
}

/// The files with the certificate and the key of a client.
pub fn client_writes(files: &ClientFiles, client: &BuiltCert) -> (writes: Vec<FileWrite>)
    ensures
        write_views(writes@) == seq![
            (files.cert_path@, client.cert_pem@),
            (files.key_path@, client.key_pem@),
        ],
{
    let mut writes: Vec<FileWrite> = Vec::new();
    assert(write_views(writes@) =~= seq![]);
    add_write(&mut writes, &files.cert_path, &client.cert_pem);
    add_write(&mut writes, &files.key_path, &client.key_pem);
    writes
}

/// What is printed once a daemon is set up.
pub open spec fn setup_text(layout: Layout, files: ClientFiles, cfg: ClientConfig) -> Seq<char> {
    "\nSetup complete.\nDaemon config: "@ + layout.daemon_config_path@
        + "\n\nCopy these files to the client machine:\n- "@ + layout.ca_cert_path@ + "\n- "@
        + files.cert_path@ + "\n- "@ + files.key_path@ + "\n"@ + bootstrap(cfg)
}

/// What is printed once a further client is made known.
pub open spec fn emit_text(name: Seq<char>, files: ClientFiles, cfg: ClientConfig) -> Seq<char> {
    "Generated client cert/key for '"@ + name + "'.\nClient cert: "@ + files.cert_path@
        + "\nClient key : "@ + files.key_path@ + "\n"@ + bootstrap(cfg)
}

/// How a setup ends: the configuration of the daemon, that of its first client, and what is
/// printed.
#[derive(Debug, Clone)]
pub struct SetupResult {
    pub daemon: DaemonConfig,
    pub client: ClientConfig,
    pub text: String,
}

/// A setup: where its files go, its certificates, the files to be written with them, and how it
/// ends once they are written.
#[derive(Debug)]
pub struct Setup {
    pub layout: Layout,
    pub files: ClientFiles,
    pub names: Vec<String>,
    pub certs: SetupCerts,
    pub writes: Vec<FileWrite>,
    pub result: Result<SetupResult, SetupError>,
}

impl Setup {
    /// Whether this is the setup of a daemon under the directory `out_dir`, with its
    /// certificates. It ends well unless its domain has no character but white space.
    pub open spec fn is_of(
        &self,
        out_dir: Seq<char>,
        listen: ListenAddr,
        server_domain: Seq<char>,
        client_name: Seq<char>,
    ) -> bool {
        let uri = server_uri(listen.port, server_domain);
        &&& self.layout.is_under(out_dir)
        &&& self.files.are_of(self.layout.clients_dir@, client_name)
        &&& write_views(self.writes@) == cert_writes(self.layout, self.files, self.certs)
        &&& match self.result {
            Ok(result) => {
                &&& trimmed(server_domain).len() > 0
                &&& is_new_daemon_config(
                    result.daemon,
                    self.layout,
                    listen.text@,
                    uri,
                    server_domain,
                )
                &&& is_client_config(result.client, uri, server_domain, client_name)
                &&& result.text@ == setup_text(self.layout, self.files, result.client)
            },
            Err(e) => trimmed(server_domain).len() == 0 && e is EmptyServerDomain,
        }
    }
}

fn end_setup(
    layout: &Layout,
    files: &ClientFiles,
    listen: &ListenAddr,
    server_domain: &str,
    client_name: &str,
) -> (r: Result<SetupResult, SetupError>)
    ensures
        match r {
            Ok(result) => {
                let uri = server_uri(listen.port, server_domain@);
                &&& trimmed(server_domain@).len() > 0
                &&& is_new_daemon_config(
                    result.daemon,
                    *layout,
                    listen.text@,
                    uri,
                    server_domain@,
                )
                &&& is_client_config(result.client, uri, server_domain@, client_name@)
                &&& result.text@ == setup_text(*layout, *files, result.client)
            },
            Err(e) => trimmed(server_domain@).len() == 0 && e is EmptyServerDomain,
        },
{
    let uri = match server_uri_from_listen(listen.port, server_domain) {
        Ok(uri) => uri,
        Err(e) => {
            return Err(e);
        },
    };
    let daemon = daemon_config(layout, listen.text.as_str(), uri.as_str(), server_domain);
    let client = client_config(uri.as_str(), server_domain, client_name);
    let mut text = "\nSetup complete.\nDaemon config: ".to_owned();
    text.append(layout.daemon_config_path.as_str());
    text.append("\n\nCopy these files to the client machine:\n- ");
    text.append(layout.ca_cert_path.as_str());
    text.append("\n- ");
    text.append(files.cert_path.as_str());
    text.append("\n- ");
    text.append(files.key_path.as_str());
    text.append("\n");
    let snippet = print_client_bootstrap(&client);
    text.append(snippet.as_str());
    Ok(SetupResult { daemon, client, text })
}

/// The setup of a daemon whose certificates are made: `certs`, under the names `names`.
pub fn setup_with(
    out_dir: &str,
    listen: &ListenAddr,
    server_domain: &str,
    client_name: &str,
    names: Vec<String>,
    certs: SetupCerts,
) -> (setup: Setup)
    ensures
        setup.is_of(out_dir@, *listen, server_domain@, client_name@),
        setup.names == names,
        setup.certs == certs,
{
    let layout = Layout::new(out_dir);
    let files = client_files(layout.clients_dir.as_str(), client_name);
    let writes = setup_writes(&layout, &files, &certs);
    let result = end_setup(&layout, &files, listen, server_domain, client_name);
    Setup { layout, files, names, certs, writes, result }
}

/// The setup of a daemon under the directory `out_dir`: its certificates are made for its domain
/// and the further names `sans`, each of which has to be ASCII. Beyond that, whether there are
/// certificates rests on the system's random numbers.
pub fn run_setup(
    out_dir: &str,
    listen: &ListenAddr,
    server_domain: &str,
    client_name: &str,
    sans: &[String],
) -> (r: Result<Setup, PkiError>)
    ensures
        r matches Ok(setup) ==> {
            let ca = authority_cert(public_key_in(setup.certs.ca.key_pem@)->0);
            &&& setup.is_of(out_dir@, *listen, server_domain@, client_name@)
            &&& are_daemon_names(texts(setup.names@), server_domain@, texts(sans@))
            &&& forall|i: int|
                0 <= i < setup.names@.len() ==> is_ascii_chars(#[trigger] setup.names@[i]@)
            &&& is_authority_text(setup.certs.ca)
            &&& issued(setup.certs.daemon, daemon_profile(texts(setup.names@)), ca)
            &&& issued(setup.certs.client, client_profile(client_name@), ca)
        },
        r matches Err(e) ==> e is Rcgen,
{
    let names = daemon_sans(server_domain, sans);
    match make_setup_certs(names.as_slice(), client_name) {
        Ok(certs) => Ok(setup_with(out_dir, listen, server_domain, client_name, names, certs)),
        Err(e) => Err(e),
    }
}

/// A further client: where its files go, the files to be written, its configuration, and what is
/// printed.
#[derive(Debug, Clone)]
pub struct EmittedClient {
    pub files: ClientFiles,
    pub cert: BuiltCert,
    pub writes: Vec<FileWrite>,
    pub config: ClientConfig,
    pub text: String,
}

impl EmittedClient {
    /// Whether this is a further client of this name, with its certificate.
    pub open spec fn is_of(&self, pki: PkiConfig, name: Seq<char>) -> bool {
        &&& self.files.are_of(pki.clients_dir@, name)
        &&& write_views(self.writes@) == seq![
            (self.files.cert_path@, self.cert.cert_pem@),
            (self.files.key_path@, self.cert.key_pem@),
        ]
        &&& is_client_config(self.config, pki.server_uri@, pki.server_domain@, name)
        &&& self.text@ == emit_text(name, self.files, self.config)
    }
}

/// A further client whose certificate is made.
pub fn emit_with(pki: &PkiConfig, name: &str, cert: BuiltCert) -> (client: EmittedClient)
    ensures
        client.is_of(*pki, name@),
        client.cert == cert,
{
    let files = client_files(pki.clients_dir.as_str(), name);
    let writes = client_writes(&files, &cert);
    let config = client_config(pki.server_uri.as_str(), pki.server_domain.as_str(), name);
    let mut text = "Generated client cert/key for '".to_owned();
    text.append(name);
    text.append("'.\nClient cert: ");
    text.append(files.cert_path.as_str());
    text.append("\nClient key : ");
    text.append(files.key_path.as_str());
    text.append("\n");
    let snippet = print_client_bootstrap(&config);
    text.append(snippet.as_str());
    EmittedClient { files, cert, writes, config, text }
}

/// A further client, whose certificate is issued by the authority with the given private key. A
/// text without a key is refused. Beyond that, whether there is a certificate rests on the
/// system's random numbers.
pub fn emit_client(pki: &PkiConfig, ca_key_pem: &str, name: &str) -> (r: Result<
    EmittedClient,
    PkiError,
>)
    ensures
        r matches Ok(client) ==> {
            &&& client.is_of(*pki, name@)
            &&& public_key_in(ca_key_pem@) is Some
            &&& issued(
                client.cert,
                client_profile(name@),
                authority_cert(public_key_in(ca_key_pem@)->0),
            )
        },
        r matches Err(e) ==> e is Rcgen,
{
    match make_further_client_cert(ca_key_pem, name) {
        Ok(cert) => Ok(emit_with(pki, name, cert)),
        Err(e) => Err(e),
    }
}

} // verus!
