//! What a setup writes, and how its parts fit together.

use crate::config::{ClientConfig, Effect, PkiConfig};
use crate::setup::{
    are_daemon_names, bootstrap, emit_text, is_client_config, server_uri, setup_refusal, setup_text, setting,
    write_views, ClientFiles, EmittedClient, Layout, ListenAddr, Setup, SetupError,
};
use crate::text::{decimal_digits, lemma_text_less_irreflexive, text_less};
use crate::text_laws::{
    is_blank, is_tight, law_paths_are_joined_by_one_separator,
    law_trimming_removes_the_white_space_around,
};
use vstd::prelude::*;

verus! {

/// Clients connect by TLS to the name of the daemon, without the white space around it, and to
/// the port that it listens on.
pub proof fn law_clients_connect_to_the_name_and_the_port(
    before: Seq<char>,
    domain: Seq<char>,
    after: Seq<char>,
    port: u16,
)
    requires
        is_blank(before),
        is_blank(after),
        is_tight(domain),
    ensures
        server_uri(port, before + domain + after) == "https://"@ + domain + ":"@ + decimal_digits(
            port as nat,
        ),
{
    law_trimming_removes_the_white_space_around(before, domain, after);
}

/// The certificate of a daemon is for its domain and for all the further names, each once and in
/// ascending order, and for nothing else.
pub proof fn law_names_of_a_daemon(
    names: Seq<Seq<char>>,
    domain: Seq<char>,
    sans: Seq<Seq<char>>,
)
    requires
        are_daemon_names(names, domain, sans),
    ensures
        names.contains(domain),
        forall|i: int| 0 <= i < sans.len() ==> names.contains(#[trigger] sans[i]),
        forall|i: int|
            0 <= i < names.len() ==> #[trigger] names[i] == domain || sans.contains(names[i]),
        forall|i: int, j: int|
            0 <= i < j < names.len() ==> #[trigger] names[i] != #[trigger] names[j] && text_less(
                names[i],
                names[j],
            ),
{
    assert forall|i: int| 0 <= i < sans.len() implies names.contains(#[trigger] sans[i]) by {
        assert(sans.contains(sans[i]));
    }
    assert forall|i: int| 0 <= i < names.len() implies #[trigger] names[i] == domain
        || sans.contains(names[i]) by {
        assert(names.contains(names[i]));
    }
    assert forall|i: int, j: int| 0 <= i < j < names.len() implies #[trigger] names[i]
        != #[trigger] names[j] && text_less(names[i], names[j]) by {
        lemma_text_less_irreflexive(names[i]);
    }
}

proof fn lemma_under(dir: Seq<char>, name: Seq<char>)
    requires
        dir.len() > 0,
        dir.last() != '/',
        name.len() > 0,
        name[0] != '/',
    ensures
        crate::text::path_join(dir, name) == dir + seq!['/'] + name,
{
    law_paths_are_joined_by_one_separator(dir, name);
}

/// Everything that a setup writes lies under its directory: the keys and certificates under
/// `pki`, those of the clients under `clients` there, and the configuration under `config`.
pub proof fn law_files_lie_under_the_directory(layout: Layout, out_dir: Seq<char>)
    requires
        layout.is_under(out_dir),
        out_dir.len() > 0,
        out_dir.last() != '/',
    ensures
        ({
            let pki = out_dir + seq!['/'] + "pki"@;
            let config = out_dir + seq!['/'] + "config"@;
            &&& layout.pki_dir@ == pki
            &&& layout.clients_dir@ == pki + seq!['/'] + "clients"@
            &&& layout.config_dir@ == config
            &&& layout.ca_cert_path@ == pki + seq!['/'] + "ca-cert.pem"@
            &&& layout.ca_key_path@ == pki + seq!['/'] + "ca-key.pem"@
            &&& layout.daemon_cert_path@ == pki + seq!['/'] + "daemon-cert.pem"@
            &&& layout.daemon_key_path@ == pki + seq!['/'] + "daemon-key.pem"@
            &&& layout.secrets_path@ == out_dir + seq!['/'] + "secrets.txt"@
            &&& layout.daemon_config_path@ == config + seq!['/'] + "daemon.toml"@
        }),
{
    reveal_strlit("pki");
    reveal_strlit("clients");
    reveal_strlit("config");
    reveal_strlit("ca-cert.pem");
    reveal_strlit("ca-key.pem");
    reveal_strlit("daemon-cert.pem");
    reveal_strlit("daemon-key.pem");
    reveal_strlit("secrets.txt");
    reveal_strlit("daemon.toml");
    let pki = out_dir + seq!['/'] + "pki"@;
    let config = out_dir + seq!['/'] + "config"@;
    assert(pki.last() == "pki"@[2]);
    assert(config.last() == "config"@[5]);
    lemma_under(out_dir, "pki"@);
    lemma_under(out_dir, "config"@);
    lemma_under(out_dir, "secrets.txt"@);
    lemma_under(pki, "clients"@);
    lemma_under(pki, "ca-cert.pem"@);
    lemma_under(pki, "ca-key.pem"@);
    lemma_under(pki, "daemon-cert.pem"@);
    lemma_under(pki, "daemon-key.pem"@);
    lemma_under(config, "daemon.toml"@);
}

/// The files of a client lie in the directory of the clients, under its name, the certificate
/// and the key apart; and the clients of two names have no file in common.
pub proof fn law_files_of_clients_are_apart(
    files: ClientFiles,
    others: ClientFiles,
    dir: Seq<char>,
    name: Seq<char>,
    other: Seq<char>,
)
    requires
        files.are_of(dir, name),
        others.are_of(dir, other),
        dir.len() > 0,
        dir.last() != '/',
        name.len() > 0,
        name[0] != '/',
        other.len() > 0,
        other[0] != '/',
    ensures
        files.cert_path@ == dir + seq!['/'] + name + "-cert.pem"@,
        files.key_path@ == dir + seq!['/'] + name + "-key.pem"@,
        files.cert_path@ != files.key_path@,
        name != other ==> files.cert_path@ != others.cert_path@ && files.key_path@
            != others.key_path@,
{
    reveal_strlit("-cert.pem");
    reveal_strlit("-key.pem");
    let c = "-cert.pem"@;
    let k = "-key.pem"@;
    assert((name + c)[0] == name[0]);
    assert((name + k)[0] == name[0]);
    assert((other + c)[0] == other[0]);
    assert((other + k)[0] == other[0]);
    lemma_under(dir, name + c);
    lemma_under(dir, name + k);
    lemma_under(dir, other + c);
    lemma_under(dir, other + k);
    assert(dir + seq!['/'] + (name + c) == dir + seq!['/'] + name + c);
    assert(dir + seq!['/'] + (name + k) == dir + seq!['/'] + name + k);
    let n = files.cert_path@.len();
    let m = files.key_path@.len();
    assert(n == m + 1);
    let d = dir.len() + 1;
    if files.cert_path@ == others.cert_path@ {
        assert(name.len() == other.len());
        assert forall|i: int| 0 <= i < name.len() implies name[i] == other[i] by {
            assert(files.cert_path@[d + i] == name[i]);
            assert(others.cert_path@[d + i] == other[i]);
        }
        assert(name =~= other);
    }
    if files.key_path@ == others.key_path@ {
        assert(name.len() == other.len());
        assert forall|i: int| 0 <= i < name.len() implies name[i] == other[i] by {
            assert(files.key_path@[d + i] == name[i]);
            assert(others.key_path@[d + i] == other[i]);
        }
        assert(name =~= other);
    }
}

/// A daemon that is set up finds its files where the setup writes them: its certificate and its
/// key, those of its authority, and the certificate that its clients are checked by. The first
/// client's are written too, each key beside its certificate, and nothing else is.
pub proof fn law_daemon_finds_its_files(
    setup: Setup,
    out_dir: Seq<char>,
    listen: ListenAddr,
    domain: Seq<char>,
    name: Seq<char>,
)
    requires
        setup.is_of(out_dir, listen, domain, name),
        setup.result is Ok,
    ensures
        ({
            let daemon = setup.result->Ok_0.daemon;
            let writes = write_views(setup.writes@);
            let certs = setup.certs;
            &&& writes.len() == 6
            &&& writes.contains((daemon.server.tls_cert_path@, certs.daemon.cert_pem@))
            &&& writes.contains((daemon.server.tls_key_path@, certs.daemon.key_pem@))
            &&& writes.contains((daemon.server.client_ca_cert_path@, certs.ca.cert_pem@))
            &&& writes.contains((daemon.pki.ca_cert_path@, certs.ca.cert_pem@))
            &&& writes.contains((daemon.pki.ca_key_path@, certs.ca.key_pem@))
            &&& writes.contains((setup.files.cert_path@, certs.client.cert_pem@))
            &&& writes.contains((setup.files.key_path@, certs.client.key_pem@))
        }),
{
    let writes = write_views(setup.writes@);
    let certs = setup.certs;
    assert(writes[0] == (setup.layout.ca_cert_path@, certs.ca.cert_pem@));
    assert(writes[1] == (setup.layout.ca_key_path@, certs.ca.key_pem@));
    assert(writes[2] == (setup.layout.daemon_cert_path@, certs.daemon.cert_pem@));
    assert(writes[3] == (setup.layout.daemon_key_path@, certs.daemon.key_pem@));
    assert(writes[4] == (setup.files.cert_path@, certs.client.cert_pem@));
    assert(writes[5] == (setup.files.key_path@, certs.client.key_pem@));
}

/// A daemon that is set up listens where it was told to, denies by default, requires an intent
/// where it is made to ask, has half an hour for an allow hook but none yet, and knows no command
/// and no rule. Its secrets are listed in the file of its setup. The daemon tells its clients the
/// same address as the first client is given. A setup without a name to connect to is refused.
pub proof fn law_new_daemon_as_it_was_told(
    setup: Setup,
    out_dir: Seq<char>,
    listen: ListenAddr,
    domain: Seq<char>,
    name: Seq<char>,
)
    requires
        setup.is_of(out_dir, listen, domain, name),
    ensures
        setup.result is Err <==> is_blank(domain),
        setup.result matches Err(e) ==> e is EmptyServerDomain,
        setup.result matches Ok(result) ==> {
            &&& result.daemon.server.listen@ == listen.text@
            &&& result.daemon.policy.default == Effect::Deny
            &&& result.daemon.policy.ask_requires_intent
            &&& result.daemon.policy.allow_hook_timeout_secs == 30 * 60
            &&& result.daemon.policy.allow_hook is None
            &&& result.daemon.policy.allow@.len() == 0
            &&& result.daemon.policy.deny@.len() == 0
            &&& result.daemon.policy.ask@.len() == 0
            &&& result.daemon.rules@.len() == 0
            &&& result.daemon.commands@.len() == 0
            &&& result.daemon.secrets is Some
            &&& result.daemon.secrets->0.file@ == setup.layout.secrets_path@
            &&& result.daemon.pki.clients_dir@ == setup.layout.clients_dir@
            &&& result.daemon.pki.server_domain@ == domain
            &&& result.daemon.pki.server_uri@ == server_uri(listen.port, domain)
            &&& result.client.server_uri@ == result.daemon.pki.server_uri@
            &&& result.client.server_domain@ == result.daemon.pki.server_domain@
        },
{
    crate::execute_laws::lemma_says_nothing(domain);
}

/// A client finds its files in its own directory under the names that they are copied with: the
/// certificate of the authority, and its own certificate and key.
pub proof fn law_client_finds_its_files(
    cfg: ClientConfig,
    uri: Seq<char>,
    domain: Seq<char>,
    name: Seq<char>,
)
    requires
        is_client_config(cfg, uri, domain, name),
    ensures
        cfg.server_uri@ == uri,
        cfg.server_domain@ == domain,
        cfg.ca_cert_path@ == "~/.config/cli-warden/pki/"@ + "ca-cert.pem"@,
        cfg.client_cert_path@ == "~/.config/cli-warden/pki/"@ + name + "-cert.pem"@,
        cfg.client_key_path@ == "~/.config/cli-warden/pki/"@ + name + "-key.pem"@,
{
    let dir = "~/.config/cli-warden/pki/"@;
    assert(dir + (name + "-cert.pem"@) == dir + name + "-cert.pem"@);
    assert(dir + (name + "-key.pem"@) == dir + name + "-key.pem"@);
}

/// A further client is given the address and the name that the first one was given, and its
/// certificate and key are written to its own files, and nothing else is.
pub proof fn law_further_client_connects_to_the_same_daemon(
    client: EmittedClient,
    pki: PkiConfig,
    name: Seq<char>,
)
    requires
        client.is_of(pki, name),
    ensures
        client.config.server_uri@ == pki.server_uri@,
        client.config.server_domain@ == pki.server_domain@,
        client.files.are_of(pki.clients_dir@, name),
        write_views(client.writes@).len() == 2,
        write_views(client.writes@)[0] == (client.files.cert_path@, client.cert.cert_pem@),
        write_views(client.writes@)[1] == (client.files.key_path@, client.cert.key_pem@),
        client.text@ == emit_text(name, client.files, client.config),
{
}

/// What is to be pasted on a client's machine sets each value of the client's configuration to
/// what it is, on a line of its own and in quotes.
pub proof fn law_snippet_sets_the_whole_configuration(
    cfg: ClientConfig,
    key: Seq<char>,
    value: Seq<char>,
)
    ensures
        setting(key, value) == key + " = \""@ + value + "\"\n"@,
        bootstrap(cfg) == "\nClient bootstrap snippet (paste on client machine):\n\n"@
            + "mkdir -p ~/.config/cli-warden\n"@
            + "cat > ~/.config/cli-warden/client.toml <<'EOF'\n"@ + ("server_uri"@ + " = \""@
            + cfg.server_uri@ + "\"\n"@) + ("server_domain"@ + " = \""@ + cfg.server_domain@
            + "\"\n"@) + ("ca_cert_path"@ + " = \""@ + cfg.ca_cert_path@ + "\"\n"@) + (
        "client_cert_path"@ + " = \""@ + cfg.client_cert_path@ + "\"\n"@) + ("client_key_path"@
            + " = \""@ + cfg.client_key_path@ + "\"\n"@) + "EOF\n\n"@,
{
}

/// Once a daemon is set up, or a further client is made known, what is printed names the files
/// that were written for it, and ends with what is to be pasted on the client's machine.
pub proof fn law_what_is_printed_names_the_files(
    layout: Layout,
    files: ClientFiles,
    cfg: ClientConfig,
    name: Seq<char>,
)
    ensures
        setup_text(layout, files, cfg) == "\nSetup complete.\nDaemon config: "@
            + layout.daemon_config_path@ + "\n\nCopy these files to the client machine:\n- "@
            + layout.ca_cert_path@ + "\n- "@ + files.cert_path@ + "\n- "@ + files.key_path@ + "\n"@
            + bootstrap(cfg),
        emit_text(name, files, cfg) == "Generated client cert/key for '"@ + name
            + "'.\nClient cert: "@ + files.cert_path@ + "\nClient key : "@ + files.key_path@
            + "\n"@ + bootstrap(cfg),
{
}

/// What is said of a setup that is refused quotes the listen address, where there is one.
pub proof fn law_setup_refusal_quotes_the_address(listen: String)
    ensures
        setup_refusal(SetupError::EmptyListen) == "invalid listen address: value is empty"@,
        setup_refusal(SetupError::InvalidListen { listen }) == "invalid listen address '"@ + listen@
            + "'"@,
        setup_refusal(SetupError::UnresolvedListen { listen }) == "invalid listen address '"@
            + listen@ + "': resolved to no addresses"@,
        setup_refusal(SetupError::EmptyServerDomain) == "invalid server domain: value is empty"@,
{
}

} // verus!
