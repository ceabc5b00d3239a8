use cli_warden::client::{
    execute_stream, expand_tilde, expand_tilde_path, live_input, opening, outcome_name, run_execute,
    run_install_shims, run_shim, shim_command_name, shims_installed, ClientAction, LiveRead,
    StdinSource,
};
use cli_warden::server::{ExecuteDone, ExecuteStart};
use cli_warden::server_model::Outcome;
use cli_warden::session::{stream_stderr, stream_stdout, Inbound, ServerEvent};

fn done(outcome: Outcome, exit_code: i32, message: &str) -> ExecuteDone {
    ExecuteDone {
        outcome,
        exit_code,
        message: message.to_string(),
    }
}

fn start() -> ExecuteStart {
    ExecuteStart {
        cmd: "demo".to_string(),
        args: vec!["a".to_string()],
        intent: String::new(),
    }
}

#[test]
fn expand_tilde_path_expands_home_prefix() {
    let p = expand_tilde_path("~/cli-warden-test/client.toml", Some("/home/someone"));
    assert!(!p.starts_with("~/"), "tilde must be expanded");
    assert!(
        p.contains("cli-warden-test/client.toml"),
        "unexpected expanded path: {p}"
    );
    assert_eq!(p, "/home/someone/cli-warden-test/client.toml");
}

#[test]
fn other_paths_are_not_expanded() {
    assert_eq!(expand_tilde("~/x", None), "~/x");
    assert_eq!(expand_tilde("/etc/~/x", Some("/home/a")), "/etc/~/x");
    assert_eq!(expand_tilde("~x", Some("/home/a")), "~x");
    assert_eq!(expand_tilde("~", Some("/home/a")), "~");
    assert_eq!(expand_tilde("~/", Some("/home/a")), "/home/a/");
    assert_eq!(expand_tilde("~//x", Some("/home/a")), "/x");
    assert_eq!(expand_tilde("~/x", Some("/home/a/")), "/home/a/x");
}

#[test]
fn given_input_is_sent_whole_and_closed() {
    let bytes: Vec<u8> = (0..20000u32).map(|i| (i % 251) as u8).collect();
    let messages = opening(start(), &StdinSource::Bytes(bytes.clone()));
    assert_eq!(messages.len(), 5);
    assert!(matches!(&messages[0], Inbound::Start(s) if s.cmd == "demo" && s.args == ["a"]));
    let mut sent = Vec::new();
    for message in &messages[1..4] {
        match message {
            Inbound::StdinChunk(part) => {
                assert!(part.len() <= 8192);
                sent.extend_from_slice(part);
            }
            other => panic!("not a chunk: {other:?}"),
        }
    }
    assert_eq!(sent, bytes);
    assert!(matches!(&messages[4], Inbound::StdinEof));

    let messages = opening(start(), &StdinSource::Bytes(Vec::new()));
    assert_eq!(messages.len(), 2);
    assert!(matches!(&messages[1], Inbound::StdinEof));
}

#[test]
fn live_input_is_sent_as_it_is_read() {
    let messages = opening(start(), &StdinSource::Live);
    assert_eq!(messages.len(), 1);
    let (message, more) = live_input(LiveRead::Chunk(vec![1, 2]));
    assert!(matches!(&message, Inbound::StdinChunk(part) if part == &vec![1, 2]) && more);
    let (message, more) = live_input(LiveRead::End);
    assert!(matches!(message, Inbound::StdinEof) && !more);
    let (message, more) = live_input(LiveRead::Failed);
    assert!(matches!(message, Inbound::StdinEof) && !more);
}

#[test]
fn output_goes_to_the_stream_it_came_from() {
    let action = execute_stream(stream_stdout("out".to_string()), true);
    assert!(matches!(&action, ClientAction::PrintStdout(text) if text == "out"));
    let action = execute_stream(stream_stderr("err".to_string()), true);
    assert!(matches!(&action, ClientAction::PrintStderr(text) if text == "err"));
    let action = execute_stream(stream_stdout("out".to_string()), false);
    assert!(matches!(action, ClientAction::Continue));
    let action = execute_stream(stream_stderr("err".to_string()), false);
    assert!(matches!(action, ClientAction::Continue));
    assert!(matches!(
        execute_stream(ServerEvent::Empty, true),
        ClientAction::Continue
    ));
}

#[test]
fn stream_has_to_end_with_an_answer() {
    let action = execute_stream(ServerEvent::Done(done(Outcome::Executed, 3, "")), true);
    assert!(matches!(&action, ClientAction::Return(d) if d.exit_code == 3));
    let action = execute_stream(ServerEvent::Closed, true);
    assert!(
        matches!(&action, ClientAction::Fail(text) if text == "stream ended without done event")
    );
}

#[test]
fn report_names_outcome_code_and_message() {
    assert_eq!(
        run_execute(&done(Outcome::Executed, 0, "")),
        "\noutcome: Executed\nexit_code: 0\n"
    );
    assert_eq!(
        run_execute(&done(Outcome::Denied, -1, "denied by policy")),
        "\noutcome: Denied\nexit_code: -1\nmessage: denied by policy\n"
    );
    assert_eq!(
        run_execute(&done(Outcome::Error, i32::MIN, "")),
        "\noutcome: Error\nexit_code: -2147483648\n"
    );
    assert_eq!(outcome_name(Outcome::UserReply), "UserReply");
    assert_eq!(outcome_name(Outcome::Cancelled), "Cancelled");
    assert_eq!(outcome_name(Outcome::Unspecified), "Unspecified");
}

#[test]
fn shim_exits_as_the_request_ended() {
    assert_eq!(run_shim(&done(Outcome::Executed, 7, "")), (7, None));
    assert_eq!(run_shim(&done(Outcome::Executed, -1, "")), (1, None));
    assert_eq!(run_shim(&done(Outcome::Denied, -1, "no")), (126, None));
    assert_eq!(run_shim(&done(Outcome::Cancelled, -1, "no")), (125, None));
    assert_eq!(
        run_shim(&done(Outcome::UserReply, -1, "ask me")),
        (125, Some("ask me".to_string()))
    );
    assert_eq!(run_shim(&done(Outcome::UserReply, -1, "")), (125, None));
    assert_eq!(run_shim(&done(Outcome::Error, 0, "x")), (1, None));
    assert_eq!(run_shim(&done(Outcome::Unspecified, 0, "x")), (1, None));
}

#[test]
fn shims_are_not_overwritten_without_force() {
    let plan = run_install_shims("./shims", "gog", false, false).expect("free");
    assert_eq!(plan.link, "./shims/gog");
    assert!(!plan.remove);
    let plan = run_install_shims("./shims", "gog", true, true).expect("forced");
    assert!(plan.remove);
    assert_eq!(
        run_install_shims("./shims", "gog", true, false).err(),
        Some("shim already exists at ./shims/gog (use --force to overwrite)".to_string())
    );
    assert_eq!(shims_installed(12, "./shims"), "installed 12 shims into ./shims");
}

#[test]
fn program_called_by_its_own_name_is_no_shim() {
    assert_eq!(shim_command_name("cli-warden", ""), None);
    assert_eq!(shim_command_name("cli-warden.exe", ".exe"), None);
    assert_eq!(shim_command_name("cli-warden", ".exe"), None);
    assert_eq!(shim_command_name("gog", ""), Some("gog".to_string()));
}
