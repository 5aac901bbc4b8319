use ssh3::auth::error::AuthError;
use ssh3::auth::key::{KeyData, PublicKey};
use ssh3::auth::oidc::discovery_url;
use ssh3::auth::signature::JwtAlgorithm;
use ssh3::client::agent::{
    agent_message, agent_payload_len, agent_sign_flags, identities_request,
    jwt_signature_from_agent_signature, list_identities, load_agent_public_key, read_signature,
    read_signature_blob, resolve_agent_socket_path, select_identity, sign_request, AgentSignature,
};
use ssh3::client::config::{
    auth_method_count, check_certificates, check_trust, check_usable, client_bind_addr,
    load_certificates, resolve_target, AgentSelection, ClientConfig, OidcConfig, SessionRequest,
    Target, TrustStrategy,
};
use ssh3::client::error::{ClientError, OidcError};
use ssh3::client::oidc::{
    answer_callback, authorization_pairs, authorization_url, check_token_status, given_bytes_text,
    handle_callback, oidc_code_challenge, random_urlsafe, received_token, redirect_uri,
    request_is_complete, secret_sizes, token_form, SecretSizes,
};
use ssh3::client::options::{exit_code, parse_args, usage, CommandLine, TextFile};
use ssh3::client::request::{
    authorization_source, basic_authorization_value, client_request,
    precomputed_authorization_header, set_authorization, AuthorizationSource, Precomputed,
};
use ssh3::client::session::{
    agent_data, initial_session_requests, is_agent_channel, session_event, signal_request,
    window_change_request, Capture, CapturedSession, LocalTerminalInfo, SessionEnd, SessionEvent,
    TerminalSize,
};
use ssh3::failure::IoErrorKind;
use ssh3::http::{BuildConnectRequestError, Uri, SSH3_VERSION_STRING};
use ssh3::proto::address::{IpAddr, SocketAddr};
use ssh3::proto::message::{
    ChannelRequest, ChannelRequestMessage, DataOrExtendedDataMessage, Message, FORWARD_AGENT,
};
use ssh3::proto::request::{ExecRequest, ExitSignalRequest, ExitStatusRequest};
use ssh3::server::authorization::{parse_request_authorization, RequestAuthorization};
use ssh3::server::session::{PendingPty, Session, SessionCommand, SessionPtySize, SessionStep};

const URL: &str = "https://example.com:8443/ssh3?user=bob";

fn texts(words: &[&str]) -> Vec<String> {
    words.iter().map(|word| word.to_string()).collect()
}

fn parsed_with(
    words: &[&str],
    files: &[TextFile],
    certificates: Option<Result<Vec<u8>, String>>,
) -> CommandLine {
    parse_args("ssh3", &texts(words), files, certificates)
}

fn parsed(words: &[&str]) -> CommandLine {
    parsed_with(words, &[], None)
}

fn run(words: &[&str]) -> (ClientConfig, SessionRequest) {
    match parsed(words) {
        CommandLine::Run { config, request } => (config, request),
        other => panic!("unexpected {other:?}"),
    }
}

fn failed(text: &str) -> CommandLine {
    CommandLine::Failed(text.to_string())
}

fn config() -> ClientConfig {
    run(&[URL]).0
}

fn oidc() -> OidcConfig {
    OidcConfig {
        issuer_url: "https://issuer.example".to_string(),
        client_id: "my client".to_string(),
        client_secret: None,
        use_pkce: true,
    }
}

#[test]
fn an_address_alone_asks_for_a_shell() {
    let (config, request) = run(&[URL]);
    assert_eq!(request, SessionRequest::Shell);
    let url = Uri {
        text: URL.to_string(),
        host: Some("example.com".to_string()),
        port: Some(8443),
        query: Some("user=bob".to_string()),
    };
    assert_eq!(config, ClientConfig::new(url));
    assert_eq!(config.user_agent, SSH3_VERSION_STRING);
    assert_eq!((config.max_packet_size, config.default_datagrams_queue_size), (30_000, 10));
    assert_eq!(config.trust, TrustStrategy::WebPkiRoots);
}

#[test]
fn words_behind_the_address_are_the_command() {
    assert_eq!(run(&[URL, "ls", "-l"]).1, SessionRequest::Exec("ls -l".to_string()));
    let (config, request) = run(&[URL, "a", "--", "--insecure", "--"]);
    assert_eq!(request, SessionRequest::Exec("a --insecure --".to_string()));
    assert_eq!(config.trust, TrustStrategy::WebPkiRoots);
    let (config, request) = run(&[URL, "a", "--insecure", "b"]);
    assert_eq!(request, SessionRequest::Exec("a b".to_string()));
    assert_eq!(config.trust, TrustStrategy::Insecure);
    assert_eq!(parsed(&["--", URL]), CommandLine::Failed(usage("ssh3")));
}

#[test]
fn options_are_read() {
    let (config, _) = run(&[
        "--server-name",
        "name",
        "--user",
        "alice",
        "--identity",
        "/key",
        "--agent-socket",
        "/sock",
        "--forward-agent",
        URL,
    ]);
    assert_eq!(config.server_name, Some("name".to_string()));
    assert_eq!(config.username, Some("alice".to_string()));
    assert_eq!(config.identity_file, Some(b"/key".to_vec()));
    assert_eq!(config.agent_socket, Some(b"/sock".to_vec()));
    assert!(config.forward_agent);
    let agent = |words: &[&str]| run(words).0.agent;
    assert_eq!(agent(&["--user", "a", "--agent", URL]), Some(AgentSelection::First));
    assert_eq!(
        agent(&["--user", "a", "--agent-key", "/k", URL]),
        Some(AgentSelection::PublicKey(b"/k".to_vec()))
    );
    assert_eq!(
        run(&["--user", "a", "--password", "pw", URL]).0.password,
        Some("pw".to_string())
    );
    assert_eq!(run(&["--bearer-token", " t\n", URL]).0.bearer_token, Some("t".to_string()));
}

#[test]
fn a_log_in_is_configured() {
    let words = [
        "--use-oidc",
        "https://issuer.example",
        "--oidc-client-id",
        "my client",
        "--oidc-client-secret",
        "s",
        "--no-pkce",
        URL,
    ];
    let expected =
        OidcConfig { client_secret: Some("s".to_string()), use_pkce: false, ..oidc() };
    assert_eq!(run(&words).0.oidc, Some(expected));
    assert_eq!(
        parsed(&["--use-oidc", "x", URL]),
        failed("--use-oidc requires --oidc-client-id")
    );
    assert_eq!(
        parsed(&["--oidc-client-id", "x", URL]),
        failed("--oidc-client-id requires --use-oidc")
    );
    assert_eq!(
        parsed(&["--oidc-client-secret", "x", URL]),
        failed("--oidc-client-secret requires --use-oidc")
    );
}

#[test]
fn files_are_asked_for_in_their_order() {
    let words = ["--user", "a", "--password-file", "/p", URL];
    assert_eq!(parsed(&words), CommandLine::NeedFile("/p".to_string()));
    match parsed_with(&words, &[Ok(" pw \r\n\n".to_string())], None) {
        CommandLine::Run { config, .. } => assert_eq!(config.password, Some(" pw ".to_string())),
        other => panic!("unexpected {other:?}"),
    }
    assert_eq!(
        parsed_with(&words, &[Err("gone".to_string())], None),
        failed("failed to read password file: gone")
    );
    let words = ["--bearer-token-file", "/a", "--bearer-token-file", "/b", URL];
    let first = Ok("one".to_string());
    assert_eq!(parsed(&words), CommandLine::NeedFile("/a".to_string()));
    assert_eq!(parsed_with(&words, &[first.clone()], None), CommandLine::NeedFile("/b".to_string()));
    match parsed_with(&words, &[first.clone(), Ok(" two\n".to_string())], None) {
        CommandLine::Run { config, .. } => assert_eq!(config.bearer_token, Some("two".to_string())),
        other => panic!("unexpected {other:?}"),
    }
    assert_eq!(
        parsed_with(&words, &[first, Err("gone".to_string())], None),
        failed("failed to read bearer token file: gone")
    );
}

#[test]
fn certificates_are_asked_for_last() {
    let words = ["--ca-cert", "/ca", URL];
    assert_eq!(parsed(&words), CommandLine::NeedCertificates("/ca".to_string()));
    match parsed_with(&words, &[], Some(Ok(vec![1, 2]))) {
        CommandLine::Run { config, .. } => {
            assert_eq!(config.trust, TrustStrategy::Certificates(vec![vec![1, 2]]));
        }
        other => panic!("unexpected {other:?}"),
    }
    assert_eq!(
        parsed_with(&words, &[], Some(Err("gone".to_string()))),
        failed("failed to load CA certificate: gone")
    );
    assert_eq!(
        parsed_with(&words, &[], Some(Ok(b"-----BEGIN".to_vec()))),
        failed(
            "failed to load CA certificate: \
             certificate bundle did not contain any valid certificates"
        )
    );
}

#[test]
fn command_lines_that_make_no_sense_are_refused() {
    assert_eq!(parsed(&["-h"]), CommandLine::Help(usage("ssh3")));
    assert_eq!(parsed(&["--user", "a", "--help", "x"]), CommandLine::Help(usage("ssh3")));
    assert!(usage("ssh3").starts_with("Usage: ssh3 [--server-name NAME]"));
    assert!(usage("ssh3").ends_with(
        "URL [COMMAND...]\n\nConnects to an SSH3 server over QUIC/HTTP3. If COMMAND is omitted, \
         requests a shell."
    ));
    assert_eq!(parsed(&[]), CommandLine::Failed(usage("ssh3")));
    assert_eq!(parsed(&["--user"]), failed("missing value for --user"));
    assert_eq!(
        parsed(&["-x", URL]),
        failed(&format!("unrecognized argument: -x\n\n{}", usage("ssh3")))
    );
    assert_eq!(parsed(&["a b"]), failed("invalid URL: invalid uri character"));
    assert_eq!(
        parsed(&["--ca-cert", "/ca", "--insecure", URL]),
        failed("use either --ca-cert or --insecure, not both")
    );
    let twice = failed("use either --agent or --agent-key, not both");
    assert_eq!(parsed(&["--agent", "--agent-key"]), twice);
    assert_eq!(parsed(&["--agent-key", "k", "--agent"]), twice);
    assert_eq!(parsed(&["--agent", "--agent"]), twice);
    let many = failed(
        "use either --identity, --agent/--agent-key, --password/--password-file, \
         --bearer-token/--bearer-token-file, or --use-oidc",
    );
    assert_eq!(parsed(&["--identity", "k", "--bearer-token", " ", URL]), many);
    assert_eq!(parsed(&["--agent", URL]), failed("--agent/--agent-key requires --user"));
    assert_eq!(
        parsed(&["--password", "p", URL]),
        failed("--password/--password-file requires --user")
    );
}

#[test]
fn exit_codes_are_the_lowest_bits_of_the_status() {
    assert_eq!(exit_code(0), 0);
    assert_eq!(exit_code(255), 255);
    assert_eq!(exit_code(256), 0);
    assert_eq!(exit_code(-1), 255);
    assert_eq!(exit_code(i32::MIN), 0);
}

#[test]
fn certificates_are_loaded_from_either_form() {
    let made = rcgen::generate_simple_self_signed(vec!["localhost".to_string()]).unwrap();
    let der = made.cert.der().to_vec();
    let bundle = format!("{0}{0}", made.cert.pem());
    assert_eq!(load_certificates(bundle.into_bytes()), Ok(vec![der.clone(), der.clone()]));
    assert_eq!(load_certificates(der.clone()), Ok(vec![der.clone()]));
    assert_eq!(load_certificates(Vec::new()), Ok(vec![Vec::new()]));
    let cut = made.cert.pem().replace("-----END", "");
    assert!(matches!(load_certificates(cut.into_bytes()), Err(ClientError::Io(IoErrorKind::InvalidData, _))));
    assert_eq!(
        check_certificates(Ok(Vec::new())),
        Err(ClientError::InvalidCertificateBundle)
    );
    assert_eq!(
        check_certificates(Err("bad".to_string())),
        Err(ClientError::Io(IoErrorKind::InvalidData, "bad".to_string()))
    );
    assert_eq!(check_certificates(Ok(vec![vec![1]])), Ok(vec![vec![1]]));
}

#[test]
fn some_certificate_has_to_be_usable() {
    let made = rcgen::generate_simple_self_signed(vec!["localhost".to_string()]).unwrap();
    let der = made.cert.der().to_vec();
    assert_eq!(check_trust(&TrustStrategy::Certificates(vec![vec![0], der])), Ok(()));
    let none = TrustStrategy::Certificates(vec![vec![0]]);
    assert_eq!(check_trust(&none), Err(ClientError::InvalidCertificateBundle));
    assert_eq!(check_usable(&none, 0), Err(ClientError::InvalidCertificateBundle));
    assert_eq!(check_usable(&none, 1), Ok(()));
    assert_eq!(check_trust(&TrustStrategy::Insecure), Ok(()));
    assert_eq!(check_trust(&TrustStrategy::WebPkiRoots), Ok(()));
}

#[test]
fn targets_have_a_host() {
    let target = |words: &[&str], name: Option<&str>| resolve_target(&run(words).0.target_url, name);
    assert_eq!(
        target(&[URL], None),
        Ok(Target {
            host: "example.com".to_string(),
            port: 8443,
            server_name: "example.com".to_string(),
        })
    );
    assert_eq!(
        target(&["https://h/x"], Some("other")),
        Ok(Target { host: "h".to_string(), port: 443, server_name: "other".to_string() })
    );
    assert_eq!(target(&["/ssh3"], None), Err(ClientError::MissingHost));
    let remote = SocketAddr { ip: IpAddr::V6([1; 16]), port: 443 };
    assert_eq!(client_bind_addr(&remote), SocketAddr { ip: IpAddr::V6([0; 16]), port: 0 });
}

#[test]
fn only_one_way_to_log_in_is_taken() {
    let mut config = config();
    assert_eq!(precomputed_authorization_header(&config), Ok(Precomputed::Nothing));
    config.bearer_token = Some(" \t".to_string());
    assert_eq!(auth_method_count(&config), 0);
    config.password = Some("pw".to_string());
    assert_eq!(
        precomputed_authorization_header(&config),
        Err(ClientError::MissingUsernameForPassword)
    );
    config.username = Some("alice".to_string());
    assert_eq!(
        precomputed_authorization_header(&config),
        Ok(Precomputed::Header("Basic YWxpY2U6cHc=".to_string()))
    );
    config.bearer_token = Some(" t ".to_string());
    assert_eq!(auth_method_count(&config), 2);
    assert_eq!(
        precomputed_authorization_header(&config),
        Err(ClientError::ConflictingAuthenticationMethods)
    );
    config.password = None;
    assert_eq!(
        precomputed_authorization_header(&config),
        Ok(Precomputed::Header("Bearer t".to_string()))
    );
    config.bearer_token = None;
    config.oidc = Some(oidc());
    assert_eq!(precomputed_authorization_header(&config), Ok(Precomputed::LogIn(oidc())));
    config.identity_file = Some(Vec::new());
    config.agent = Some(AgentSelection::First);
    assert_eq!(auth_method_count(&config), 3);
}

#[test]
fn requests_carry_who_the_client_is() {
    let mut config = config();
    let plain = client_request(&config).unwrap();
    assert_eq!((plain.uri.as_str(), plain.query.as_deref()), (URL, Some("user=bob")));
    assert_eq!((plain.user, plain.authorization), (None, None));
    config.username = Some("alice".to_string());
    let mut request = client_request(&config).unwrap();
    assert_eq!(request.user, Some(b"alice".to_vec()));
    assert_eq!(
        set_authorization(&mut request, "a\nb"),
        Err(ClientError::InvalidHeaderValue)
    );
    assert_eq!(request.authorization, None);
    let value = basic_authorization_value("alice", "p:w");
    assert_eq!(set_authorization(&mut request, &value), Ok(()));
    assert_eq!(
        parse_request_authorization(&request),
        RequestAuthorization::Basic { username: "alice".to_string(), password: "p:w".to_string() }
    );
    assert_eq!(set_authorization(&mut request, "Bearer a.b.c"), Ok(()));
    assert_eq!(
        parse_request_authorization(&request),
        RequestAuthorization::Bearer("a.b.c".to_string())
    );
    config.username = Some("a\u{0}".to_string());
    assert_eq!(client_request(&config), Err(ClientError::InvalidHeaderValue));
    config.username = None;
    config.user_agent = "\n".to_string();
    assert_eq!(
        client_request(&config),
        Err(ClientError::BuildRequest(BuildConnectRequestError::InvalidUserAgent))
    );
}

#[test]
fn tokens_are_signed_for_a_named_user() {
    let mut config = config();
    assert_eq!(authorization_source(&config, None), Ok(AuthorizationSource::Nothing));
    config.agent = Some(AgentSelection::First);
    assert_eq!(
        authorization_source(&config, None),
        Err(ClientError::MissingUsernameForAgent)
    );
    config.identity_file = Some(b"/key".to_vec());
    assert_eq!(
        authorization_source(&config, None),
        Err(ClientError::MissingUsernameForIdentity)
    );
    assert_eq!(
        authorization_source(&config, Some("x".to_string())),
        Ok(AuthorizationSource::Header("x".to_string()))
    );
    config.username = Some("alice".to_string());
    assert_eq!(
        authorization_source(&config, None),
        Ok(AuthorizationSource::Identity { path: b"/key".to_vec(), username: "alice".to_string() })
    );
    config.identity_file = None;
    assert_eq!(
        authorization_source(&config, None),
        Ok(AuthorizationSource::Agent {
            selection: AgentSelection::First,
            username: "alice".to_string(),
        })
    );
}

fn terminal() -> LocalTerminalInfo {
    LocalTerminalInfo {
        term: Some("xterm-256color".to_string()),
        size: TerminalSize {
            char_width: 80,
            char_height: 24,
            pixel_width: 640,
            pixel_height: 480,
        },
    }
}

#[test]
fn shell_requests_send_pty_before_shell_when_terminal_metadata_is_available() {
    let messages = initial_session_requests(&SessionRequest::Shell, Some(&terminal()));
    assert_eq!(messages.len(), 2);
    match &messages[0].request {
        ChannelRequest::Pty(request) => {
            assert_eq!(request.term, b"xterm-256color".to_vec());
            assert_eq!(request.char_width, 80);
            assert_eq!(request.char_height, 24);
            assert_eq!(request.pixel_width, 640);
            assert_eq!(request.pixel_height, 480);
        }
        other => panic!("expected pty request, got {other:?}"),
    }
    assert!(matches!(messages[1].request, ChannelRequest::Shell));
    assert!(messages[0].want_reply && messages[1].want_reply);

    let mut session = Session::new();
    for message in &messages[..1] {
        session.on_message(Message::ChannelRequest(message.clone()));
    }
    let pty = PendingPty {
        term: Some("xterm-256color".to_string()),
        size: SessionPtySize {
            char_width: 80,
            char_height: 24,
            pixel_width: 640,
            pixel_height: 480,
        },
    };
    assert_eq!(
        session.on_message(Message::ChannelRequest(messages[1].clone())),
        SessionStep::Start { command: SessionCommand::Shell, pty: Some(pty) }
    );
}

#[test]
fn commands_run_without_a_terminal() {
    let request = SessionRequest::Exec("echo ä".to_string());
    let messages = initial_session_requests(&request, Some(&terminal()));
    let exec = ChannelRequest::Exec(ExecRequest { command: "echo ä".as_bytes().to_vec() });
    assert_eq!(messages, vec![ChannelRequestMessage { want_reply: true, request: exec }]);
    assert_eq!(
        Session::new().on_message(Message::ChannelRequest(messages[0].clone())),
        SessionStep::Start { command: SessionCommand::Exec("echo ä".to_string()), pty: None }
    );
    assert_eq!(initial_session_requests(&SessionRequest::Shell, None).len(), 1);
}

#[test]
fn window_change_helper_sends_resize_request() {
    let message = window_change_request(TerminalSize {
        char_width: 101,
        char_height: 33,
        pixel_width: 0,
        pixel_height: 0,
    });
    assert!(!message.want_reply);
    match &message.request {
        ChannelRequest::WindowChange(request) => {
            assert_eq!(request.char_width, 101);
            assert_eq!(request.char_height, 33);
        }
        other => panic!("expected window-change request, got {other:?}"),
    }
}

#[test]
fn signal_helper_sends_signal_request() {
    let message = signal_request("TERM");
    assert!(!message.want_reply);
    match &message.request {
        ChannelRequest::Signal(request) => {
            assert_eq!(request.signal_name_without_sig, b"TERM".to_vec());
        }
        other => panic!("expected signal request, got {other:?}"),
    }
}

fn data(data_type: u64, data: &[u8]) -> Message {
    Message::Data(DataOrExtendedDataMessage { data_type, data: data.to_vec() })
}

fn told(request: ChannelRequest) -> Message {
    Message::ChannelRequest(ChannelRequestMessage { want_reply: false, request })
}

fn exit(status: u64) -> Message {
    told(ChannelRequest::ExitStatus(ExitStatusRequest { exit_status: status }))
}

fn killed() -> ExitSignalRequest {
    ExitSignalRequest {
        signal_name_without_sig: b"KILL".to_vec(),
        core_dumped: false,
        error_message_utf8: b"no more".to_vec(),
        language_tag: Vec::new(),
    }
}

#[test]
fn sessions_are_captured() {
    let mut capture = Capture::new();
    for message in [
        data(0, b"out"),
        data(1, b"err"),
        data(2, b"other"),
        told(ChannelRequest::Shell),
        Message::ChannelSuccess,
        data(0, b"put"),
    ] {
        assert_eq!(capture.on_message(message), None);
    }
    assert_eq!(capture.on_message(exit(7)), Some(SessionEnd::Exit(7)));
    assert_eq!(
        capture.clone().finish(SessionEnd::Exit(7), Some("server".to_string())),
        Ok(CapturedSession {
            server_header: Some("server".to_string()),
            exit_status: 7,
            stdout: b"output".to_vec(),
            stderr: b"err".to_vec(),
        })
    );
    let signal = told(ChannelRequest::ExitSignal(killed()));
    assert_eq!(capture.on_message(signal), Some(SessionEnd::Signal(killed())));
    let error = capture.finish(SessionEnd::Signal(killed()), None).unwrap_err();
    assert_eq!(error.message(), "remote process exited with signal KILL: no more");
}

#[test]
fn a_status_is_a_number_with_a_sign() {
    assert_eq!(session_event(exit(0xffff_ffff)), SessionEvent::Exit(-1));
    assert_eq!(session_event(exit(0x7fff_ffff)), SessionEvent::Exit(i32::MAX));
    assert_eq!(session_event(exit(0x1_8000_0000)), SessionEvent::Exit(i32::MIN));
}

#[test]
fn the_agent_gets_ordinary_data() {
    assert!(is_agent_channel(b"agent-connection"));
    assert!(!is_agent_channel(b"session"));
    assert_eq!(agent_data(data(0, b"x")), Some(b"x".to_vec()));
    assert_eq!(agent_data(data(1, b"x")), None);
    assert_eq!(agent_data(Message::ChannelEof), None);
    let asked = data(0, FORWARD_AGENT.as_bytes());
    assert_eq!(Session::new().on_message(asked), SessionStep::OpenAgent);
}

#[test]
fn challenges_are_digests_of_the_secret() {
    assert_eq!(
        oidc_code_challenge("dBjftJeZ4CVP-mB92K27uhbUJU1p1r_wW1gFWFOEjXk"),
        "E9Melhoa2OwvFrEMTJguCHaoeK1t8URWbuGJSstw-cM"
    );
}

#[test]
fn random_texts_are_as_long_as_asked_for() {
    let (one, other) = (random_urlsafe(24).unwrap(), random_urlsafe(24).unwrap());
    assert_eq!((one.len(), other.len()), (32, 32));
    assert_ne!(one, other);
    assert_eq!(random_urlsafe(0), Some(String::new()));
    assert_eq!(given_bytes_text(Some(vec![255, 254, 253, 0])), Some("__79AA".to_string()));
    assert_eq!(given_bytes_text(None), None);
}

#[test]
fn a_log_in_takes_a_state_and_a_verifier() {
    let mut oidc = oidc();
    oidc.use_pkce = true;
    assert_eq!(secret_sizes(&oidc), SecretSizes { state: 24, verifier: Some(48) });
    oidc.use_pkce = false;
    assert_eq!(secret_sizes(&oidc), SecretSizes { state: 24, verifier: None });
    assert_eq!(
        discovery_url("https://id.example//"),
        "https://id.example/.well-known/openid-configuration"
    );
}

#[test]
fn the_browser_is_sent_to_the_provider() {
    let redirect = redirect_uri(8080);
    assert_eq!(redirect, "http://127.0.0.1:8080/ssh");
    assert_eq!(
        authorization_url("https://issuer.example/auth?x=1", &oidc(), &redirect, "st", None),
        Ok("https://issuer.example/auth?x=1&response_type=code&client_id=my+client\
            &redirect_uri=http%3A%2F%2F127.0.0.1%3A8080%2Fssh&scope=openid+email&state=st"
            .to_string())
    );
    let pairs = authorization_pairs(&oidc(), &redirect, "st", Some("secret"));
    assert_eq!(pairs.len(), 7);
    assert_eq!(pairs[5], ("code_challenge".to_string(), oidc_code_challenge("secret")));
    assert_eq!(pairs[6], ("code_challenge_method".to_string(), "S256".to_string()));
    let error = authorization_url("issuer", &oidc(), &redirect, "st", None).unwrap_err();
    assert_eq!(error, OidcError::Url("relative URL without a base".to_string()));
}

#[test]
fn requests_end_with_an_empty_line() {
    assert!(request_is_complete(b"GET / HTTP/1.1\r\nx: y\r\n\r\n"));
    assert!(request_is_complete(b"\r\n\r\nrest"));
    assert!(!request_is_complete(b"GET / HTTP/1.1\r\nx: y\r\n"));
    assert!(!request_is_complete(b"\r\n\r"));
}

fn answered(status: &str, body: &str) -> String {
    format!(
        "HTTP/1.1 {status}\r\ncontent-type: text/plain; charset=utf-8\r\ncontent-length: {}\r\n\
         connection: close\r\n\r\n{body}",
        body.len()
    )
}

#[test]
fn the_browser_comes_back_with_a_code() {
    let back = |target: &str| {
        let request = format!("GET {target} HTTP/1.1\r\nhost: x\r\n\r\n");
        let callback = handle_callback(&request, "st").unwrap();
        (callback.response, callback.outcome)
    };
    assert_eq!(
        back("/ssh?code=a&state=bad&code=b%20c&state=st"),
        (answered("200 OK", "you can now close this tab"), Ok("b c".to_string()))
    );
    assert_eq!(
        back("/ssh?code=a&state=st&error=denied"),
        (
            answered("400 Bad Request", "OIDC authentication failed.\n"),
            Err(OidcError::ProviderError("denied".to_string()))
        )
    );
    let mismatch = (
        answered("400 Bad Request", "OIDC state mismatch.\n"),
        Err(OidcError::InvalidResponse("OIDC state mismatch")),
    );
    assert_eq!(back("/ssh?code=a&state=other"), mismatch);
    assert_eq!(back("/ssh?code=a"), mismatch);
    assert_eq!(
        back("/ssh?state=st"),
        (
            answered("400 Bad Request", "OIDC callback missing code.\n"),
            Err(OidcError::InvalidResponse("OIDC callback missing code"))
        )
    );
    for malformed in ["", "GET", "\r\nGET /ssh"] {
        assert_eq!(
            handle_callback(malformed, "st"),
            Err(OidcError::InvalidResponse("malformed OIDC callback request"))
        );
    }
    assert!(matches!(handle_callback("GET :x y", "st"), Err(OidcError::Url(_))));
    let pair = |key: &str, value: &str| (key.to_string(), value.to_string());
    let callback = answer_callback(&[pair("state", "st"), pair("code", "c")], "st");
    assert_eq!(callback.outcome, Ok("c".to_string()));
}

#[test]
fn codes_are_exchanged_for_tokens() {
    let pair = |key: &str, value: &str| (key.to_string(), value.to_string());
    let mut form = vec![
        pair("grant_type", "authorization_code"),
        pair("code", "c"),
        pair("client_id", "my client"),
        pair("redirect_uri", "r"),
    ];
    assert_eq!(token_form(&oidc(), "r", "c", None), form);
    let secretive = OidcConfig { client_secret: Some("s".to_string()), ..oidc() };
    form.push(pair("client_secret", "s"));
    form.push(pair("code_verifier", "v"));
    assert_eq!(token_form(&secretive, "r", "c", Some("v")), form);
    assert_eq!(check_token_status(200, "200 OK"), Ok(()));
    assert_eq!(
        check_token_status(201, "201 Created").unwrap_err().message(),
        "OIDC token endpoint returned 201 Created"
    );
    assert_eq!(received_token(Some("t".to_string())), Ok("t".to_string()));
    for none in [None, Some(String::new())] {
        assert_eq!(
            received_token(none).unwrap_err().message(),
            "OIDC token response did not include an id_token"
        );
    }
}

fn ed25519_key(seed: u8) -> ssh_key::PrivateKey {
    ssh_key::PrivateKey::from(ssh_key::private::Ed25519Keypair::from_seed(&[seed; 32]))
}

fn p256_key() -> ssh_key::PrivateKey {
    let secret = p256::SecretKey::from_slice(&[29; 32]).unwrap();
    ssh_key::PrivateKey::from(ssh_key::private::EcdsaKeypair::NistP256 {
        public: secret.public_key().into(),
        private: secret.into(),
    })
}

fn blob(key: &ssh_key::PrivateKey) -> Vec<u8> {
    key.public_key().to_bytes().unwrap()
}

fn text(bytes: &[u8]) -> Vec<u8> {
    agent_message(bytes).unwrap()
}

fn identities(keys: &[ssh_key::PrivateKey]) -> Vec<u8> {
    let mut reply = vec![12, 0, 0, 0, keys.len() as u8];
    for key in keys {
        reply.extend(text(&blob(key)));
        reply.extend(text(b"comment"));
    }
    reply
}

fn truncated<T>(text: &str) -> Result<T, ClientError> {
    Err(ClientError::Io(IoErrorKind::UnexpectedEof, text.to_string()))
}

fn invalid<T>(text: &str) -> Result<T, ClientError> {
    Err(ClientError::Io(IoErrorKind::InvalidData, text.to_string()))
}

#[test]
fn the_agent_is_found() {
    let mut config = config();
    assert_eq!(
        resolve_agent_socket_path(&config, None),
        Err(ClientError::AgentUnavailable)
    );
    assert_eq!(resolve_agent_socket_path(&config, Some(b"/e".to_vec())), Ok(b"/e".to_vec()));
    config.agent_socket = Some(b"/c".to_vec());
    assert_eq!(resolve_agent_socket_path(&config, Some(b"/e".to_vec())), Ok(b"/c".to_vec()));
}

#[test]
fn agents_list_their_keys() {
    assert_eq!(agent_message(&identities_request()), Ok(vec![0, 0, 0, 1, 11]));
    assert_eq!(agent_payload_len(&[1, 2, 3, 4]), 0x0102_0304);
    let reply = identities(&[p256_key(), ed25519_key(3)]);
    let keys = list_identities(&reply).unwrap();
    assert_eq!(keys.len(), 2);
    assert!(matches!(keys[0].data, KeyData::NistP256(_)));
    assert_eq!(keys[1].blob, blob(&ed25519_key(3)));

    assert_eq!(list_identities(&[5]), Err(ClientError::AgentKeyNotFound));
    assert_eq!(list_identities(&[]), truncated("truncated SSH agent message"));
    assert_eq!(list_identities(&[7]), invalid("unexpected SSH agent reply type 7"));
    assert_eq!(list_identities(&[12, 0]), truncated("truncated SSH agent u32"));
    assert_eq!(
        list_identities(&[12, 0, 0, 0, 1, 0, 0, 0, 9]),
        truncated("truncated SSH agent string")
    );
    assert_eq!(
        list_identities(&[12, 0, 0, 0, 0, 1]),
        invalid("trailing bytes in SSH agent identities reply")
    );
    let empty = [12, 0, 0, 0, 1, 0, 0, 0, 0, 0, 0, 0, 0];
    assert!(matches!(
        list_identities(&empty),
        Err(ClientError::SshKey(_))
    ));
}

#[test]
fn agents_sign_with_a_key_that_tokens_can_have() {
    let keys = list_identities(&identities(&[p256_key(), ed25519_key(3), ed25519_key(4)])).unwrap();
    assert_eq!(select_identity(&keys, None), Ok(&keys[1]));
    assert_eq!(select_identity(&keys, Some(&keys[2])), Ok(&keys[2]));
    assert_eq!(
        select_identity(&keys, Some(&keys[0])),
        Err(ClientError::UnsupportedAgentKey("ecdsa-sha2-nistp256".to_string()))
    );
    assert_eq!(select_identity(&keys[..1], None), Err(ClientError::AgentKeyNotFound));
    assert_eq!(
        select_identity(&keys[..2], Some(&keys[2])),
        Err(ClientError::AgentKeyNotFound)
    );
}

#[test]
fn agents_are_asked_for_signatures() {
    assert_eq!(
        sign_request(b"k", b"data", 2),
        vec![13, 0, 0, 0, 1, b'k', 0, 0, 0, 4, b'd', b'a', b't', b'a', 0, 0, 0, 2]
    );
    assert_eq!(agent_sign_flags(JwtAlgorithm::EdDsa), Ok(0));
    assert_eq!(agent_sign_flags(JwtAlgorithm::Rs256), Ok(2));
    let unsupported = ClientError::UnsupportedAgentKey("ecdsa-sha2-nistp256".to_string());
    assert_eq!(agent_sign_flags(JwtAlgorithm::Es256), Err(unsupported.clone()));

    let encoded = [text(b"ssh-ed25519"), text(&[7; 64])].concat();
    let reply = [vec![14], text(&encoded)].concat();
    assert_eq!(read_signature_blob(&reply), Ok(encoded));
    let signature = read_signature(&reply).unwrap();
    let expected =
        AgentSignature { algorithm: "ssh-ed25519".to_string(), bytes: vec![7; 64] };
    assert_eq!(signature, expected);
    let carried = |algorithm| jwt_signature_from_agent_signature(algorithm, &signature);
    assert_eq!(carried(JwtAlgorithm::EdDsa), Ok(vec![7; 64]));
    assert_eq!(
        carried(JwtAlgorithm::Rs256),
        invalid("SSH agent returned the wrong RSA signature algorithm")
    );
    assert_eq!(carried(JwtAlgorithm::Es256), Err(unsupported));
    let other = AgentSignature { algorithm: "rsa-sha2-256".to_string(), bytes: vec![1] };
    assert_eq!(
        jwt_signature_from_agent_signature(JwtAlgorithm::Rs256, &other),
        Ok(vec![1])
    );
    assert_eq!(
        jwt_signature_from_agent_signature(JwtAlgorithm::EdDsa, &other),
        invalid("SSH agent returned the wrong Ed25519 signature algorithm")
    );

    assert_eq!(read_signature(&[5]), Err(ClientError::AgentKeyNotFound));
    assert_eq!(read_signature(&[6]), invalid("unexpected SSH agent sign reply type 6"));
    assert_eq!(
        read_signature(&[14, 0, 0, 0, 0, 1]),
        invalid("trailing bytes in SSH agent sign reply")
    );
    assert!(matches!(
        read_signature(&[14, 0, 0, 0, 0]),
        Err(ClientError::SshKey(_))
    ));
}

#[test]
fn a_key_is_named_by_a_file_of_either_half() {
    let key = ed25519_key(9);
    let public = key.public_key().to_openssh().unwrap();
    let private = key.to_openssh(ssh_key::LineEnding::LF).unwrap().to_string();
    let gone = || Err("gone".to_string());
    let named = |file: Result<String, String>, beside: Result<String, String>| {
        load_agent_public_key(&file, &beside).map(|key| key.blob)
    };
    assert_eq!(named(Ok(public.clone()), gone()), Ok(blob(&key)));
    assert_eq!(named(Ok(private), gone()), Ok(blob(&key)));
    assert_eq!(named(Ok("?".to_string()), Ok(public.clone())), Ok(blob(&key)));
    assert_eq!(named(gone(), Ok(public.clone())), Ok(blob(&key)));
    assert_eq!(named(gone(), gone()), Err(ClientError::SshKey("gone".to_string())));
    let direct: Result<PublicKey, ClientError> = load_agent_public_key(&Ok(public), &gone());
    assert!(matches!(direct.unwrap().data, KeyData::Ed25519(_)));
}

#[test]
fn failures_are_told_in_words() {
    let cases = [
        (ClientError::MissingHost, "target URL is missing a host"),
        (ClientError::Io(IoErrorKind::Other, "io".to_string()), "io"),
        (ClientError::SshKey("key".to_string()), "key"),
        (
            ClientError::BuildRequest(BuildConnectRequestError::InvalidUserAgent),
            "failed to parse header value",
        ),
        (
            ClientError::InvalidCertificateBundle,
            "certificate bundle did not contain any valid certificates",
        ),
        (ClientError::InvalidHeaderValue, "failed to parse header value"),
        (ClientError::Oidc(OidcError::Io(IoErrorKind::Other, "o".to_string())), "o"),
        (ClientError::Oidc(OidcError::Reqwest("r".to_string())), "r"),
        (
            ClientError::MissingUsernameForIdentity,
            "an identity file requires an explicit username",
        ),
        (
            ClientError::MissingUsernameForAgent,
            "SSH agent authentication requires an explicit username",
        ),
        (
            ClientError::MissingUsernameForPassword,
            "password authentication requires an explicit username",
        ),
        (ClientError::AgentUnavailable, "no SSH agent is available"),
        (ClientError::AgentKeyNotFound, "no matching SSH agent key was found"),
        (
            ClientError::UnsupportedAgentKey("x".to_string()),
            "unsupported SSH agent key algorithm: x",
        ),
        (
            ClientError::ConflictingAuthenticationMethods,
            "configure only one of: identity file, SSH agent, password, raw bearer token, or OIDC",
        ),
    ];
    for (error, words) in cases {
        assert_eq!(error.message(), words);
    }
    let auth = AuthError::SshKey("k".to_string());
    assert_eq!(ClientError::Auth(auth.clone()).message(), auth.message());
}
