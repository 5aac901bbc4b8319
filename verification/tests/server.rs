use base64::engine::general_purpose::STANDARD;
use base64::Engine;

use ssh3::auth::identity::{AuthorizedIdentity, OidcIdentity};
use ssh3::auth::key::{load_private_key, PrivateKey};
use ssh3::auth::token::{bearer_claims, bearer_header, build_bearer_token};
use ssh3::conversation::channel::Channel;
use ssh3::failure::{
    is_benign_accept_channel_error, is_benign_client_error, is_benign_io_error,
    is_benign_route_error, is_benign_server_error, is_session_input_terminated,
    AcceptChannelFailure, ChannelFailure, ClientFailure, ConnectionFailure, ConversationFailure,
    DatagramFailure, IoErrorKind, IoFailure, OpenChannelFailure, RouteFailure, ServerFailure,
};
use ssh3::http::{
    build_connect_request, configure_client_builder, configure_server_builder,
    establish_client_conversation, is_ssh3_connect, request_protocol, request_user_agent,
    response_server_header, response_with_server_header, ssh3_protocol, BuildConnectRequestError,
    ConnectionSettings, Protocol, Request, UnexpectedStatus, SSH3_PROTOCOL_NAME,
    SSH3_VERSION_STRING, STATUS_NOT_FOUND, STATUS_OK, STATUS_UNAUTHORIZED,
};
use ssh3::proto::address::{IpAddr, SocketAddr};
use ssh3::proto::message::{
    ChannelRequest, ChannelRequestMessage, DataOrExtendedDataMessage, Message,
    SSH_EXTENDED_DATA_NONE, SSH_EXTENDED_DATA_STDERR,
};
use ssh3::proto::request::{
    ExecRequest, PtyRequest, SignalRequest, SubsystemRequest, WindowChangeRequest,
};
use ssh3::relay::{bind_address_for, read_buffer_size, relay_message, RelayStep};
use ssh3::server::authorization::{
    authorize_request, check_token, conversation_status, extract_query_param, open_conversation,
    parse_basic_credentials, parse_request_authorization, requested_username, AuthorizationStep,
    Credential, Opening, RequestAuthorization, TokenStep,
};
use ssh3::server::config::{
    configured_authorized_identity_paths, effective_shell, login_shell_arg0, session_process,
    session_user, should_authenticate, validate_server_config, ServerConfig, ServerEnvironment,
    ServerOptions, SessionUser,
};
use ssh3::server::password::{
    after_lookup, check_credentials, hashes_match, PasswordStep, ShadowLookup,
};
use ssh3::server::process::{
    exit_report, exit_status, Output, ProcessEvent, ProcessRelay, ProcessStep,
};
use ssh3::server::session::{
    clamp_u64_to_u16, is_session_channel, parse_signal_name, parse_signal_request,
    send_channel_request_reply, ssh_bytes_to_string, unsupported_channel_note,
    unsupported_request_note, write_stderr, Answer, PendingPty, Session, SessionCommand,
    SessionPtySize, SessionStep, Signal,
};

fn request(query: Option<&str>) -> Request {
    let query = query.map(|query| query.to_string());
    build_connect_request("https://localhost/ssh3-term".to_string(), query, SSH3_VERSION_STRING)
        .unwrap()
}

fn config() -> ServerConfig {
    ServerConfig::standard(Some("alice".to_string()), Some("/bin/zsh".to_string()))
}

fn user() -> SessionUser {
    session_user("alice".to_string(), b"/home/alice".to_vec(), Vec::new(), 1000, 100)
}

#[test]
fn build_connect_request_sets_ssh3_protocol_and_user_agent() {
    let request = request(None);
    assert_eq!(request.method, "CONNECT");
    assert!(is_ssh3_connect(&request));
    assert_eq!(
        request_protocol(&request).map(|protocol| protocol.as_str()),
        Some(SSH3_PROTOCOL_NAME)
    );
    assert_eq!(request_user_agent(&request), Some(SSH3_VERSION_STRING.to_string()));
}

#[test]
fn other_requests_open_no_conversation() {
    let mut other = request(None);
    other.method = "GET".to_string();
    assert!(!is_ssh3_connect(&other));
    let mut other = request(None);
    other.protocol = Some(Protocol::web_transport());
    assert!(!is_ssh3_connect(&other));
    assert_eq!(open_conversation(&other, &config()), Opening::Refuse(STATUS_NOT_FOUND));
    other.protocol = None;
    assert!(!is_ssh3_connect(&other));
    assert_eq!(Protocol::connect_udp().as_str(), "connect-udp");
    assert_eq!(ssh3_protocol(), Protocol::new("ssh3".to_string()));
}

#[test]
fn header_values_are_checked() {
    assert_eq!(
        build_connect_request("/".to_string(), None, "a\nb"),
        Err(BuildConnectRequestError::InvalidUserAgent)
    );
    let response = response_with_server_header(STATUS_OK, "me").unwrap();
    assert_eq!((response.status, response_server_header(&response)), (200, Some("me".to_string())));
    let response = response_with_server_header(STATUS_OK, "mé").unwrap();
    assert_eq!(response_server_header(&response), None);
    assert_eq!(
        response_with_server_header(STATUS_OK, "\u{7f}").unwrap_err().message(),
        "failed to parse header value"
    );
}

#[test]
fn only_a_good_status_opens_a_conversation() {
    let opened = establish_client_conversation(200, 4, [1; 32], 30_000, 10);
    assert_eq!(opened.map(|conversation| conversation.control_stream_id()), Ok(4));
    let refused = establish_client_conversation(401, 4, [1; 32], 30_000, 10);
    let error = match refused {
        Err(error) => error,
        Ok(_) => panic!("expected a refusal"),
    };
    assert_eq!(error, UnexpectedStatus { status: 401 });
    assert_eq!(
        error.message("401 Unauthorized"),
        "unexpected HTTP status: 401 Unauthorized"
    );
    let mut settings = ConnectionSettings { extended_connect: false, datagram: false };
    configure_client_builder(&mut settings);
    assert_eq!(settings, ConnectionSettings { extended_connect: true, datagram: true });
    let mut settings = ConnectionSettings { extended_connect: false, datagram: true };
    configure_server_builder(&mut settings);
    assert_eq!(settings, ConnectionSettings { extended_connect: true, datagram: true });
}

#[test]
fn query_parameters_are_extracted() {
    assert_eq!(extract_query_param("user=alice", "user"), Some("alice".to_string()));
    assert_eq!(extract_query_param("a=1&user=bob&user=eve", "user"), Some("bob".to_string()));
    assert_eq!(extract_query_param("user=&user=bob", "user"), Some("bob".to_string()));
    assert_eq!(extract_query_param("user&x", "user"), None);
    assert_eq!(extract_query_param("user=a=b", "user"), Some("a=b".to_string()));
    assert_eq!(extract_query_param("", "user"), None);
}

#[test]
fn the_user_comes_from_the_header_the_query_or_the_configuration() {
    let mut request = request(Some("user=bob"));
    request.user = Some(b"  carol ".to_vec());
    assert_eq!(requested_username(&request, &config()), Some("carol".to_string()));
    request.user = Some(b"   ".to_vec());
    assert_eq!(requested_username(&request, &config()), Some("bob".to_string()));
    request.user = Some(vec![0xff]);
    request.query = None;
    assert_eq!(requested_username(&request, &config()), Some("alice".to_string()));
}

fn basic(credentials: &[u8]) -> Vec<u8> {
    format!("bAsIc  {} ", STANDARD.encode(credentials)).into_bytes()
}

#[test]
fn authorization_headers_are_read() {
    let read = |value: Option<Vec<u8>>| {
        let mut request = request(None);
        request.authorization = value;
        parse_request_authorization(&request)
    };
    assert_eq!(read(None), RequestAuthorization::Absent);
    assert_eq!(
        read(Some(basic(b"alice:se:cret"))),
        RequestAuthorization::Basic {
            username: "alice".to_string(),
            password: "se:cret".to_string(),
        }
    );
    assert_eq!(read(Some(basic(b"alice"))), RequestAuthorization::Absent);
    assert_eq!(read(Some(basic(&[0xff, b':']))), RequestAuthorization::Absent);
    assert_eq!(read(Some(b"Basic !".to_vec())), RequestAuthorization::Absent);
    assert_eq!(
        read(Some(b"bearer  token ".to_vec())),
        RequestAuthorization::Bearer("token".to_string())
    );
    assert_eq!(read(Some(b"Bearer ".to_vec())), RequestAuthorization::Absent);
    assert_eq!(read(Some(b"Bearer".to_vec())), RequestAuthorization::Absent);
    assert_eq!(read(Some(b"Bearertoken".to_vec())), RequestAuthorization::Absent);
    assert_eq!(read(Some(b"Digest x".to_vec())), RequestAuthorization::Absent);
    assert_eq!(
        parse_basic_credentials(b":".to_vec()),
        RequestAuthorization::Basic { username: String::new(), password: String::new() }
    );
}

#[test]
fn missing_requested_and_default_user_is_rejected() {
    let mut config = config();
    config.default_user = None;
    assert_eq!(
        open_conversation(&request(None), &config),
        Opening::Refuse(STATUS_UNAUTHORIZED)
    );
}

#[test]
fn who_gives_a_password_is_that_user() {
    let mut request = request(Some("user=bob"));
    request.authorization = Some(basic(b"carol:pw"));
    assert_eq!(
        open_conversation(&request, &config()),
        Opening::LookUp {
            username: "carol".to_string(),
            authorization: RequestAuthorization::Basic {
                username: "carol".to_string(),
                password: "pw".to_string(),
            },
        }
    );
    request.authorization = Some(basic(b":pw"));
    match open_conversation(&request, &config()) {
        Opening::LookUp { username, .. } => assert_eq!(username, "bob"),
        other => panic!("unexpected {other:?}"),
    }
}

#[test]
fn missing_bearer_token_is_rejected_when_auth_is_required() {
    let step = authorize_request(&RequestAuthorization::Absent, &user(), &config());
    assert_eq!(step, AuthorizationStep::Reject);
    assert_eq!(conversation_status(false), 401);
    assert_eq!(conversation_status(true), 200);
}

#[test]
fn missing_basic_auth_is_rejected_when_password_login_is_required() {
    let mut config = config();
    config.require_authentication = false;
    config.enable_password_login = true;
    let step = authorize_request(&RequestAuthorization::Absent, &user(), &config);
    assert_eq!(step, AuthorizationStep::Reject);
}

#[test]
fn basic_password_auth_authorizes_session_startup() {
    let password = "correct horse battery staple";
    let mut config = config();
    config.enable_password_login = true;
    config.default_user = Some("does-not-exist".to_string());
    let mut request = request(None);
    request.authorization = Some(basic(format!("alice:{password}").as_bytes()));
    let authorization = match open_conversation(&request, &config) {
        Opening::LookUp { username, authorization } => {
            assert_eq!(username, "alice");
            authorization
        }
        other => panic!("unexpected {other:?}"),
    };
    assert_eq!(
        authorize_request(&authorization, &user(), &config),
        AuthorizationStep::CheckPassword {
            username: "alice".to_string(),
            password: password.to_string(),
        }
    );
    assert_eq!(conversation_status(true), 200);
}

#[test]
fn passwords_are_checked_only_where_they_are_in_use() {
    let given = |name: &str| RequestAuthorization::Basic {
        username: name.to_string(),
        password: "pw".to_string(),
    };
    let mut config = config();
    assert_eq!(authorize_request(&given("alice"), &user(), &config), AuthorizationStep::Reject);
    config.enable_password_login = true;
    assert_eq!(
        authorize_request(&given("alice"), &user(), &config),
        AuthorizationStep::CheckPassword {
            username: "alice".to_string(),
            password: "pw".to_string(),
        }
    );
    assert_eq!(authorize_request(&given("bob"), &user(), &config), AuthorizationStep::Reject);
}

#[test]
fn nobody_is_checked_where_nothing_is_asked_for() {
    let mut config = config();
    config.require_authentication = false;
    assert!(!should_authenticate(&config));
    let step = authorize_request(&RequestAuthorization::Absent, &user(), &config);
    assert_eq!(step, AuthorizationStep::Accept);
    config.authorized_identity_paths.push(b"/keys".to_vec());
    assert!(should_authenticate(&config));
}

#[test]
fn tokens_are_checked_against_the_files_of_the_user() {
    let bearer = RequestAuthorization::Bearer("token".to_string());
    let mut config = config();
    assert_eq!(
        authorize_request(&bearer, &user(), &config),
        AuthorizationStep::CheckToken {
            token: "token".to_string(),
            paths: vec![
                b"/home/alice/.ssh3/authorized_identities".to_vec(),
                b"/home/alice/.ssh/authorized_keys".to_vec(),
            ],
        }
    );
    config.authorized_identity_paths = vec![b"/a".to_vec(), b"/b".to_vec()];
    assert_eq!(
        configured_authorized_identity_paths(&config, &user()),
        vec![b"/a".to_vec(), b"/b".to_vec()]
    );
}

fn library_key(key: ssh_key::PrivateKey) -> PrivateKey {
    load_private_key(&key.to_openssh(ssh_key::LineEnding::LF).unwrap()).unwrap()
}

fn private_key(seed: u8) -> PrivateKey {
    library_key(ssh_key::PrivateKey::from(ssh_key::private::Ed25519Keypair::from_seed(&[seed; 32])))
}

fn credential(key: &PrivateKey) -> Credential {
    Credential {
        token: build_bearer_token(key, b"{}", b"{}").unwrap(),
        header: Ok(bearer_header(&key.public_key).unwrap()),
        claims: Ok(bearer_claims("alice", &[5; 32], 100)),
        username: "alice".to_string(),
        conversation_id: [5; 32],
        now: 100,
    }
}

fn oidc_identity() -> AuthorizedIdentity {
    AuthorizedIdentity::Oidc(OidcIdentity {
        client_id: "a".to_string(),
        issuer_url: "b".to_string(),
        email: "c".to_string(),
    })
}

#[test]
fn bearer_tokens_authorize_session_startup() {
    let key = private_key(1);
    let identities = [AuthorizedIdentity::PublicKey(key.public_key.clone())];
    assert_eq!(check_token(&identities, &credential(&key), 0), TokenStep::Accept);
}

#[test]
fn nist_p256_bearer_tokens_authorize_session_startup() {
    let secret = p256::SecretKey::from_slice(&[29; 32]).unwrap();
    let key = library_key(ssh_key::PrivateKey::from(ssh_key::private::EcdsaKeypair::NistP256 {
        public: secret.public_key().into(),
        private: secret.into(),
    }));
    let identities = [AuthorizedIdentity::PublicKey(key.public_key.clone())];
    assert_eq!(check_token(&identities, &credential(&key), 0), TokenStep::Accept);
}

#[test]
fn rsa_bearer_tokens_authorize_session_startup() {
    let made = rsa::RsaPrivateKey::new(&mut rand::rngs::OsRng, 2048).unwrap();
    let pair = ssh_key::private::RsaKeypair::try_from(&made).unwrap();
    let key = library_key(ssh_key::PrivateKey::from(pair));
    let identities = [AuthorizedIdentity::PublicKey(key.public_key.clone())];
    assert_eq!(check_token(&identities, &credential(&key), 0), TokenStep::Accept);
}

#[test]
fn tokens_are_held_against_one_identity_after_the_other() {
    let key = private_key(1);
    let credential = credential(&key);
    let identities = [
        AuthorizedIdentity::PublicKey(private_key(2).public_key),
        oidc_identity(),
        AuthorizedIdentity::PublicKey(key.public_key.clone()),
        oidc_identity(),
    ];
    assert_eq!(check_token(&identities, &credential, 0), TokenStep::AskProvider(1));
    assert_eq!(check_token(&identities, &credential, 2), TokenStep::Accept);
    assert_eq!(check_token(&identities, &credential, 3), TokenStep::AskProvider(3));
    assert_eq!(check_token(&identities, &credential, 4), TokenStep::Reject);
    assert_eq!(check_token(&identities[..1], &credential, 0), TokenStep::Reject);
    assert_eq!(check_token(&[], &credential, 0), TokenStep::Reject);
}

#[test]
fn the_standard_configuration_is_the_documented_one() {
    let config = ServerConfig::standard(None, Some(String::new()));
    assert_eq!(config.bind_addr, SocketAddr { ip: IpAddr::V4([127, 0, 0, 1]), port: 4433 });
    assert_eq!(config.cert_subject_alt_names, vec!["localhost".to_string()]);
    assert_eq!(config.server_header, SSH3_VERSION_STRING);
    assert_eq!((config.max_packet_size, config.default_datagrams_queue_size), (30_000, 10));
    assert!(config.require_authentication && !config.enable_password_login);
    assert_eq!((config.default_user, config.shell), (None, None));
}

#[test]
fn the_command_line_changes_the_configuration() {
    let options = ServerOptions {
        bind: Some(SocketAddr { ip: IpAddr::V4([0, 0, 0, 0]), port: 443 }),
        hostname: vec!["a".to_string()],
        server_header: Some("h".to_string()),
        require_auth: false,
        enable_password_login: true,
        authorized_identity: vec![b"/keys".to_vec()],
        user: Some("bob".to_string()),
        shell: None,
    };
    let changed = config().with_options(options);
    assert_eq!(changed.bind_addr.port, 443);
    assert_eq!(changed.cert_subject_alt_names, vec!["a".to_string()]);
    assert_eq!(changed.server_header, "h");
    assert!(changed.require_authentication && changed.enable_password_login);
    assert_eq!(changed.authorized_identity_paths, vec![b"/keys".to_vec()]);
    assert_eq!(changed.default_user, Some("bob".to_string()));
    assert_eq!(changed.shell, Some("/bin/zsh".to_string()));
    assert_eq!(validate_server_config(&changed, true), Ok(()));
    assert_eq!(
        validate_server_config(&changed, false),
        Err("password authentication is not supported on this platform".to_string())
    );
    assert_eq!(validate_server_config(&config(), false), Ok(()));
}

fn environment() -> ServerEnvironment {
    ServerEnvironment { search_path: None, uid: 0, gid: 0 }
}

#[test]
fn shell_requests_start_a_login_shell() {
    let pty = PendingPty {
        term: Some("xterm".to_string()),
        size: SessionPtySize { char_width: 80, char_height: 24, pixel_width: 0, pixel_height: 0 },
    };
    let process = session_process(
        &config(),
        &user(),
        &SessionCommand::Shell,
        Some(&pty),
        Some(b"/tmp/agent"),
        &environment(),
    );
    assert_eq!(process.program, b"/bin/zsh");
    assert_eq!(process.arg0, Some("-zsh".to_string()));
    assert!(process.arguments.is_empty());
    assert_eq!(process.directory, b"/home/alice");
    assert_eq!(process.owner, Some((1000, 100)));
    let variables: Vec<(String, String)> = process
        .variables
        .into_iter()
        .map(|variable| (variable.name, String::from_utf8(variable.value).unwrap()))
        .collect();
    let expected = [
        ("HOME", "/home/alice"),
        ("USER", "alice"),
        ("LOGNAME", "alice"),
        ("SHELL", "/bin/zsh"),
        ("SSH_AUTH_SOCK", "/tmp/agent"),
        ("PATH", "/usr/bin:/bin:/usr/sbin:/sbin"),
        ("TERM", "xterm"),
    ];
    let expected: Vec<(String, String)> =
        expected.iter().map(|(name, value)| (name.to_string(), value.to_string())).collect();
    assert_eq!(variables, expected);
}

#[test]
fn exec_requests_run_commands_and_report_exit_status() {
    let mut session = Session::new();
    let exec = ExecRequest { command: b"printf 'hello from rust\\n'".to_vec() };
    let step = session.on_message(ask(ChannelRequest::Exec(exec), true));
    let command = SessionCommand::Exec("printf 'hello from rust\\n'".to_string());
    assert_eq!(step, SessionStep::Start { command: command.clone(), pty: None });
    assert_eq!(session.on_outcome(None), Answer { note: None, reply: Some(true) });

    let mut config = config();
    config.shell = Some(String::new());
    let own = ServerEnvironment { search_path: Some("/p".to_string()), uid: 1000, gid: 100 };
    let process = session_process(&config, &user(), &command, None, None, &own);
    assert_eq!(process.program, b"/bin/sh");
    assert_eq!(process.arg0, None);
    assert_eq!(
        process.arguments,
        vec!["-c".to_string(), "printf 'hello from rust\\n'".to_string()]
    );
    assert_eq!(process.owner, None);
    assert_eq!(process.variables.len(), 5);
    assert_eq!(effective_shell(&config, &user()), b"/bin/sh");
    assert_eq!(exit_status(Some(0)), 0);
}

#[test]
fn exit_statuses_are_never_negative() {
    assert_eq!(exit_status(Some(3)), 3);
    assert_eq!(exit_status(Some(-3)), 0);
    assert_eq!(exit_status(None), 1);
}

#[test]
fn the_exit_is_reported_once_behind_all_output() {
    let printed = |output, data: &[u8]| ProcessEvent::Printed(output, data.to_vec());
    let sent = |data_type, data: &[u8]| ProcessStep::Data { data_type, data: data.to_vec() };
    let mut relay = ProcessRelay::new(false);
    assert_eq!(relay.on_event(printed(Output::Stdout, b"a")), sent(SSH_EXTENDED_DATA_NONE, b"a"));
    assert_eq!(relay.on_event(ProcessEvent::Exited(Some(4))), ProcessStep::Nothing);
    assert_eq!(relay.on_event(printed(Output::Stderr, b"b")), sent(SSH_EXTENDED_DATA_STDERR, b"b"));
    assert_eq!(relay.on_event(ProcessEvent::Ended(Output::Stderr)), ProcessStep::Nothing);
    assert_eq!(relay.on_event(printed(Output::Stderr, b"c")), ProcessStep::Nothing);
    let report = exit_report(Some(4));
    assert!(!report.want_reply);
    assert_eq!(
        relay.on_event(ProcessEvent::Ended(Output::Stdout)),
        ProcessStep::Report(report)
    );
    assert_eq!(relay.on_event(ProcessEvent::Exited(None)), ProcessStep::Nothing);
    assert_eq!(relay.on_event(ProcessEvent::Ended(Output::Stdout)), ProcessStep::Nothing);

    let mut on_terminal = ProcessRelay::new(true);
    assert_eq!(on_terminal.on_event(ProcessEvent::Ended(Output::Stdout)), ProcessStep::Nothing);
    assert_eq!(
        on_terminal.on_event(ProcessEvent::Exited(None)),
        ProcessStep::Report(exit_report(None))
    );
}

#[test]
fn requested_user_header_selects_the_session_environment() {
    let mut config = config();
    config.require_authentication = false;
    config.default_user = Some("does-not-exist".to_string());
    let mut request = request(None);
    request.user = Some(b"alice".to_vec());
    assert_eq!(
        open_conversation(&request, &config),
        Opening::LookUp {
            username: "alice".to_string(),
            authorization: RequestAuthorization::Absent,
        }
    );
    let command =
        SessionCommand::Exec("printf '%s|%s|%s\\n' \"$HOME\" \"$USER\" \"$SHELL\"".to_string());
    let process = session_process(&config, &user(), &command, None, None, &environment());
    let value = |name: &str| {
        let found = process.variables.iter().find(|variable| variable.name == name).unwrap();
        String::from_utf8(found.value.clone()).unwrap()
    };
    assert_eq!(
        format!("{}|{}|{}", value("HOME"), value("USER"), value("SHELL")),
        "/home/alice|alice|/bin/zsh"
    );
}

#[test]
fn login_shells_are_named_after_themselves() {
    assert_eq!(login_shell_arg0(b"/usr/bin/fish"), "-fish");
    assert_eq!(login_shell_arg0(b"/"), "-sh");
    assert_eq!(login_shell_arg0(&[b'/', 0xff]), "-sh");
}

#[test]
fn signals_are_named_in_either_case_with_or_without_sig() {
    assert_eq!(parse_signal_request(b"TERM"), Some(Signal::Term));
    assert_eq!(parse_signal_request(b"sigterm"), Some(Signal::Term));
    assert_eq!(parse_signal_request(b"SIGSIGTERM"), None);
    assert_eq!(parse_signal_request(b"KILL"), None);
    assert_eq!(parse_signal_request(b""), None);
    let cases = [
        ("ABRT", Signal::Abrt),
        ("IOT", Signal::Abrt),
        ("ALRM", Signal::Alrm),
        ("BUS", Signal::Bus),
        ("CHLD", Signal::Chld),
        ("CLD", Signal::Chld),
        ("CONT", Signal::Cont),
        ("FPE", Signal::Fpe),
        ("HUP", Signal::Hup),
        ("ILL", Signal::Ill),
        ("INT", Signal::Int),
        ("PIPE", Signal::Pipe),
        ("QUIT", Signal::Quit),
        ("SEGV", Signal::Segv),
        ("STOP", Signal::Stop),
        ("TERM", Signal::Term),
        ("TRAP", Signal::Trap),
        ("TSTP", Signal::Tstp),
        ("TTIN", Signal::Ttin),
        ("TTOU", Signal::Ttou),
        ("USR1", Signal::Usr1),
        ("USR2", Signal::Usr2),
        ("WINCH", Signal::Winch),
        ("XCPU", Signal::Xcpu),
        ("XFSZ", Signal::Xfsz),
    ];
    for (name, signal) in cases {
        assert_eq!(parse_signal_name(name), Some(signal));
        assert_eq!(parse_signal_name(&format!("sig{}", name.to_lowercase())), Some(signal));
    }
}

fn ask(request: ChannelRequest, want_reply: bool) -> Message {
    Message::ChannelRequest(ChannelRequestMessage { want_reply, request })
}

fn data(bytes: &[u8]) -> Message {
    Message::Data(DataOrExtendedDataMessage {
        data_type: SSH_EXTENDED_DATA_NONE,
        data: bytes.to_vec(),
    })
}

fn told(note: Option<&str>, reply: Option<bool>) -> SessionStep {
    SessionStep::Answer(Answer { note: note.map(|note| note.to_string()), reply })
}

fn pty_request() -> ChannelRequest {
    ChannelRequest::Pty(PtyRequest {
        term: b"xterm".to_vec(),
        char_width: 80,
        char_height: 24,
        pixel_width: 100_000,
        pixel_height: 0,
        encoded_terminal_modes: Vec::new(),
    })
}

fn resize(char_width: u64) -> ChannelRequest {
    ChannelRequest::WindowChange(WindowChangeRequest {
        char_width,
        char_height: 40,
        pixel_width: 0,
        pixel_height: 0,
    })
}

fn signal_request(name: &[u8]) -> ChannelRequest {
    ChannelRequest::Signal(SignalRequest { signal_name_without_sig: name.to_vec() })
}

#[test]
fn pty_requests_create_a_tty_and_apply_live_window_changes() {
    let mut session = Session::new();
    let request = PtyRequest {
        term: b"vt100".to_vec(),
        char_width: 40,
        char_height: 12,
        pixel_width: 0,
        pixel_height: 0,
        encoded_terminal_modes: Vec::new(),
    };
    let step = session.on_message(ask(ChannelRequest::Pty(request), true));
    assert_eq!(step, told(None, Some(true)));
    let text = "sleep 0.2; if [ -t 0 ]; then printf 'pty:%s ' \"$TERM\"; stty size; \
                else printf 'notty\\n'; fi";
    let exec = ExecRequest { command: text.as_bytes().to_vec() };
    let command = SessionCommand::Exec(text.to_string());
    let pty = PendingPty {
        term: Some("vt100".to_string()),
        size: SessionPtySize { char_width: 40, char_height: 12, pixel_width: 0, pixel_height: 0 },
    };
    assert_eq!(
        session.on_message(ask(ChannelRequest::Exec(exec), true)),
        SessionStep::Start { command: command.clone(), pty: Some(pty.clone()) }
    );
    let process = session_process(&config(), &user(), &command, Some(&pty), None, &environment());
    let term = process.variables.last().unwrap();
    assert_eq!((term.name.as_str(), term.value.as_slice()), ("TERM", b"vt100".as_slice()));
    assert_eq!(session.on_outcome(None), Answer { note: None, reply: Some(true) });
    let change = WindowChangeRequest {
        char_width: 61,
        char_height: 19,
        pixel_width: 0,
        pixel_height: 0,
    };
    assert_eq!(
        session.on_message(ask(ChannelRequest::WindowChange(change), false)),
        SessionStep::Resize(SessionPtySize {
            char_width: 61,
            char_height: 19,
            pixel_width: 0,
            pixel_height: 0,
        })
    );
    assert_eq!(session.on_outcome(None), Answer { note: None, reply: None });
    assert_eq!(exit_status(Some(0)), 0);
}

#[test]
fn terminals_are_resized_before_and_after_the_start() {
    let mut session = Session::new();
    assert_eq!(session.on_message(ask(pty_request(), true)), told(None, Some(true)));
    assert_eq!(session.on_message(ask(resize(120), false)), told(None, None));
    let size = |char_width| SessionPtySize {
        char_width,
        char_height: 40,
        pixel_width: 0,
        pixel_height: 0,
    };
    assert_eq!(
        session.on_message(ask(ChannelRequest::Shell, true)),
        SessionStep::Start {
            command: SessionCommand::Shell,
            pty: Some(PendingPty { term: Some("xterm".to_string()), size: size(120) }),
        }
    );
    assert!(session.awaits_outcome());
    assert_eq!(session.on_outcome(None), Answer { note: None, reply: Some(true) });
    assert!(!session.awaits_outcome());
    assert_eq!(session.on_message(ask(resize(70_000), true)), SessionStep::Resize(size(65_535)));
    assert_eq!(
        session.on_outcome(Some("no tty")),
        Answer { note: Some("no tty\n".to_string()), reply: Some(false) }
    );
    assert_eq!(
        session.on_message(ask(pty_request(), true)),
        told(Some("cannot request a PTY after the session has started\n"), Some(false))
    );
}

#[test]
fn a_session_starts_once() {
    let mut session = Session::new();
    let exec = || ChannelRequest::Exec(ExecRequest { command: b"ls".to_vec() });
    let start = SessionStep::Start {
        command: SessionCommand::Exec("ls".to_string()),
        pty: None,
    };
    assert_eq!(session.on_message(ask(exec(), true)), start);
    assert_eq!(
        session.on_outcome(Some("failed")),
        Answer { note: Some("failed\n".to_string()), reply: Some(false) }
    );
    assert_eq!(session.on_message(ask(exec(), false)), start);
    assert_eq!(session.on_outcome(None), Answer { note: None, reply: None });
    assert_eq!(
        session.on_message(ask(ChannelRequest::Shell, true)),
        told(Some("session is already running\n"), Some(false))
    );
    assert_eq!(
        session.on_message(ask(resize(80), true)),
        told(Some("window-change requires a PTY-backed session\n"), Some(false))
    );
    assert_eq!(session.on_message(data(b"in")), SessionStep::Input(b"in".to_vec()));
    assert_eq!(
        session.on_message(Message::ChannelEof),
        SessionStep::Finish { close_input: true, wait_for_exit: true }
    );
    assert_eq!(
        session.on_message(Message::ChannelClose),
        SessionStep::Finish { close_input: true, wait_for_exit: false }
    );
    assert_eq!(
        session.on_input_terminated(),
        SessionStep::Finish { close_input: true, wait_for_exit: false }
    );
}

#[test]
fn an_empty_command_is_an_empty_text() {
    let mut session = Session::new();
    let exec = ChannelRequest::Exec(ExecRequest { command: Vec::new() });
    assert_eq!(
        session.on_message(ask(exec, true)),
        SessionStep::Start { command: SessionCommand::Exec(String::new()), pty: None }
    );
    assert_eq!(ssh_bytes_to_string(b""), None);
    assert_eq!(ssh_bytes_to_string(&[b'a', 0xff]), Some("a\u{fffd}".to_string()));
    assert_eq!(clamp_u64_to_u16(65_535), 65_535);
    assert_eq!(clamp_u64_to_u16(65_536), 65_535);
}

#[test]
fn signal_requests_are_forwarded_to_the_running_session() {
    let mut session = Session::new();
    let text = "trap 'printf trapped\\n; exit 0' TERM; while :; do sleep 1; done";
    let exec = ExecRequest { command: text.as_bytes().to_vec() };
    session.on_message(ask(ChannelRequest::Exec(exec), true));
    session.on_outcome(None);
    assert_eq!(
        session.on_message(ask(signal_request(b"TERM"), false)),
        SessionStep::Signal(Signal::Term)
    );
    assert_eq!(session.on_outcome(None), Answer { note: None, reply: None });
    assert_eq!(exit_status(Some(0)), 0);
}

#[test]
fn signals_go_to_running_sessions_only() {
    let mut session = Session::new();
    assert_eq!(
        session.on_message(ask(signal_request(b"TERM"), true)),
        told(Some("cannot signal a session before it has started\n"), Some(false))
    );
    session.on_message(ask(ChannelRequest::Shell, false));
    session.on_outcome(None);
    assert_eq!(
        session.on_message(ask(signal_request(b"TERM"), true)),
        SessionStep::Signal(Signal::Term)
    );
    assert_eq!(session.on_outcome(None), Answer { note: None, reply: Some(true) });
    assert_eq!(
        session.on_message(ask(signal_request(b"WHAT"), true)),
        told(Some("unsupported signal: WHAT\n"), Some(false))
    );
}

#[test]
fn a_session_that_has_not_started_takes_no_data() {
    let mut session = Session::new();
    assert_eq!(
        session.on_message(data(b"x")),
        told(Some("cannot send session data before the session has started\n"), None)
    );
    assert_eq!(
        session.on_message(ask(resize(80), true)),
        told(Some("window-change requires a pending or running PTY session\n"), Some(false))
    );
    let extended = Message::Data(DataOrExtendedDataMessage {
        data_type: SSH_EXTENDED_DATA_STDERR,
        data: b"x".to_vec(),
    });
    assert_eq!(
        session.on_message(extended),
        told(Some("unsupported extended data message\n"), None)
    );
    let other = ChannelRequest::Subsystem(SubsystemRequest { subsystem_name: b"sftp".to_vec() });
    assert_eq!(
        session.on_message(ask(other.clone(), true)),
        SessionStep::Unsupported { request: other, reply: Some(false) }
    );
    assert_eq!(session.on_message(Message::ChannelSuccess), told(None, None));
    assert_eq!(
        session.on_message(Message::ChannelEof),
        SessionStep::Finish { close_input: false, wait_for_exit: false }
    );
    assert_eq!(unsupported_request_note("X"), "unsupported session request: X\n");
}

#[test]
fn the_agent_is_opened_once() {
    let mut session = Session::new();
    assert_eq!(session.on_message(data(b"forward-agent")), SessionStep::OpenAgent);
    assert_eq!(
        session.on_outcome(Some("no socket")),
        Answer { note: Some("no socket\n".to_string()), reply: None }
    );
    assert_eq!(session.on_message(data(b"forward-agent")), SessionStep::OpenAgent);
    assert_eq!(session.on_outcome(None), Answer { note: None, reply: None });
    assert_eq!(session.on_message(data(b"forward-agent")), told(None, None));
    session.on_message(ask(ChannelRequest::Shell, false));
    session.on_outcome(None);
    assert_eq!(
        session.on_message(data(b"forward-agent")),
        SessionStep::Input(b"forward-agent".to_vec())
    );
}

#[test]
fn the_peer_is_told_on_its_channel() {
    let mut channel =
        Channel::new(1, [0; 32], 2, b"x11".to_vec(), 1024, None, false, true, true, 4, None);
    assert!(!is_session_channel(channel.channel_type()));
    assert!(is_session_channel(b"session"));
    let note = unsupported_channel_note(channel.channel_type());
    assert_eq!(note, "unsupported channel type: x11\n");
    let (parts, result) = write_stderr(&mut channel, note.as_bytes());
    assert_eq!(result, Ok(()));
    let message = Message::Data(DataOrExtendedDataMessage {
        data_type: SSH_EXTENDED_DATA_STDERR,
        data: note.into_bytes(),
    });
    assert_eq!(parts.concat(), message.to_vec());
    assert_eq!(
        send_channel_request_reply(&mut channel, true).concat(),
        Message::ChannelSuccess.to_vec()
    );
    assert_eq!(
        send_channel_request_reply(&mut channel, false).concat(),
        Message::ChannelFailure.to_vec()
    );
}

#[test]
fn relayed_channels_carry_ordinary_data() {
    assert_eq!(relay_message(data(b"x")), RelayStep::Write(b"x".to_vec()));
    let extended = Message::Data(DataOrExtendedDataMessage {
        data_type: SSH_EXTENDED_DATA_STDERR,
        data: b"x".to_vec(),
    });
    assert_eq!(relay_message(extended), RelayStep::Ignore);
    assert_eq!(relay_message(Message::ChannelEof), RelayStep::Stop);
    assert_eq!(relay_message(Message::ChannelClose), RelayStep::Stop);
    assert_eq!(relay_message(Message::ChannelSuccess), RelayStep::Ignore);
    assert_eq!(read_buffer_size(0), 1);
    assert_eq!(read_buffer_size(30_000), 30_000);
    let v4 = SocketAddr { ip: IpAddr::V4([1, 2, 3, 4]), port: 9 };
    assert_eq!(bind_address_for(&v4), SocketAddr { ip: IpAddr::V4([0; 4]), port: 0 });
    let v6 = SocketAddr { ip: IpAddr::V6([1; 16]), port: 9 };
    assert_eq!(bind_address_for(&v6), SocketAddr { ip: IpAddr::V6([0; 16]), port: 0 });
}

fn io(kind: IoErrorKind, message: &str) -> IoFailure {
    IoFailure { kind, connection: None, message: message.to_string() }
}

#[test]
fn failures_that_only_mean_that_the_peer_is_gone_are_benign() {
    assert!(is_benign_io_error(&io(IoErrorKind::BrokenPipe, "")));
    assert!(is_benign_io_error(&io(IoErrorKind::Other, "Connection LOST now")));
    assert!(is_benign_io_error(&io(IoErrorKind::Other, "closed stream")));
    assert!(is_benign_io_error(&io(IoErrorKind::Other, "connection closed")));
    assert!(!is_benign_io_error(&io(IoErrorKind::Other, "disk full")));
    assert!(!is_benign_io_error(&io(IoErrorKind::InvalidData, "bad")));
    assert!(!is_benign_io_error(&io(IoErrorKind::InvalidInput, "bad")));
    let lost = IoFailure {
        connection: Some(ConnectionFailure::TimedOut),
        ..io(IoErrorKind::Other, "x")
    };
    assert!(is_session_input_terminated(&ChannelFailure::Io(lost.clone())));
    assert!(!is_session_input_terminated(&ChannelFailure::Other));
    let reset = IoFailure { connection: Some(ConnectionFailure::Reset), ..lost.clone() };
    assert!(!is_benign_io_error(&reset));

    let accept = AcceptChannelFailure::Connection(ConnectionFailure::LocallyClosed);
    assert!(is_benign_accept_channel_error(&accept));
    assert!(is_benign_route_error(&RouteFailure::Accept(accept.clone())));
    assert!(!is_benign_route_error(&RouteFailure::Other));
    let conversation = ConversationFailure::Channel(ChannelFailure::Io(lost.clone()));
    let open = OpenChannelFailure::Conversation(conversation.clone());
    for failure in [
        ServerFailure::Connection(ConnectionFailure::ApplicationClosed),
        ServerFailure::OpenChannel(open.clone()),
        ServerFailure::AcceptChannel(accept.clone()),
        ServerFailure::RouteAcceptedChannel(RouteFailure::Accept(accept)),
        ServerFailure::DatagramDispatch(DatagramFailure::Connection(
            ConnectionFailure::ConnectionClosed,
        )),
        ServerFailure::Conversation(conversation),
        ServerFailure::Channel(ChannelFailure::Io(lost.clone())),
        ServerFailure::Io(lost.clone()),
    ] {
        assert!(is_benign_server_error(&failure));
    }
    assert!(!is_benign_server_error(&ServerFailure::Other));
    assert!(!is_benign_server_error(&ServerFailure::Connection(ConnectionFailure::Reset)));
    assert!(!is_benign_client_error(&ClientFailure::OpenChannel(open)));
    assert!(is_benign_client_error(&ClientFailure::Io(lost)));
}

#[test]
fn passwords_are_checked_against_the_shadow_database() {
    assert_eq!(check_credentials("alice", "pw"), Ok(()));
    assert_eq!(check_credentials("a\0", "\0"), Err("username contains NUL byte".to_string()));
    assert_eq!(check_credentials("a", "\0"), Err("password contains NUL byte".to_string()));
    assert_eq!(
        after_lookup(ShadowLookup::Found(b"$6$x".to_vec()), 1024),
        PasswordStep::Hash(b"$6$x".to_vec())
    );
    for locked in [b"".as_slice(), b"!", b"*", b"!$6$x"] {
        assert_eq!(
            after_lookup(ShadowLookup::Found(locked.to_vec()), 1024),
            PasswordStep::Reject
        );
    }
    assert_eq!(after_lookup(ShadowLookup::Missing, 1024), PasswordStep::Reject);
    assert_eq!(after_lookup(ShadowLookup::TooLarge, 1024), PasswordStep::Retry(2048));
    assert_eq!(after_lookup(ShadowLookup::TooLarge, 1 << 20), PasswordStep::Fail);
    assert_eq!(after_lookup(ShadowLookup::Failed, 1024), PasswordStep::Fail);
    assert!(hashes_match(b"a", b"a"));
    assert!(!hashes_match(b"a", b"b"));
}
