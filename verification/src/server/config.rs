//! What a server is configured with, the users that it serves, and the processes that it runs for
//! them.

use crate::http::SSH3_VERSION_STRING;
use crate::path::{
    file_name, join_path, joined_path, last_name, last_name_is_behind_the_last_slash,
    last_name_is_that_of_the_directory, name_is_put_behind_one_slash,
};
use crate::proto::address::{IpAddr, IpAddrView, SocketAddr, SocketAddrView};
use crate::server::session::{PendingPty, PendingPtyView, SessionCommand, SessionCommandView};
use crate::text::{byte_strings_view, joined, text_view, texts_view, utf8_text};
use vstd::prelude::*;
use vstd::slice::slice_to_vec;
use vstd::string::*;
use vstd::utf8::{decode_utf8, valid_utf8};

verus! {

/// The configuration of a server. Paths are byte strings.
#[derive(Clone, Debug, PartialEq, Eq)]
pub struct ServerConfig {
    pub bind_addr: SocketAddr,
    pub cert_subject_alt_names: Vec<String>,
    pub server_header: String,
    pub max_packet_size: u64,
    pub default_datagrams_queue_size: usize,
    pub require_authentication: bool,
    pub enable_password_login: bool,
    pub authorized_identity_paths: Vec<Vec<u8>>,
    pub default_user: Option<String>,
    pub shell: Option<String>,
    /// Whether passwords are checked by something other than the platform.
    pub custom_password_verifier: bool,
}

/// The mathematical counterpart of [`ServerConfig`].
pub struct ServerConfigView {
    pub bind_addr: SocketAddrView,
    pub cert_subject_alt_names: Seq<Seq<char>>,
    pub server_header: Seq<char>,
    pub max_packet_size: u64,
    pub default_datagrams_queue_size: nat,
    pub require_authentication: bool,
    pub enable_password_login: bool,
    pub authorized_identity_paths: Seq<Seq<u8>>,
    pub default_user: Option<Seq<char>>,
    pub shell: Option<Seq<char>>,
    pub custom_password_verifier: bool,
}

impl View for ServerConfig {
    type V = ServerConfigView;

    open spec fn view(&self) -> ServerConfigView {
        ServerConfigView {
            bind_addr: self.bind_addr@,
            cert_subject_alt_names: texts_view(self.cert_subject_alt_names@),
            server_header: self.server_header@,
            max_packet_size: self.max_packet_size,
            default_datagrams_queue_size: self.default_datagrams_queue_size as nat,
            require_authentication: self.require_authentication,
            enable_password_login: self.enable_password_login,
            authorized_identity_paths: byte_strings_view(self.authorized_identity_paths@),
            default_user: text_view(self.default_user),
            shell: text_view(self.shell),
            custom_password_verifier: self.custom_password_verifier,
        }
    }
}

/// A text that is there and not empty.
pub open spec fn non_empty(text: Option<Seq<char>>) -> Option<Seq<char>> {
    match text {
        Some(chars) => if chars.len() > 0 {
            text
        } else {
            None
        },
        None => None,
    }
}

fn keep_non_empty(text: Option<String>) -> (kept: Option<String>)
    ensures
        text_view(kept) == non_empty(text_view(text)),
{
    match text {
        Some(text) => if text.as_str().unicode_len() > 0 {
            Some(text)
        } else {
            None
        },
        None => None,
    }
}

impl ServerConfigView {
    /// The configuration of a server that is told nothing, where the current user and the shell
    /// of the environment are known or not.
    pub open spec fn standard(user: Option<Seq<char>>, shell: Option<Seq<char>>) -> Self {
        ServerConfigView {
            bind_addr: SocketAddrView { ip: IpAddrView::V4(seq![127u8, 0, 0, 1]), port: 4433 },
            cert_subject_alt_names: seq!["localhost"@],
            server_header: SSH3_VERSION_STRING@,
            max_packet_size: 30_000,
            default_datagrams_queue_size: 10,
            require_authentication: true,
            enable_password_login: false,
            authorized_identity_paths: Seq::empty(),
            default_user: user,
            shell: non_empty(shell),
            custom_password_verifier: false,
        }
    }

    /// Whether a request has to say who it is from.
    pub open spec fn authenticates(self) -> bool {
        self.require_authentication || self.enable_password_login
            || self.authorized_identity_paths.len() > 0
    }

    /// The program of a user's sessions: the configured shell, or the user's own.
    pub open spec fn shell_for(self, user: SessionUserView) -> Seq<u8> {
        match self.shell {
            Some(shell) => if shell.len() > 0 {
                vstd::utf8::encode_utf8(shell)
            } else {
                user.own_shell()
            },
            None => user.own_shell(),
        }
    }

    /// The files that list who may log in as the user.
    pub open spec fn identity_paths_for(self, user: SessionUserView) -> Seq<Seq<u8>> {
        if self.authorized_identity_paths.len() > 0 {
            self.authorized_identity_paths
        } else {
            user.default_identity_paths()
        }
    }
}

/// A user whose sessions the server runs.
#[derive(Clone, Debug, PartialEq, Eq)]
pub struct SessionUser {
    pub username: String,
    pub home_dir: Vec<u8>,
    pub shell: Vec<u8>,
    pub uid: u32,
    pub gid: u32,
}

/// The mathematical counterpart of [`SessionUser`].
pub struct SessionUserView {
    pub username: Seq<char>,
    pub home_dir: Seq<u8>,
    pub shell: Seq<u8>,
    pub uid: u32,
    pub gid: u32,
}

impl View for SessionUser {
    type V = SessionUserView;

    open spec fn view(&self) -> SessionUserView {
        SessionUserView {
            username: self.username@,
            home_dir: self.home_dir@,
            shell: self.shell@,
            uid: self.uid,
            gid: self.gid,
        }
    }
}

impl SessionUserView {
    /// The user's shell, or the shell that every system has.
    pub open spec fn own_shell(self) -> Seq<u8> {
        if self.shell.len() > 0 {
            self.shell
        } else {
            "/bin/sh".spec_bytes()
        }
    }

    /// The files below the user's home that list who may log in.
    pub open spec fn default_identity_paths(self) -> Seq<Seq<u8>> {
        seq![
            joined_path(
                joined_path(self.home_dir, ".ssh3".spec_bytes()),
                "authorized_identities".spec_bytes(),
            ),
            joined_path(
                joined_path(self.home_dir, ".ssh".spec_bytes()),
                "authorized_keys".spec_bytes(),
            ),
        ]
    }
}

impl ServerConfig {
    /// The configuration of a server that is told nothing, where the current user and the shell
    /// of the environment are known or not.
    pub fn standard(user: Option<String>, shell: Option<String>) -> (config: Self)
        ensures
            config@ == ServerConfigView::standard(text_view(user), text_view(shell)),
    {
        let octets: [u8; 4] = [127u8, 0u8, 0u8, 1u8];
        let mut names: Vec<String> = Vec::new();
        names.push("localhost".to_owned());
        let config = ServerConfig {
            bind_addr: SocketAddr { ip: IpAddr::V4(octets), port: 4433 },
            cert_subject_alt_names: names,
            server_header: SSH3_VERSION_STRING.to_owned(),
            max_packet_size: 30_000,
            default_datagrams_queue_size: 10,
            require_authentication: true,
            enable_password_login: false,
            authorized_identity_paths: Vec::new(),
            default_user: user,
            shell: keep_non_empty(shell),
            custom_password_verifier: false,
        };
        proof {
            assert(octets@ =~= seq![127u8, 0, 0, 1]);
            assert(config@.cert_subject_alt_names =~= seq!["localhost"@]);
            assert(config@.authorized_identity_paths =~= Seq::<Seq<u8>>::empty());
        }
        config
    }
}

/// What the command line of a server says.
#[derive(Clone, Debug, PartialEq, Eq)]
pub struct ServerOptions {
    pub bind: Option<SocketAddr>,
    pub hostname: Vec<String>,
    pub server_header: Option<String>,
    pub require_auth: bool,
    pub enable_password_login: bool,
    pub authorized_identity: Vec<Vec<u8>>,
    pub user: Option<String>,
    pub shell: Option<String>,
}

/// The mathematical counterpart of [`ServerOptions`].
pub struct ServerOptionsView {
    pub bind: Option<SocketAddrView>,
    pub hostname: Seq<Seq<char>>,
    pub server_header: Option<Seq<char>>,
    pub require_auth: bool,
    pub enable_password_login: bool,
    pub authorized_identity: Seq<Seq<u8>>,
    pub user: Option<Seq<char>>,
    pub shell: Option<Seq<char>>,
}

impl View for ServerOptions {
    type V = ServerOptionsView;

    open spec fn view(&self) -> ServerOptionsView {
        ServerOptionsView {
            bind: match self.bind {
                Some(address) => Some(address@),
                None => None,
            },
            hostname: texts_view(self.hostname@),
            server_header: text_view(self.server_header),
            require_auth: self.require_auth,
            enable_password_login: self.enable_password_login,
            authorized_identity: byte_strings_view(self.authorized_identity@),
            user: text_view(self.user),
            shell: text_view(self.shell),
        }
    }
}

/// A value that is given, or the one that holds otherwise.
pub open spec fn given_or<T>(given: Option<T>, otherwise: T) -> T {
    match given {
        Some(value) => value,
        None => otherwise,
    }
}

impl ServerConfigView {
    /// The configuration with what the command line says.
    pub open spec fn with_options(self, options: ServerOptionsView) -> ServerConfigView {
        ServerConfigView {
            bind_addr: given_or(options.bind, self.bind_addr),
            cert_subject_alt_names: if options.hostname.len() > 0 {
                options.hostname
            } else {
                self.cert_subject_alt_names
            },
            server_header: given_or(options.server_header, self.server_header),
            require_authentication: self.require_authentication || options.require_auth,
            enable_password_login: options.enable_password_login,
            authorized_identity_paths: if options.authorized_identity.len() > 0 {
                options.authorized_identity
            } else {
                self.authorized_identity_paths
            },
            default_user: if options.user is Some {
                options.user
            } else {
                self.default_user
            },
            shell: if options.shell is Some {
                options.shell
            } else {
                self.shell
            },
            ..self
        }
    }
}

impl ServerConfig {
    /// The configuration with what the command line says.
    pub fn with_options(self, options: ServerOptions) -> (config: ServerConfig)
        ensures
            config@ == self@.with_options(options@),
    {
        let mut config: ServerConfig = self;
        if let Some(bind_addr) = options.bind {
            config.bind_addr = bind_addr;
        }
        if options.hostname.len() > 0 {
            config.cert_subject_alt_names = options.hostname;
        }
        if let Some(server_header) = options.server_header {
            config.server_header = server_header;
        }
        if options.require_auth {
            config.require_authentication = true;
        }
        config.enable_password_login = options.enable_password_login;
        if options.authorized_identity.len() > 0 {
            config.authorized_identity_paths = options.authorized_identity;
        }
        if let Some(user) = options.user {
            config.default_user = Some(user);
        }
        if let Some(shell) = options.shell {
            config.shell = Some(shell);
        }
        config
    }
}

pub fn should_authenticate(config: &ServerConfig) -> (authenticate: bool)
    ensures
        authenticate == config@.authenticates(),
{
    config.require_authentication || config.enable_password_login
        || config.authorized_identity_paths.len() > 0
}

/// Whether passwords can be checked at all.
pub fn password_auth_available(config: &ServerConfig, platform: bool) -> (available: bool)
    ensures
        available == (config@.custom_password_verifier || platform),
{
    config.custom_password_verifier || platform
}

/// Refuses a configuration that asks for what the platform does not have, with the reason.
pub fn validate_server_config(config: &ServerConfig, platform: bool) -> (result: Result<(), String>)
    ensures
        match result {
            Ok(()) => config@.enable_password_login ==> config@.custom_password_verifier
                || platform,
            Err(reason) => {
                &&& config@.enable_password_login && !config@.custom_password_verifier && !platform
                &&& reason@ == "password authentication is not supported on this platform"@
            },
        },
{
    if config.enable_password_login && !password_auth_available(config, platform) {
        return Err("password authentication is not supported on this platform".to_owned());
    }
    Ok(())
}

fn own_shell(user: &SessionUser) -> (shell: Vec<u8>)
    ensures
        shell@ == user@.own_shell(),
{
    if user.shell.len() > 0 {
        slice_to_vec(user.shell.as_slice())
    } else {
        slice_to_vec("/bin/sh".as_bytes())
    }
}

/// The user that the user database describes. One without a shell gets the one that every system
/// has.
pub fn session_user(
    username: String,
    home_dir: Vec<u8>,
    shell: Vec<u8>,
    uid: u32,
    gid: u32,
) -> (user: SessionUser)
    ensures
        user@ == (SessionUserView {
            username: username@,
            home_dir: home_dir@,
            shell: if shell@.len() > 0 {
                shell@
            } else {
                "/bin/sh".spec_bytes()
            },
            uid,
            gid,
        }),
{
    let shell: Vec<u8> = if shell.len() > 0 {
        shell
    } else {
        slice_to_vec("/bin/sh".as_bytes())
    };
    SessionUser { username, home_dir, shell, uid, gid }
}

pub fn effective_shell(config: &ServerConfig, user: &SessionUser) -> (shell: Vec<u8>)
    ensures
        shell@ == config@.shell_for(user@),
{
    match &config.shell {
        Some(shell) => if shell.as_str().unicode_len() > 0 {
            slice_to_vec(shell.as_str().as_bytes())
        } else {
            own_shell(user)
        },
        None => own_shell(user),
    }
}

pub fn default_authorized_identity_paths(user: &SessionUser) -> (paths: Vec<Vec<u8>>)
    ensures
        byte_strings_view(paths@) == user@.default_identity_paths(),
{
    proof {
        reveal_strlit(".ssh3");
        reveal_strlit(".ssh");
        reveal_strlit("authorized_identities");
        reveal_strlit("authorized_keys");
        assert(".ssh3".is_ascii());
        assert(".ssh".is_ascii());
        assert("authorized_identities".is_ascii());
        assert("authorized_keys".is_ascii());
    }
    let mut paths: Vec<Vec<u8>> = Vec::new();
    let own: Vec<u8> = join_path(user.home_dir.as_slice(), ".ssh3");
    paths.push(join_path(own.as_slice(), "authorized_identities"));
    let shared: Vec<u8> = join_path(user.home_dir.as_slice(), ".ssh");
    paths.push(join_path(shared.as_slice(), "authorized_keys"));
    proof {
        assert(byte_strings_view(paths@) =~= user@.default_identity_paths());
    }
    paths
}

pub fn configured_authorized_identity_paths(config: &ServerConfig, user: &SessionUser) -> (paths:
    Vec<Vec<u8>>)
    ensures
        byte_strings_view(paths@) == config@.identity_paths_for(user@),
{
    if config.authorized_identity_paths.len() == 0 {
        return default_authorized_identity_paths(user);
    }
    let configured: &Vec<Vec<u8>> = &config.authorized_identity_paths;
    let mut paths: Vec<Vec<u8>> = Vec::new();
    let mut i: usize = 0;
    while i < configured.len()
        invariant
            i <= configured@.len(),
            byte_strings_view(paths@) == byte_strings_view(configured@).take(i as int),
        decreases configured@.len() - i,
    {
        let ghost before = paths@;
        let path: Vec<u8> = slice_to_vec(configured[i].as_slice());
        paths.push(path);
        proof {
            assert(byte_strings_view(paths@) =~= byte_strings_view(before).push(path@));
            let all = byte_strings_view(configured@);
            assert(all.take(i + 1) =~= all.take(i as int).push(configured@[i as int]@));
        }
        i = i + 1;
    }
    proof {
        assert(byte_strings_view(configured@).take(i as int) =~= byte_strings_view(configured@));
    }
    paths
}

/// The name under which a login shell starts: its own after a hyphen, or `sh` after one where it
/// has no name that is text.
pub open spec fn login_name(shell: Seq<u8>) -> Seq<char> {
    "-"@ + match last_name(shell) {
        Some(name) => if valid_utf8(name) {
            decode_utf8(name)
        } else {
            "sh"@
        },
        None => "sh"@,
    }
}

pub fn login_shell_arg0(shell: &[u8]) -> (name: String)
    ensures
        name@ == login_name(shell@),
{
    let text: Option<String> = match file_name(shell) {
        Some(name) => utf8_text(name),
        None => None,
    };
    match text {
        Some(name) => joined("-", name.as_str()),
        None => joined("-", "sh"),
    }
}

/// A variable of the environment of a process.
#[derive(Clone, Debug, PartialEq, Eq)]
pub struct Variable {
    pub name: String,
    pub value: Vec<u8>,
}

pub open spec fn variables_view(variables: Seq<Variable>) -> Seq<(Seq<char>, Seq<u8>)> {
    variables.map_values(|variable: Variable| (variable.name@, variable.value@))
}

/// A process that runs a session.
#[derive(Clone, Debug, PartialEq, Eq)]
pub struct SessionProcess {
    pub program: Vec<u8>,
    /// The name under which the program starts, where it is not its own.
    pub arg0: Option<String>,
    pub arguments: Vec<String>,
    pub variables: Vec<Variable>,
    /// The directory in which it starts, where that exists.
    pub directory: Vec<u8>,
    /// The user and the group that it is given to, where they are not those of the server.
    pub owner: Option<(u32, u32)>,
}

/// The mathematical counterpart of [`SessionProcess`].
pub struct SessionProcessView {
    pub program: Seq<u8>,
    pub arg0: Option<Seq<char>>,
    pub arguments: Seq<Seq<char>>,
    pub variables: Seq<(Seq<char>, Seq<u8>)>,
    pub directory: Seq<u8>,
    pub owner: Option<(u32, u32)>,
}

impl View for SessionProcess {
    type V = SessionProcessView;

    open spec fn view(&self) -> SessionProcessView {
        SessionProcessView {
            program: self.program@,
            arg0: text_view(self.arg0),
            arguments: texts_view(self.arguments@),
            variables: variables_view(self.variables@),
            directory: self.directory@,
            owner: self.owner,
        }
    }
}

/// What the environment of the server adds to a session.
pub struct ServerEnvironment {
    /// The search path of the server, where it has one that is text.
    pub search_path: Option<String>,
    pub uid: u32,
    pub gid: u32,
}

/// The search path of a session, where the server has none to hand on.
pub const DEFAULT_SEARCH_PATH: &'static str = "/usr/bin:/bin:/usr/sbin:/sbin";

/// The variables of a session's process, in the order in which they are set.
pub open spec fn session_variables(
    shell: Seq<u8>,
    user: SessionUserView,
    pty: Option<PendingPtyView>,
    agent_socket: Option<Seq<u8>>,
    search_path: Option<Seq<char>>,
) -> Seq<(Seq<char>, Seq<u8>)> {
    let name = vstd::utf8::encode_utf8(user.username);
    let first = seq![
        ("HOME"@, user.home_dir),
        ("USER"@, name),
        ("LOGNAME"@, name),
        ("SHELL"@, shell),
    ];
    let agent = match agent_socket {
        Some(path) => seq![("SSH_AUTH_SOCK"@, path)],
        None => Seq::empty(),
    };
    let path = seq![
        (
            "PATH"@,
            match search_path {
                Some(path) => vstd::utf8::encode_utf8(path),
                None => DEFAULT_SEARCH_PATH.spec_bytes(),
            },
        ),
    ];
    let term = match pty {
        Some(pty) => match pty.term {
            Some(term) => seq![("TERM"@, vstd::utf8::encode_utf8(term))],
            None => Seq::empty(),
        },
        None => Seq::empty(),
    };
    first + agent + path + term
}

/// The process of a session: the user's shell, as a login shell or with a command to run.
pub open spec fn process_for(
    config: ServerConfigView,
    user: SessionUserView,
    command: SessionCommandView,
    pty: Option<PendingPtyView>,
    agent_socket: Option<Seq<u8>>,
    search_path: Option<Seq<char>>,
    server: (u32, u32),
) -> SessionProcessView {
    let shell = config.shell_for(user);
    SessionProcessView {
        program: shell,
        arg0: match command {
            SessionCommandView::Shell => Some(login_name(shell)),
            SessionCommandView::Exec(_) => None,
        },
        arguments: match command {
            SessionCommandView::Shell => Seq::empty(),
            SessionCommandView::Exec(text) => seq!["-c"@, text],
        },
        variables: session_variables(shell, user, pty, agent_socket, search_path),
        directory: user.home_dir,
        owner: if (user.uid, user.gid) == server {
            None
        } else {
            Some((user.uid, user.gid))
        },
    }
}

fn set_variable(variables: &mut Vec<Variable>, name: &str, value: &[u8])
    ensures
        variables_view(final(variables)@) == variables_view(old(variables)@).push((name@, value@)),
{
    variables.push(Variable { name: name.to_owned(), value: slice_to_vec(value) });
    proof {
        assert(variables_view(variables@) =~= variables_view(old(variables)@).push(
            (name@, value@),
        ));
    }
}

/// The process that runs a session, on a terminal where `pty` is given.
pub fn session_process(
    config: &ServerConfig,
    user: &SessionUser,
    command: &SessionCommand,
    pty: Option<&PendingPty>,
    agent_socket: Option<&[u8]>,
    environment: &ServerEnvironment,
) -> (process: SessionProcess)
    ensures
        process@ == process_for(
            config@,
            user@,
            command@,
            match pty {
                Some(pty) => Some(pty@),
                None => None,
            },
            match agent_socket {
                Some(path) => Some(path@),
                None => None,
            },
            text_view(environment.search_path),
            (environment.uid, environment.gid),
        ),
{
    let shell: Vec<u8> = effective_shell(config, user);
    let mut variables: Vec<Variable> = Vec::new();
    set_variable(&mut variables, "HOME", user.home_dir.as_slice());
    set_variable(&mut variables, "USER", user.username.as_str().as_bytes());
    set_variable(&mut variables, "LOGNAME", user.username.as_str().as_bytes());
    set_variable(&mut variables, "SHELL", shell.as_slice());
    if let Some(path) = agent_socket {
        set_variable(&mut variables, "SSH_AUTH_SOCK", path);
    }
    match &environment.search_path {
        Some(path) => set_variable(&mut variables, "PATH", path.as_str().as_bytes()),
        None => set_variable(&mut variables, "PATH", DEFAULT_SEARCH_PATH.as_bytes()),
    }
    if let Some(pty) = pty {
        if let Some(term) = &pty.term {
            set_variable(&mut variables, "TERM", term.as_str().as_bytes());
        }
    }
    let mut arguments: Vec<String> = Vec::new();
    let arg0: Option<String> = match command {
        SessionCommand::Shell => Some(login_shell_arg0(shell.as_slice())),
        SessionCommand::Exec(text) => {
            arguments.push("-c".to_owned());
            arguments.push(text.as_str().to_owned());
            None
        },
    };
    let owner: Option<(u32, u32)> = if user.uid == environment.uid && user.gid == environment.gid {
        None
    } else {
        Some((user.uid, user.gid))
    };
    let process = SessionProcess {
        program: shell,
        arg0,
        arguments,
        variables,
        directory: slice_to_vec(user.home_dir.as_slice()),
        owner,
    };
    proof {
        let wanted = process_for(
            config@,
            user@,
            command@,
            match pty {
                Some(pty) => Some(pty@),
                None => None,
            },
            match agent_socket {
                Some(path) => Some(path@),
                None => None,
            },
            text_view(environment.search_path),
            (environment.uid, environment.gid),
        );
        assert(process@.variables =~= wanted.variables);
        assert(process@.arguments =~= wanted.arguments);
    }
    process
}

/// A server asks who a request is from exactly where it is told to, where passwords are in use, or
/// where it is given a list of who may log in; one that is told nothing does.
pub proof fn any_setting_asks_for_authentication(
    config: ServerConfigView,
    user: Option<Seq<char>>,
    shell: Option<Seq<char>>,
)
    ensures
        config.authenticates() <==> (config.require_authentication || config.enable_password_login
            || config.authorized_identity_paths.len() != 0),
        ServerConfigView::standard(user, shell).authenticates(),
        !ServerConfigView::standard(user, shell).enable_password_login,
{
}

/// A server that is told nothing listens on the machine itself, on the port 4433, and serves the
/// current user with the shell of the environment, where that names one.
pub proof fn standard_server_serves_its_own_user(
    user: Option<Seq<char>>,
    shell: Option<Seq<char>>,
)
    ensures
        ({
            let config = ServerConfigView::standard(user, shell);
            &&& config.bind_addr.ip == IpAddrView::V4(seq![127u8, 0, 0, 1])
            &&& config.bind_addr.port == 4433
            &&& config.cert_subject_alt_names == seq!["localhost"@]
            &&& config.max_packet_size == 30_000
            &&& config.default_datagrams_queue_size == 10
            &&& config.require_authentication
            &&& config.authorized_identity_paths.len() == 0
            &&& config.default_user == user
            &&& shell is None ==> config.shell is None
            &&& shell matches Some(path) ==> config.shell == (if path.len() == 0 {
                None
            } else {
                Some(path)
            })
            &&& !config.custom_password_verifier
        }),
{
}

/// Each option of the command line shows in the configuration, and where one is not given, what
/// was configured before stays; what has to be asked for before is still asked for.
pub proof fn each_option_shows(config: ServerConfigView, options: ServerOptionsView)
    ensures
        ({
            let result = config.with_options(options);
            &&& options.bind matches Some(address) ==> result.bind_addr == address
            &&& options.bind is None ==> result.bind_addr == config.bind_addr
            &&& options.hostname.len() > 0 ==> result.cert_subject_alt_names == options.hostname
            &&& options.hostname.len() == 0 ==> result.cert_subject_alt_names
                == config.cert_subject_alt_names
            &&& options.server_header matches Some(text) ==> result.server_header == text
            &&& options.server_header is None ==> result.server_header == config.server_header
            &&& result.require_authentication <==> config.require_authentication
                || options.require_auth
            &&& result.enable_password_login == options.enable_password_login
            &&& options.authorized_identity.len() > 0 ==> result.authorized_identity_paths
                == options.authorized_identity
            &&& options.authorized_identity.len() == 0 ==> result.authorized_identity_paths
                == config.authorized_identity_paths
            &&& options.user matches Some(name) ==> result.default_user == Some(name)
            &&& options.user is None ==> result.default_user == config.default_user
            &&& options.shell matches Some(path) ==> result.shell == Some(path)
            &&& options.shell is None ==> result.shell == config.shell
            &&& result.max_packet_size == config.max_packet_size
            &&& result.default_datagrams_queue_size == config.default_datagrams_queue_size
            &&& result.custom_password_verifier == config.custom_password_verifier
        }),
{
}

/// Who may log in is read from the configured files alone, where there are any, and otherwise from
/// the two files below the user's home.
pub proof fn identities_are_read_from_the_configured_files(
    config: ServerConfigView,
    user: SessionUserView,
)
    ensures
        config.authorized_identity_paths.len() > 0 ==> config.identity_paths_for(user)
            == config.authorized_identity_paths,
        config.authorized_identity_paths.len() == 0 && user.home_dir.len() > 0
            && user.home_dir.last() != 47 ==> config.identity_paths_for(user) == seq![
            user.home_dir + seq![47u8] + ".ssh3".spec_bytes() + seq![47u8]
                + "authorized_identities".spec_bytes(),
            user.home_dir + seq![47u8] + ".ssh".spec_bytes() + seq![47u8]
                + "authorized_keys".spec_bytes(),
        ],
{
    if user.home_dir.len() > 0 && user.home_dir.last() != 47 {
        reveal_strlit(".ssh3");
        reveal_strlit(".ssh");
        assert(".ssh3".is_ascii());
        assert(".ssh".is_ascii());
        let first = user.home_dir + seq![47u8] + ".ssh3".spec_bytes();
        let second = user.home_dir + seq![47u8] + ".ssh".spec_bytes();
        name_is_put_behind_one_slash(user.home_dir, ".ssh3".spec_bytes());
        name_is_put_behind_one_slash(user.home_dir, ".ssh".spec_bytes());
        assert(".ssh3".spec_bytes()[4] == 51);
        assert(".ssh".spec_bytes()[3] == 104);
        assert(first.last() == 51);
        assert(second.last() == 104);
        name_is_put_behind_one_slash(first, "authorized_identities".spec_bytes());
        name_is_put_behind_one_slash(second, "authorized_keys".spec_bytes());
        if config.authorized_identity_paths.len() == 0 {
            assert(config.identity_paths_for(user) =~= seq![
                first + seq![47u8] + "authorized_identities".spec_bytes(),
                second + seq![47u8] + "authorized_keys".spec_bytes(),
            ]);
        }
    }
}

/// Sessions run the configured shell, where one is configured, then the user's own, where the user
/// has one, and the one that every system has otherwise.
pub proof fn sessions_run_the_first_shell_there_is(config: ServerConfigView, user: SessionUserView)
    ensures
        config.shell matches Some(shell) ==> shell.len() > 0 ==> config.shell_for(user)
            == vstd::utf8::encode_utf8(shell),
        (config.shell is None || config.shell->0.len() == 0) && user.shell.len() > 0
            ==> config.shell_for(user) == user.shell,
        (config.shell is None || config.shell->0.len() == 0) && user.shell.len() == 0
            ==> config.shell_for(user) == "/bin/sh".spec_bytes(),
{
}

/// A shell logs in under its own name behind a hyphen, and as `sh` where its name is no text or it
/// has none.
pub proof fn shell_logs_in_under_its_name(directory: Seq<u8>, name: Seq<char>, shell: Seq<u8>)
    requires
        name.len() > 0,
        !vstd::utf8::encode_utf8(name).contains(47),
        name != "."@,
        name != ".."@,
    ensures
        login_name(directory + seq![47u8] + vstd::utf8::encode_utf8(name)) == "-"@ + name,
        login_name(Seq::empty()) == "-"@ + "sh"@,
        last_name(shell) is None || !valid_utf8(last_name(shell)->0) ==> login_name(shell) == "-"@
            + "sh"@,
{
    let bytes = vstd::utf8::encode_utf8(name);
    vstd::utf8::encode_utf8_valid_utf8(name);
    vstd::utf8::encode_utf8_decode_utf8(name);
    reveal_strlit(".");
    reveal_strlit("..");
    assert("."@ =~= seq!['.']);
    assert(".."@ =~= seq!['.', '.']);
    assert(vstd::utf8::is_ascii_chars("."@));
    assert(vstd::utf8::is_ascii_chars(".."@));
    vstd::utf8::is_ascii_chars_encode_utf8("."@);
    vstd::utf8::is_ascii_chars_encode_utf8(".."@);
    assert(vstd::utf8::encode_utf8("."@) =~= seq![46u8]);
    assert(vstd::utf8::encode_utf8(".."@) =~= seq![46u8, 46u8]);
    vstd::utf8::encode_utf8_decode_utf8("."@);
    vstd::utf8::encode_utf8_decode_utf8(".."@);
    if bytes.len() == 0 {
        assert(bytes =~= vstd::utf8::encode_utf8(Seq::<char>::empty()));
        vstd::utf8::encode_utf8_decode_utf8(Seq::<char>::empty());
    }
    last_name_is_behind_the_last_slash(directory, bytes);
    last_name_is_that_of_the_directory(Seq::empty());
}

/// A command runs in the user's shell, as it is; without one the shell starts as a login shell.
/// Either is given to the user and starts in the user's home.
pub proof fn command_runs_in_the_shell(
    config: ServerConfigView,
    user: SessionUserView,
    text: Seq<char>,
    pty: Option<PendingPtyView>,
    agent_socket: Option<Seq<u8>>,
    search_path: Option<Seq<char>>,
    server: (u32, u32),
)
    ensures
        ({
            let command = SessionCommandView::Exec(text);
            let run = process_for(config, user, command, pty, agent_socket, search_path, server);
            &&& run.program == config.shell_for(user)
            &&& run.arguments == seq!["-c"@, text]
            &&& run.arg0 is None
            &&& run.directory == user.home_dir
            &&& (user.uid != server.0 || user.gid != server.1) <==> run.owner == Some(
                (user.uid, user.gid),
            )
            &&& (user.uid == server.0 && user.gid == server.1) <==> run.owner is None
        }),
        ({
            let command = SessionCommandView::Shell;
            let run = process_for(config, user, command, pty, agent_socket, search_path, server);
            &&& run.program == config.shell_for(user)
            &&& run.arguments.len() == 0
            &&& run.arg0 == Some(login_name(config.shell_for(user)))
            &&& run.directory == user.home_dir
            &&& (user.uid != server.0 || user.gid != server.1) <==> run.owner == Some(
                (user.uid, user.gid),
            )
            &&& (user.uid == server.0 && user.gid == server.1) <==> run.owner is None
        }),
{
}

/// The process of a session finds its home, its user, its shell and a search path in its
/// environment, the agent exactly where one is forwarded, and the name of the terminal exactly where
/// it has one that is named; and whatever is asked for is the same for a command and for a shell.
pub proof fn process_finds_its_environment(
    config: ServerConfigView,
    user: SessionUserView,
    command: SessionCommandView,
    pty: Option<PendingPtyView>,
    agent_socket: Option<Seq<u8>>,
    search_path: Option<Seq<char>>,
    server: (u32, u32),
)
    ensures
        ({
            let name = vstd::utf8::encode_utf8(user.username);
            let run = process_for(config, user, command, pty, agent_socket, search_path, server);
            let set = run.variables;
            &&& set.len() == 5 + (if agent_socket is Some {
                1int
            } else {
                0
            }) + (if pty is Some && pty->0.term is Some {
                1int
            } else {
                0
            })
            &&& set[0] == ("HOME"@, user.home_dir)
            &&& set[1] == ("USER"@, name)
            &&& set[2] == ("LOGNAME"@, name)
            &&& set[3] == ("SHELL"@, run.program)
            &&& agent_socket matches Some(path) ==> set[4] == ("SSH_AUTH_SOCK"@, path)
            &&& search_path matches Some(path) ==> set.contains(
                ("PATH"@, vstd::utf8::encode_utf8(path)),
            )
            &&& search_path is None ==> set.contains(
                ("PATH"@, "/usr/bin:/bin:/usr/sbin:/sbin".spec_bytes()),
            )
            &&& pty matches Some(pty) ==> pty.term matches Some(term) ==> set.last() == (
                "TERM"@,
                vstd::utf8::encode_utf8(term),
            )
        }),
{
    let run = process_for(config, user, command, pty, agent_socket, search_path, server);
    let at = if agent_socket is Some {
        5int
    } else {
        4
    };
    assert(run.variables[at].0 == "PATH"@);
    assert(run.variables.contains(run.variables[at]));
}

} // verus!
