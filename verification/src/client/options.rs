//! The command line of the client.

use crate::client::config::{
    agent_view, certificates_of, counted, load_certificates, AgentSelection, AgentSelectionView,
    ClientConfig, ClientConfigView, OidcConfig, OidcConfigView, SessionRequest, SessionRequestView,
    TrustStrategy, TrustStrategyView,
};
use crate::client::error::ClientErrorView;
use crate::http::{parse_uri, uri_of, Uri, UriView, SSH3_VERSION_STRING};
use crate::text::{
    bytes_view, chars_of, join_texts, joined, joined_with, same_text, text_view, texts_view, trim,
    trim_line_ends, trimmed, without_line_ends,
};
use vstd::prelude::*;
use vstd::slice::slice_to_vec;
use vstd::string::*;
use vstd::utf8::encode_utf8;

verus! {

/// What the command line says so far.
#[derive(Clone, Debug, PartialEq, Eq)]
pub struct Options {
    pub server_name: Option<String>,
    pub username: Option<String>,
    pub identity_file: Option<String>,
    pub agent: Option<AgentSelection>,
    pub agent_socket: Option<String>,
    pub forward_agent: bool,
    pub password: Option<String>,
    pub bearer_token: Option<String>,
    pub oidc_issuer_url: Option<String>,
    pub oidc_client_id: Option<String>,
    pub oidc_client_secret: Option<String>,
    pub oidc_use_pkce: bool,
    pub ca_cert: Option<String>,
    pub insecure: bool,
    pub url: Option<Uri>,
    pub command: Vec<String>,
}

/// The mathematical counterpart of [`Options`].
pub struct OptionsView {
    pub server_name: Option<Seq<char>>,
    pub username: Option<Seq<char>>,
    pub identity_file: Option<Seq<char>>,
    pub agent: Option<AgentSelectionView>,
    pub agent_socket: Option<Seq<char>>,
    pub forward_agent: bool,
    pub password: Option<Seq<char>>,
    pub bearer_token: Option<Seq<char>>,
    pub oidc_issuer_url: Option<Seq<char>>,
    pub oidc_client_id: Option<Seq<char>>,
    pub oidc_client_secret: Option<Seq<char>>,
    pub oidc_use_pkce: bool,
    pub ca_cert: Option<Seq<char>>,
    pub insecure: bool,
    pub url: Option<UriView>,
    pub command: Seq<Seq<char>>,
}

pub open spec fn url_view(url: Option<Uri>) -> Option<UriView> {
    match url {
        Some(url) => Some(url@),
        None => None,
    }
}

impl View for Options {
    type V = OptionsView;

    open spec fn view(&self) -> OptionsView {
        OptionsView {
            server_name: text_view(self.server_name),
            username: text_view(self.username),
            identity_file: text_view(self.identity_file),
            agent: agent_view(self.agent),
            agent_socket: text_view(self.agent_socket),
            forward_agent: self.forward_agent,
            password: text_view(self.password),
            bearer_token: text_view(self.bearer_token),
            oidc_issuer_url: text_view(self.oidc_issuer_url),
            oidc_client_id: text_view(self.oidc_client_id),
            oidc_client_secret: text_view(self.oidc_client_secret),
            oidc_use_pkce: self.oidc_use_pkce,
            ca_cert: text_view(self.ca_cert),
            insecure: self.insecure,
            url: url_view(self.url),
            command: texts_view(self.command@),
        }
    }
}

/// What reading a file came to: its text, or why it cannot be read.
pub type TextFile = Result<String, String>;

pub open spec fn file_view(file: Result<String, String>) -> Result<Seq<char>, Seq<char>> {
    match file {
        Ok(text) => Ok(text@),
        Err(reason) => Err(reason@),
    }
}

pub open spec fn text_files_view(files: Seq<Result<String, String>>) -> Seq<
    Result<Seq<char>, Seq<char>>,
> {
    files.map_values(|file: Result<String, String>| file_view(file))
}

/// What a command line comes to.
#[derive(Clone, Debug, PartialEq, Eq)]
pub enum CommandLine {
    /// Print this, and be done.
    Help(String),
    /// Print this, and fail.
    Failed(String),
    /// Read this file, and start over with what it holds behind what the files before it held.
    NeedFile(String),
    /// Read the certificates in this file, and start over.
    NeedCertificates(String),
    Run { config: ClientConfig, request: SessionRequest },
}

/// The mathematical counterpart of [`CommandLine`].
pub enum CommandLineView {
    Help(Seq<char>),
    Failed(Seq<char>),
    NeedFile(Seq<char>),
    NeedCertificates(Seq<char>),
    Run { config: ClientConfigView, request: SessionRequestView },
}

impl View for CommandLine {
    type V = CommandLineView;

    open spec fn view(&self) -> CommandLineView {
        match *self {
            CommandLine::Help(text) => CommandLineView::Help(text@),
            CommandLine::Failed(text) => CommandLineView::Failed(text@),
            CommandLine::NeedFile(path) => CommandLineView::NeedFile(path@),
            CommandLine::NeedCertificates(path) => CommandLineView::NeedCertificates(path@),
            CommandLine::Run { config, request } => CommandLineView::Run {
                config: config@,
                request: request@,
            },
        }
    }
}

/// An argument that a value follows.
#[derive(Clone, Copy, Debug, PartialEq, Eq, Structural)]
pub enum Valued {
    ServerName,
    User,
    Identity,
    AgentKey,
    AgentSocket,
    Password,
    PasswordFile,
    BearerToken,
    BearerTokenFile,
    UseOidc,
    OidcClientId,
    OidcClientSecret,
    CaCert,
}

/// What an argument is.
#[derive(Clone, Copy, Debug, PartialEq, Eq, Structural)]
pub enum Word {
    Valued(Valued),
    Agent,
    ForwardAgent,
    NoPkce,
    Insecure,
    Help,
    /// What follows is the command.
    Rest,
    Other,
}

/// What an argument is.
pub open spec fn word_of(text: Seq<char>) -> Word {
    if text == "--server-name"@ {
        Word::Valued(Valued::ServerName)
    } else if text == "--user"@ {
        Word::Valued(Valued::User)
    } else if text == "--identity"@ {
        Word::Valued(Valued::Identity)
    } else if text == "--agent-key"@ {
        Word::Valued(Valued::AgentKey)
    } else if text == "--agent-socket"@ {
        Word::Valued(Valued::AgentSocket)
    } else if text == "--password"@ {
        Word::Valued(Valued::Password)
    } else if text == "--password-file"@ {
        Word::Valued(Valued::PasswordFile)
    } else if text == "--bearer-token"@ {
        Word::Valued(Valued::BearerToken)
    } else if text == "--bearer-token-file"@ {
        Word::Valued(Valued::BearerTokenFile)
    } else if text == "--use-oidc"@ {
        Word::Valued(Valued::UseOidc)
    } else if text == "--oidc-client-id"@ {
        Word::Valued(Valued::OidcClientId)
    } else if text == "--oidc-client-secret"@ {
        Word::Valued(Valued::OidcClientSecret)
    } else if text == "--ca-cert"@ {
        Word::Valued(Valued::CaCert)
    } else if text == "--agent"@ {
        Word::Agent
    } else if text == "--forward-agent"@ {
        Word::ForwardAgent
    } else if text == "--no-pkce"@ {
        Word::NoPkce
    } else if text == "--insecure"@ {
        Word::Insecure
    } else if text == "--help"@ || text == "-h"@ {
        Word::Help
    } else if text == "--"@ {
        Word::Rest
    } else {
        Word::Other
    }
}

fn classify(text: &str) -> (word: Word)
    ensures
        word == word_of(text@),
{
    if same_text(text, "--server-name") {
        Word::Valued(Valued::ServerName)
    } else if same_text(text, "--user") {
        Word::Valued(Valued::User)
    } else if same_text(text, "--identity") {
        Word::Valued(Valued::Identity)
    } else if same_text(text, "--agent-key") {
        Word::Valued(Valued::AgentKey)
    } else if same_text(text, "--agent-socket") {
        Word::Valued(Valued::AgentSocket)
    } else if same_text(text, "--password") {
        Word::Valued(Valued::Password)
    } else if same_text(text, "--password-file") {
        Word::Valued(Valued::PasswordFile)
    } else if same_text(text, "--bearer-token") {
        Word::Valued(Valued::BearerToken)
    } else if same_text(text, "--bearer-token-file") {
        Word::Valued(Valued::BearerTokenFile)
    } else if same_text(text, "--use-oidc") {
        Word::Valued(Valued::UseOidc)
    } else if same_text(text, "--oidc-client-id") {
        Word::Valued(Valued::OidcClientId)
    } else if same_text(text, "--oidc-client-secret") {
        Word::Valued(Valued::OidcClientSecret)
    } else if same_text(text, "--ca-cert") {
        Word::Valued(Valued::CaCert)
    } else if same_text(text, "--agent") {
        Word::Agent
    } else if same_text(text, "--forward-agent") {
        Word::ForwardAgent
    } else if same_text(text, "--no-pkce") {
        Word::NoPkce
    } else if same_text(text, "--insecure") {
        Word::Insecure
    } else if same_text(text, "--help") || same_text(text, "-h") {
        Word::Help
    } else if same_text(text, "--") {
        Word::Rest
    } else {
        Word::Other
    }
}

/// How the client is used, for a program of this name.
pub open spec fn usage_text(program: Seq<char>) -> Seq<char> {
    "Usage: "@ + program
        + " [--server-name NAME] [--user NAME] [--identity PATH | --agent [--agent-socket PATH] | --agent-key PATH [--agent-socket PATH] | --password PASS | --password-file PATH | --bearer-token TOKEN | --bearer-token-file PATH | --use-oidc ISSUER --oidc-client-id ID [--oidc-client-secret SECRET] [--no-pkce]] [--forward-agent [--agent-socket PATH]] [--ca-cert PATH] [--insecure] URL [COMMAND...]\n\nConnects to an SSH3 server over QUIC/HTTP3. If COMMAND is omitted, requests a shell."@
}

pub fn usage(program: &str) -> (text: String)
    ensures
        text@ == usage_text(program@),
{
    let start: String = joined("Usage: ", program);
    joined(
        start.as_str(),
        " [--server-name NAME] [--user NAME] [--identity PATH | --agent [--agent-socket PATH] | --agent-key PATH [--agent-socket PATH] | --password PASS | --password-file PATH | --bearer-token TOKEN | --bearer-token-file PATH | --use-oidc ISSUER --oidc-client-id ID [--oidc-client-secret SECRET] [--no-pkce]] [--forward-agent [--agent-socket PATH]] [--ca-cert PATH] [--insecure] URL [COMMAND...]\n\nConnects to an SSH3 server over QUIC/HTTP3. If COMMAND is omitted, requests a shell.",
    )
}

/// What an argument and its value do: the options after them and the number of files that were
/// used, or what ends the reading.
pub enum ReadView {
    Next { options: OptionsView, files: nat },
    Stop(CommandLineView),
}

/// What reading the file of an option does.
pub open spec fn file_read(
    path: Seq<char>,
    files: Seq<Result<Seq<char>, Seq<char>>>,
    failure: Seq<char>,
    set: spec_fn(Seq<char>) -> OptionsView,
) -> ReadView {
    if files.len() == 0 {
        ReadView::Stop(CommandLineView::NeedFile(path))
    } else {
        match files[0] {
            Ok(text) => ReadView::Next { options: set(text), files: 1 },
            Err(reason) => ReadView::Stop(CommandLineView::Failed(failure + reason)),
        }
    }
}

impl OptionsView {
    /// An empty command line.
    pub open spec fn none() -> OptionsView {
        OptionsView {
            server_name: None,
            username: None,
            identity_file: None,
            agent: None,
            agent_socket: None,
            forward_agent: false,
            password: None,
            bearer_token: None,
            oidc_issuer_url: None,
            oidc_client_id: None,
            oidc_client_secret: None,
            oidc_use_pkce: true,
            ca_cert: None,
            insecure: false,
            url: None,
            command: Seq::empty(),
        }
    }

    /// What an option with its value does.
    pub open spec fn valued(
        self,
        option: Valued,
        value: Seq<char>,
        files: Seq<Result<Seq<char>, Seq<char>>>,
    ) -> ReadView {
        match option {
            Valued::ServerName => ReadView::Next {
                options: OptionsView { server_name: Some(value), ..self },
                files: 0,
            },
            Valued::User => ReadView::Next {
                options: OptionsView { username: Some(value), ..self },
                files: 0,
            },
            Valued::Identity => ReadView::Next {
                options: OptionsView { identity_file: Some(value), ..self },
                files: 0,
            },
            Valued::AgentKey => ReadView::Next {
                options: OptionsView {
                    agent: Some(AgentSelectionView::PublicKey(encode_utf8(value))),
                    ..self
                },
                files: 0,
            },
            Valued::AgentSocket => ReadView::Next {
                options: OptionsView { agent_socket: Some(value), ..self },
                files: 0,
            },
            Valued::Password => ReadView::Next {
                options: OptionsView { password: Some(value), ..self },
                files: 0,
            },
            Valued::PasswordFile => file_read(
                value,
                files,
                "failed to read password file: "@,
                |text: Seq<char>| OptionsView { password: Some(without_line_ends(text)), ..self },
            ),
            Valued::BearerToken => ReadView::Next {
                options: OptionsView { bearer_token: Some(value), ..self },
                files: 0,
            },
            Valued::BearerTokenFile => file_read(
                value,
                files,
                "failed to read bearer token file: "@,
                |text: Seq<char>| OptionsView { bearer_token: Some(text), ..self },
            ),
            Valued::UseOidc => ReadView::Next {
                options: OptionsView { oidc_issuer_url: Some(value), ..self },
                files: 0,
            },
            Valued::OidcClientId => ReadView::Next {
                options: OptionsView { oidc_client_id: Some(value), ..self },
                files: 0,
            },
            Valued::OidcClientSecret => ReadView::Next {
                options: OptionsView { oidc_client_secret: Some(value), ..self },
                files: 0,
            },
            Valued::CaCert => ReadView::Next {
                options: OptionsView { ca_cert: Some(value), ..self },
                files: 0,
            },
        }
    }

    /// What an argument that is no option does: the first is the address, and the rest is the
    /// command.
    pub open spec fn plain(self, text: Seq<char>, program: Seq<char>) -> ReadView {
        if self.url is Some {
            ReadView::Next {
                options: OptionsView { command: self.command.push(text), ..self },
                files: 0,
            }
        } else if text.len() > 0 && text[0] == '-' {
            ReadView::Stop(
                CommandLineView::Failed(
                    "unrecognized argument: "@ + text + "\n\n"@ + usage_text(program),
                ),
            )
        } else {
            match uri_of(text) {
                Ok(url) => ReadView::Next {
                    options: OptionsView { url: Some(url), ..self },
                    files: 0,
                },
                Err(reason) => ReadView::Stop(
                    CommandLineView::Failed("invalid URL: "@ + reason),
                ),
            }
        }
    }

    /// What an argument without a value does.
    pub open spec fn flagged(self, text: Seq<char>, program: Seq<char>) -> ReadView {
        match word_of(text) {
            Word::Agent => if self.agent is Some {
                ReadView::Stop(
                    CommandLineView::Failed("use either --agent or --agent-key, not both"@),
                )
            } else {
                ReadView::Next {
                    options: OptionsView { agent: Some(AgentSelectionView::First), ..self },
                    files: 0,
                }
            },
            Word::ForwardAgent => ReadView::Next {
                options: OptionsView { forward_agent: true, ..self },
                files: 0,
            },
            Word::NoPkce => ReadView::Next {
                options: OptionsView { oidc_use_pkce: false, ..self },
                files: 0,
            },
            Word::Insecure => ReadView::Next {
                options: OptionsView { insecure: true, ..self },
                files: 0,
            },
            Word::Help => ReadView::Stop(CommandLineView::Help(usage_text(program))),
            _ => self.plain(text, program),
        }
    }

    /// What the arguments come to after what was read before them. `files` is what the files hold
    /// that are still to be read.
    pub open spec fn read(
        self,
        args: Seq<Seq<char>>,
        files: Seq<Result<Seq<char>, Seq<char>>>,
        certificates: Option<Result<Seq<u8>, Seq<char>>>,
        program: Seq<char>,
    ) -> CommandLineView
        decreases args.len(),
    {
        if args.len() == 0 {
            self.finished(certificates, program)
        } else {
            match word_of(args[0]) {
                Word::Rest => (OptionsView {
                    command: self.command + args.skip(1),
                    ..self
                }).finished(certificates, program),
                Word::Valued(option) => if option == Valued::AgentKey && self.agent is Some {
                    CommandLineView::Failed("use either --agent or --agent-key, not both"@)
                } else if args.len() < 2 {
                    CommandLineView::Failed("missing value for "@ + args[0])
                } else {
                    match self.valued(option, args[1], files) {
                        ReadView::Next { options, files: used } => options.read(
                            args.skip(2),
                            files.skip(used as int),
                            certificates,
                            program,
                        ),
                        ReadView::Stop(end) => end,
                    }
                },
                _ => match self.flagged(args[0], program) {
                    ReadView::Next { options, files: used } => options.read(
                        args.skip(1),
                        files.skip(used as int),
                        certificates,
                        program,
                    ),
                    ReadView::Stop(end) => end,
                },
            }
        }
    }

    /// Whether a log in at an identity provider is asked for, or why it cannot be.
    pub open spec fn oidc(self) -> Result<Option<OidcConfigView>, Seq<char>> {
        match (self.oidc_issuer_url, self.oidc_client_id) {
            (Some(issuer_url), Some(client_id)) => Ok(
                Some(
                    OidcConfigView {
                        issuer_url,
                        client_id,
                        client_secret: self.oidc_client_secret,
                        use_pkce: self.oidc_use_pkce,
                    },
                ),
            ),
            (Some(_), None) => Err("--use-oidc requires --oidc-client-id"@),
            (None, Some(_)) => Err("--oidc-client-id requires --use-oidc"@),
            (None, None) => if self.oidc_client_secret is Some {
                Err("--oidc-client-secret requires --use-oidc"@)
            } else {
                Ok(None)
            },
        }
    }

    /// In how many ways the client is told to say who it is.
    pub open spec fn auth_methods(self) -> nat {
        counted(self.identity_file is Some) + counted(self.agent is Some) + counted(
            self.password is Some,
        ) + counted(self.bearer_token is Some) + counted(self.oidc_issuer_url is Some)
    }

    /// Why the options do not go together.
    pub open spec fn conflict(self) -> Option<Seq<char>> {
        if self.insecure && self.ca_cert is Some {
            Some("use either --ca-cert or --insecure, not both"@)
        } else if self.oidc() is Err {
            Some(self.oidc()->Err_0)
        } else if self.auth_methods() > 1 {
            Some(
                "use either --identity, --agent/--agent-key, --password/--password-file, --bearer-token/--bearer-token-file, or --use-oidc"@,
            )
        } else if self.agent is Some && self.username is None {
            Some("--agent/--agent-key requires --user"@)
        } else if self.password is Some && self.username is None {
            Some("--password/--password-file requires --user"@)
        } else {
            None
        }
    }

    /// The configuration that the options make.
    pub open spec fn config(self, url: UriView, trust: TrustStrategyView) -> ClientConfigView {
        ClientConfigView {
            server_name: self.server_name,
            username: self.username,
            identity_file: path_of(self.identity_file),
            agent: self.agent,
            agent_socket: path_of(self.agent_socket),
            forward_agent: self.forward_agent,
            password: self.password,
            bearer_token: match self.bearer_token {
                Some(token) => Some(trimmed(token)),
                None => None,
            },
            oidc: match self.oidc() {
                Ok(oidc) => oidc,
                Err(_) => None,
            },
            trust,
            ..ClientConfigView::standard(url)
        }
    }

    /// What the session is to run: the words of the command, or a shell where there are none.
    pub open spec fn request(self) -> SessionRequestView {
        if self.command.len() == 0 {
            SessionRequestView::Shell
        } else {
            SessionRequestView::Exec(joined_with(self.command, " "@))
        }
    }

    /// What the options come to when all of them are read.
    pub open spec fn finished(
        self,
        certificates: Option<Result<Seq<u8>, Seq<char>>>,
        program: Seq<char>,
    ) -> CommandLineView {
        match (self.url, self.conflict()) {
            (None, _) => CommandLineView::Failed(usage_text(program)),
            (_, Some(reason)) => CommandLineView::Failed(reason),
            (Some(url), None) => if self.insecure {
                CommandLineView::Run {
                    config: self.config(url, TrustStrategyView::Insecure),
                    request: self.request(),
                }
            } else {
                match self.ca_cert {
                    None => CommandLineView::Run {
                        config: self.config(url, TrustStrategyView::WebPkiRoots),
                        request: self.request(),
                    },
                    Some(path) => match certificates {
                        None => CommandLineView::NeedCertificates(path),
                        Some(file) => match loaded_certificates(file) {
                            Ok(loaded) => CommandLineView::Run {
                                config: self.config(url, TrustStrategyView::Certificates(loaded)),
                                request: self.request(),
                            },
                            Err(reason) => CommandLineView::Failed(
                                "failed to load CA certificate: "@ + reason,
                            ),
                        },
                    },
                }
            },
        }
    }
}

/// The certificates of a file that was read or not, or why there are none.
pub open spec fn loaded_certificates(file: Result<Seq<u8>, Seq<char>>) -> Result<
    Seq<Seq<u8>>,
    Seq<char>,
> {
    match file {
        Err(reason) => Err(reason),
        Ok(bytes) => match certificates_of(bytes) {
            Ok(certificates) => Ok(certificates),
            Err(error) => Err(error.message()),
        },
    }
}

/// The path that a text is.
pub open spec fn path_of(text: Option<Seq<char>>) -> Option<Seq<u8>> {
    match text {
        Some(text) => Some(encode_utf8(text)),
        None => None,
    }
}

enum Read {
    Next { files: usize },
    Stop(CommandLine),
}

spec fn read_view(read: Read, options: OptionsView) -> ReadView {
    match read {
        Read::Next { files } => ReadView::Next { options, files: files as nat },
        Read::Stop(end) => ReadView::Stop(end@),
    }
}

fn take_path(text: Option<String>) -> (path: Option<Vec<u8>>)
    ensures
        bytes_view(path) == path_of(text_view(text)),
{
    match text {
        Some(text) => Some(slice_to_vec(text.as_str().as_bytes())),
        None => None,
    }
}

impl Options {
    fn none() -> (options: Self)
        ensures
            options@ == OptionsView::none(),
    {
        let options = Options {
            server_name: None,
            username: None,
            identity_file: None,
            agent: None,
            agent_socket: None,
            forward_agent: false,
            password: None,
            bearer_token: None,
            oidc_issuer_url: None,
            oidc_client_id: None,
            oidc_client_secret: None,
            oidc_use_pkce: true,
            ca_cert: None,
            insecure: false,
            url: None,
            command: Vec::new(),
        };
        proof {
            assert(options@.command =~= Seq::<Seq<char>>::empty());
        }
        options
    }

    fn read_file(path: &str, files: &[TextFile], from: usize, failure: &str) -> (result: Result<
        String,
        CommandLine,
    >)
        requires
            from <= files@.len(),
        ensures
            match result {
                Ok(text) => from < files@.len() && file_view(files@[from as int]) == Ok::<
                    Seq<char>,
                    Seq<char>,
                >(text@),
                Err(end) => if from == files@.len() {
                    end@ == CommandLineView::NeedFile(path@)
                } else {
                    file_view(files@[from as int]) matches Err(reason) && end@
                        == CommandLineView::Failed(failure@ + reason)
                },
            },
    {
        if from == files.len() {
            return Err(CommandLine::NeedFile(path.to_owned()));
        }
        match &files[from] {
            Ok(text) => Ok(text.as_str().to_owned()),
            Err(reason) => Err(CommandLine::Failed(joined(failure, reason.as_str()))),
        }
    }

    fn read_valued(
        &mut self,
        option: Valued,
        value: &String,
        files: &[TextFile],
        from: usize,
    ) -> (read: Read)
        requires
            from <= files@.len(),
        ensures
            ({
                let rest = text_files_view(files@).skip(from as int);
                let wanted = old(self)@.valued(option, value@, rest);
                &&& read_view(read, final(self)@) == wanted
                &&& read matches Read::Next { files: used } ==> from + used <= files@.len()
            }),
    {
        let text: String = value.as_str().to_owned();
        let ghost rest = text_files_view(files@).skip(from as int);
        proof {
            if from < files@.len() {
                assert(rest[0] == file_view(files@[from as int]));
            }
        }
        match option {
            Valued::ServerName => {
                self.server_name = Some(text);
            },
            Valued::User => {
                self.username = Some(text);
            },
            Valued::Identity => {
                self.identity_file = Some(text);
            },
            Valued::AgentKey => {
                self.agent = Some(
                    AgentSelection::PublicKey(slice_to_vec(text.as_str().as_bytes())),
                );
            },
            Valued::AgentSocket => {
                self.agent_socket = Some(text);
            },
            Valued::Password => {
                self.password = Some(text);
            },
            Valued::PasswordFile => {
                match Options::read_file(
                    text.as_str(),
                    files,
                    from,
                    "failed to read password file: ",
                ) {
                    Ok(contents) => {
                        self.password = Some(trim_line_ends(contents.as_str()));
                        return Read::Next { files: 1 };
                    },
                    Err(end) => {
                        return Read::Stop(end);
                    },
                }
            },
            Valued::BearerToken => {
                self.bearer_token = Some(text);
            },
            Valued::BearerTokenFile => {
                match Options::read_file(
                    text.as_str(),
                    files,
                    from,
                    "failed to read bearer token file: ",
                ) {
                    Ok(contents) => {
                        self.bearer_token = Some(contents);
                        return Read::Next { files: 1 };
                    },
                    Err(end) => {
                        return Read::Stop(end);
                    },
                }
            },
            Valued::UseOidc => {
                self.oidc_issuer_url = Some(text);
            },
            Valued::OidcClientId => {
                self.oidc_client_id = Some(text);
            },
            Valued::OidcClientSecret => {
                self.oidc_client_secret = Some(text);
            },
            Valued::CaCert => {
                self.ca_cert = Some(text);
            },
        }
        Read::Next { files: 0 }
    }

    fn read_plain(&mut self, text: &String, program: &str) -> (read: Read)
        ensures
            read_view(read, final(self)@) == old(self)@.plain(text@, program@),
            read matches Read::Next { files } ==> files == 0,
    {
        if self.url.is_some() {
            self.command.push(text.as_str().to_owned());
            proof {
                assert(self@.command =~= old(self)@.command.push(text@));
            }
            return Read::Next { files: 0 };
        }
        let chars: Vec<char> = chars_of(text.as_str());
        if chars.len() > 0 && chars[0] == '-' {
            let note: String = joined("unrecognized argument: ", text.as_str());
            let note: String = joined(note.as_str(), "\n\n");
            return Read::Stop(
                CommandLine::Failed(joined(note.as_str(), usage(program).as_str())),
            );
        }
        match parse_uri(text.as_str()) {
            Ok(url) => {
                self.url = Some(url);
                Read::Next { files: 0 }
            },
            Err(reason) => Read::Stop(
                CommandLine::Failed(joined("invalid URL: ", reason.as_str())),
            ),
        }
    }

    fn read_flagged(&mut self, text: &String, program: &str) -> (read: Read)
        ensures
            read_view(read, final(self)@) == old(self)@.flagged(text@, program@),
            read matches Read::Next { files } ==> files == 0,
    {
        match classify(text.as_str()) {
            Word::Agent => {
                if self.agent.is_some() {
                    return Read::Stop(
                        CommandLine::Failed(
                            "use either --agent or --agent-key, not both".to_owned(),
                        ),
                    );
                }
                self.agent = Some(AgentSelection::First);
                Read::Next { files: 0 }
            },
            Word::ForwardAgent => {
                self.forward_agent = true;
                Read::Next { files: 0 }
            },
            Word::NoPkce => {
                self.oidc_use_pkce = false;
                Read::Next { files: 0 }
            },
            Word::Insecure => {
                self.insecure = true;
                Read::Next { files: 0 }
            },
            Word::Help => Read::Stop(CommandLine::Help(usage(program))),
            _ => self.read_plain(text, program),
        }
    }

    fn conflict(&self) -> (reason: Option<String>)
        ensures
            text_view(reason) == self@.conflict(),
    {
        if self.insecure && self.ca_cert.is_some() {
            return Some("use either --ca-cert or --insecure, not both".to_owned());
        }
        if self.oidc_issuer_url.is_some() && self.oidc_client_id.is_none() {
            return Some("--use-oidc requires --oidc-client-id".to_owned());
        }
        if self.oidc_issuer_url.is_none() && self.oidc_client_id.is_some() {
            return Some("--oidc-client-id requires --use-oidc".to_owned());
        }
        if self.oidc_issuer_url.is_none() && self.oidc_client_secret.is_some() {
            return Some("--oidc-client-secret requires --use-oidc".to_owned());
        }
        let mut methods: usize = 0;
        if self.identity_file.is_some() {
            methods = methods + 1;
        }
        if self.agent.is_some() {
            methods = methods + 1;
        }
        if self.password.is_some() {
            methods = methods + 1;
        }
        if self.bearer_token.is_some() {
            methods = methods + 1;
        }
        if self.oidc_issuer_url.is_some() {
            methods = methods + 1;
        }
        if methods > 1 {
            return Some(
                "use either --identity, --agent/--agent-key, --password/--password-file, --bearer-token/--bearer-token-file, or --use-oidc".to_owned(),
            );
        }
        if self.agent.is_some() && self.username.is_none() {
            return Some("--agent/--agent-key requires --user".to_owned());
        }
        if self.password.is_some() && self.username.is_none() {
            return Some("--password/--password-file requires --user".to_owned());
        }
        None
    }

    fn into_run(self, url: Uri, trust: TrustStrategy) -> (end: CommandLine)
        ensures
            end@ == (CommandLineView::Run {
                config: self@.config(url@, trust@),
                request: self@.request(),
            }),
    {
        let oidc: Option<OidcConfig> = match (self.oidc_issuer_url, self.oidc_client_id) {
            (Some(issuer_url), Some(client_id)) => Some(
                OidcConfig {
                    issuer_url,
                    client_id,
                    client_secret: self.oidc_client_secret,
                    use_pkce: self.oidc_use_pkce,
                },
            ),
            _ => None,
        };
        let request: SessionRequest = if self.command.len() == 0 {
            SessionRequest::Shell
        } else {
            SessionRequest::Exec(join_texts(self.command.as_slice(), " "))
        };
        let mut config: ClientConfig = ClientConfig::new(url);
        config.server_name = self.server_name;
        config.username = self.username;
        config.identity_file = take_path(self.identity_file);
        config.agent = self.agent;
        config.agent_socket = take_path(self.agent_socket);
        config.forward_agent = self.forward_agent;
        config.password = self.password;
        config.bearer_token = match self.bearer_token {
            Some(token) => Some(trim(token.as_str())),
            None => None,
        };
        config.oidc = oidc;
        config.trust = trust;
        CommandLine::Run { config, request }
    }

    fn finish(self, certificates: Option<Result<Vec<u8>, String>>, program: &str) -> (end:
        CommandLine)
        ensures
            end@ == self@.finished(certificate_file_view(certificates), program@),
    {
        let reason: Option<String> = self.conflict();
        let mut options: Options = self;
        let mut url: Option<Uri> = None;
        std::mem::swap(&mut url, &mut options.url);
        let url: Uri = match url {
            Some(url) => url,
            None => {
                return CommandLine::Failed(usage(program));
            },
        };
        if let Some(reason) = reason {
            return CommandLine::Failed(reason);
        }
        if options.insecure {
            return options.into_run(url, TrustStrategy::Insecure);
        }
        let mut ca_cert: Option<String> = None;
        std::mem::swap(&mut ca_cert, &mut options.ca_cert);
        let path: String = match ca_cert {
            Some(path) => path,
            None => {
                return options.into_run(url, TrustStrategy::WebPkiRoots);
            },
        };
        match certificates {
            None => CommandLine::NeedCertificates(path),
            Some(Err(reason)) => CommandLine::Failed(
                joined("failed to load CA certificate: ", reason.as_str()),
            ),
            Some(Ok(bytes)) => match load_certificates(bytes) {
                Ok(loaded) => options.into_run(url, TrustStrategy::Certificates(loaded)),
                Err(error) => CommandLine::Failed(
                    joined("failed to load CA certificate: ", error.message().as_str()),
                ),
            },
        }
    }
}

pub open spec fn certificate_file_view(file: Option<Result<Vec<u8>, String>>) -> Option<
    Result<Seq<u8>, Seq<char>>,
> {
    match file {
        Some(Ok(bytes)) => Some(Ok(bytes@)),
        Some(Err(reason)) => Some(Err(reason@)),
        None => None,
    }
}

/// What a command line comes to. `files` is what the files of `--password-file` and
/// `--bearer-token-file` hold, in their order, as far as they are read; `certificates` is what the
/// file of `--ca-cert` holds, where it is read.
pub fn parse_args(
    program: &str,
    args: &[String],
    files: &[TextFile],
    certificates: Option<Result<Vec<u8>, String>>,
) -> (end: CommandLine)
    ensures
        end@ == OptionsView::none().read(
            texts_view(args@),
            text_files_view(files@),
            certificate_file_view(certificates),
            program@,
        ),
{
    let ghost all = texts_view(args@);
    let ghost texts = text_files_view(files@);
    let ghost file = certificate_file_view(certificates);
    let mut options: Options = Options::none();
    let mut i: usize = 0;
    let mut used: usize = 0;
    proof {
        assert(all.skip(0) =~= all);
        assert(texts.skip(0) =~= texts);
    }
    while i < args.len()
        invariant
            i <= args@.len(),
            used <= files@.len(),
            all == texts_view(args@),
            texts == text_files_view(files@),
            file == certificate_file_view(certificates),
            options@.read(all.skip(i as int), texts.skip(used as int), file, program@)
                == OptionsView::none().read(all, texts, file, program@),
        decreases args@.len() - i,
    {
        let ghost rest = all.skip(i as int);
        proof {
            assert(rest[0] == args@[i as int]@);
            assert(rest.skip(1) =~= all.skip(i + 1));
            if i + 1 < args@.len() {
                assert(rest[1] == args@[i + 1]@);
                assert(rest.skip(2) =~= all.skip(i + 2));
            }
        }
        match classify(args[i].as_str()) {
            Word::Rest => {
                let mut j: usize = i + 1;
                let ghost before = options@;
                proof {
                    assert(before.command + rest.skip(1).take(0) =~= before.command);
                }
                while j < args.len()
                    invariant
                        i < j <= args@.len(),
                        all == texts_view(args@),
                        rest == all.skip(i as int),
                        options@ == (OptionsView {
                            command: before.command + rest.skip(1).take(j - i - 1),
                            ..before
                        }),
                    decreases args@.len() - j,
                {
                    let ghost command = options@.command;
                    options.command.push(args[j].as_str().to_owned());
                    proof {
                        assert(rest.skip(1)[j - i - 1] == args@[j as int]@);
                        assert(options@.command =~= command.push(args@[j as int]@));
                        assert(rest.skip(1).take(j - i) =~= rest.skip(1).take(j - i - 1).push(
                            args@[j as int]@,
                        ));
                        assert(options@.command =~= before.command + rest.skip(1).take(j - i));
                    }
                    j = j + 1;
                }
                proof {
                    assert(rest.skip(1).take(j - i - 1) =~= rest.skip(1));
                }
                return options.finish(certificates, program);
            },
            Word::Valued(option) => {
                if let Valued::AgentKey = option {
                    if options.agent.is_some() {
                        return CommandLine::Failed(
                            "use either --agent or --agent-key, not both".to_owned(),
                        );
                    }
                }
                if args.len() - i < 2 {
                    return CommandLine::Failed(joined("missing value for ", args[i].as_str()));
                }
                let count: usize = files.len();
                match options.read_valued(option, &args[i + 1], files, used) {
                    Read::Next { files: more } => {
                        proof {
                            assert(used + more <= count);
                            assert(texts.skip(used as int).skip(more as int) =~= texts.skip(
                                used + more,
                            ));
                        }
                        used = used + more;
                        i = i + 2;
                    },
                    Read::Stop(end) => {
                        return end;
                    },
                }
            },
            _ => match options.read_flagged(&args[i], program) {
                Read::Next { .. } => {
                    proof {
                        assert(texts.skip(used as int).skip(0) =~= texts.skip(used as int));
                    }
                    i = i + 1;
                },
                Read::Stop(end) => {
                    return end;
                },
            },
        }
    }
    proof {
        assert(all.skip(i as int) =~= Seq::<Seq<char>>::empty());
    }
    options.finish(certificates, program)
}

/// The exit code of a program whose session ended with `status`: its lowest eight bits.
pub fn exit_code(status: i32) -> (code: u8)
    ensures
        code == status as int % 256,
{
    let low: i32 = status % 256;
    if low < 0 {
        (low + 256) as u8
    } else {
        low as u8
    }
}

/// Whether a value follows an argument.
pub open spec fn takes_value(text: Seq<char>) -> bool {
    ||| text == "--server-name"@
    ||| text == "--user"@
    ||| text == "--identity"@
    ||| text == "--agent-key"@
    ||| text == "--agent-socket"@
    ||| text == "--password"@
    ||| text == "--password-file"@
    ||| text == "--bearer-token"@
    ||| text == "--bearer-token-file"@
    ||| text == "--use-oidc"@
    ||| text == "--oidc-client-id"@
    ||| text == "--oidc-client-secret"@
    ||| text == "--ca-cert"@
}

/// Whether an argument is an option that no value follows.
pub open spec fn stands_alone(text: Seq<char>) -> bool {
    ||| text == "--agent"@
    ||| text == "--forward-agent"@
    ||| text == "--no-pkce"@
    ||| text == "--insecure"@
    ||| text == "--help"@
    ||| text == "-h"@
}

/// The arguments behind the first, and behind its value where it takes one.
pub open spec fn behind_first(args: Seq<Seq<char>>) -> Seq<Seq<char>> {
    if takes_value(args[0]) && args.len() >= 2 {
        args.skip(2)
    } else {
        args.skip(1)
    }
}

/// The value that the last option of a name is given, among the arguments before the command that
/// `--` sets apart.
pub open spec fn last_value(args: Seq<Seq<char>>, name: Seq<char>) -> Option<Seq<char>>
    decreases args.len(),
{
    if args.len() == 0 || args[0] == "--"@ {
        None
    } else {
        let later = last_value(behind_first(args), name);
        if later is None && takes_value(args[0]) && args.len() >= 2 && args[0] == name {
            Some(args[1])
        } else {
            later
        }
    }
}

/// How often an option stands among the arguments before the command that `--` sets apart.
pub open spec fn times(args: Seq<Seq<char>>, name: Seq<char>) -> nat
    decreases args.len(),
{
    if args.len() == 0 || args[0] == "--"@ {
        0
    } else {
        times(behind_first(args), name) + if args[0] == name {
            1nat
        } else {
            0
        }
    }
}

/// Whether every option that takes a value has one behind it.
pub open spec fn values_follow(args: Seq<Seq<char>>) -> bool
    decreases args.len(),
{
    if args.len() == 0 || args[0] == "--"@ {
        true
    } else {
        (takes_value(args[0]) ==> args.len() >= 2) && values_follow(behind_first(args))
    }
}

/// The arguments that are neither options nor their values, before the command that `--` sets
/// apart.
pub open spec fn plain_args(args: Seq<Seq<char>>) -> Seq<Seq<char>>
    decreases args.len(),
{
    if args.len() == 0 || args[0] == "--"@ {
        Seq::empty()
    } else if takes_value(args[0]) || stands_alone(args[0]) {
        plain_args(behind_first(args))
    } else {
        seq![args[0]] + plain_args(behind_first(args))
    }
}

/// The arguments of the command that `--` sets apart.
pub open spec fn set_apart(args: Seq<Seq<char>>) -> Seq<Seq<char>>
    decreases args.len(),
{
    if args.len() == 0 {
        Seq::empty()
    } else if args[0] == "--"@ {
        args.skip(1)
    } else {
        set_apart(behind_first(args))
    }
}

/// Whether an argument names a file whose contents it stands for.
pub open spec fn reads_a_file(text: Seq<char>) -> bool {
    text == "--password-file"@ || text == "--bearer-token-file"@
}

/// The files that the arguments name, in their order.
pub open spec fn files_named(args: Seq<Seq<char>>) -> Seq<Seq<char>>
    decreases args.len(),
{
    if args.len() == 0 || args[0] == "--"@ {
        Seq::empty()
    } else if reads_a_file(args[0]) && args.len() >= 2 {
        seq![args[1]] + files_named(behind_first(args))
    } else {
        files_named(behind_first(args))
    }
}

/// What is given last under a name or, by a file that holds it, under another, and whether it is by
/// a file.
pub open spec fn last_secret(
    args: Seq<Seq<char>>,
    files: Seq<Result<Seq<char>, Seq<char>>>,
    name: Seq<char>,
    by_file: Seq<char>,
) -> Option<(Seq<char>, bool)>
    decreases args.len(),
{
    if args.len() == 0 || args[0] == "--"@ {
        None
    } else {
        let rest = if reads_a_file(args[0]) {
            files.skip(1)
        } else {
            files
        };
        let later = last_secret(behind_first(args), rest, name, by_file);
        if later is Some || args.len() < 2 {
            later
        } else if args[0] == name {
            Some((args[1], false))
        } else if args[0] == by_file && files.len() > 0 && files[0] is Ok {
            Some((files[0]->Ok_0, true))
        } else {
            None
        }
    }
}

/// Each argument is what its text says.
proof fn lemma_words(text: Seq<char>)
    ensures
        text == "--server-name"@ <==> word_of(text) == Word::Valued(Valued::ServerName),
        text == "--user"@ <==> word_of(text) == Word::Valued(Valued::User),
        text == "--identity"@ <==> word_of(text) == Word::Valued(Valued::Identity),
        text == "--agent-key"@ <==> word_of(text) == Word::Valued(Valued::AgentKey),
        text == "--agent-socket"@ <==> word_of(text) == Word::Valued(Valued::AgentSocket),
        text == "--password"@ <==> word_of(text) == Word::Valued(Valued::Password),
        text == "--password-file"@ <==> word_of(text) == Word::Valued(Valued::PasswordFile),
        text == "--bearer-token"@ <==> word_of(text) == Word::Valued(Valued::BearerToken),
        text == "--bearer-token-file"@ <==> word_of(text) == Word::Valued(Valued::BearerTokenFile),
        text == "--use-oidc"@ <==> word_of(text) == Word::Valued(Valued::UseOidc),
        text == "--oidc-client-id"@ <==> word_of(text) == Word::Valued(Valued::OidcClientId),
        text == "--oidc-client-secret"@ <==> word_of(text) == Word::Valued(Valued::OidcClientSecret),
        text == "--ca-cert"@ <==> word_of(text) == Word::Valued(Valued::CaCert),
        text == "--agent"@ <==> word_of(text) == Word::Agent,
        text == "--forward-agent"@ <==> word_of(text) == Word::ForwardAgent,
        text == "--no-pkce"@ <==> word_of(text) == Word::NoPkce,
        text == "--insecure"@ <==> word_of(text) == Word::Insecure,
        text == "--help"@ || text == "-h"@ <==> word_of(text) == Word::Help,
        text == "--"@ <==> word_of(text) == Word::Rest,
{
    reveal_strlit("--server-name");
    reveal_strlit("--user");
    reveal_strlit("--identity");
    reveal_strlit("--agent-key");
    reveal_strlit("--agent-socket");
    reveal_strlit("--password");
    reveal_strlit("--password-file");
    reveal_strlit("--bearer-token");
    reveal_strlit("--bearer-token-file");
    reveal_strlit("--use-oidc");
    reveal_strlit("--oidc-client-id");
    reveal_strlit("--oidc-client-secret");
    reveal_strlit("--ca-cert");
    reveal_strlit("--agent");
    reveal_strlit("--forward-agent");
    reveal_strlit("--no-pkce");
    reveal_strlit("--insecure");
    reveal_strlit("--help");
    reveal_strlit("-h");
    reveal_strlit("--");
    assert("--server-name"@.len() == 13);
    assert("--user"@.len() == 6);
    assert("--identity"@.len() == 10);
    assert("--agent-key"@.len() == 11);
    assert("--agent-socket"@.len() == 14);
    assert("--password"@.len() == 10);
    assert("--password-file"@.len() == 15);
    assert("--bearer-token"@.len() == 14);
    assert("--bearer-token-file"@.len() == 19);
    assert("--use-oidc"@.len() == 10);
    assert("--oidc-client-id"@.len() == 16);
    assert("--oidc-client-secret"@.len() == 20);
    assert("--ca-cert"@.len() == 9);
    assert("--agent"@.len() == 7);
    assert("--forward-agent"@.len() == 15);
    assert("--no-pkce"@.len() == 9);
    assert("--insecure"@.len() == 10);
    assert("--help"@.len() == 6);
    assert("-h"@.len() == 2);
    assert("--"@.len() == 2);
    assert("--user"@[2] == 'u');
    assert("--identity"@[2] == 'i');
    assert("--identity"@[3] == 'd');
    assert("--agent-socket"@[2] == 'a');
    assert("--password"@[2] == 'p');
    assert("--password-file"@[2] == 'p');
    assert("--bearer-token"@[2] == 'b');
    assert("--use-oidc"@[2] == 'u');
    assert("--ca-cert"@[2] == 'c');
    assert("--forward-agent"@[2] == 'f');
    assert("--no-pkce"@[2] == 'n');
    assert("--insecure"@[2] == 'i');
    assert("--insecure"@[3] == 'n');
    assert("--help"@[2] == 'h');
    assert("-h"@[1] == 'h');
    assert("--"@[1] == '-');
}

/// The later of two values.
pub open spec fn later_of<T>(earlier: Option<T>, later: Option<T>) -> Option<T> {
    if later is Some {
        later
    } else {
        earlier
    }
}

/// A password as it is given: by a file, it is without the ends of lines behind it.
pub open spec fn password_given(secret: Option<(Seq<char>, bool)>) -> Option<Seq<char>> {
    match secret {
        Some((text, by_file)) => if by_file {
            Some(without_line_ends(text))
        } else {
            Some(text)
        },
        None => None,
    }
}

pub open spec fn token_given(secret: Option<(Seq<char>, bool)>) -> Option<Seq<char>> {
    match secret {
        Some((text, _)) => Some(text),
        None => None,
    }
}

pub open spec fn agent_given(args: Seq<Seq<char>>) -> Option<AgentSelectionView> {
    match last_value(args, "--agent-key"@) {
        Some(path) => Some(AgentSelectionView::PublicKey(encode_utf8(path))),
        None => if times(args, "--agent"@) > 0 {
            Some(AgentSelectionView::First)
        } else {
            None
        },
    }
}

/// What the options are after the arguments, where none of them ends the reading.
spec fn options_after(
    options: OptionsView,
    args: Seq<Seq<char>>,
    files: Seq<Result<Seq<char>, Seq<char>>>,
) -> OptionsView {
    let plain = plain_args(args);
    OptionsView {
        server_name: later_of(options.server_name, last_value(args, "--server-name"@)),
        username: later_of(options.username, last_value(args, "--user"@)),
        identity_file: later_of(options.identity_file, last_value(args, "--identity"@)),
        agent: later_of(options.agent, agent_given(args)),
        agent_socket: later_of(options.agent_socket, last_value(args, "--agent-socket"@)),
        forward_agent: options.forward_agent || times(args, "--forward-agent"@) > 0,
        password: later_of(
            options.password,
            password_given(last_secret(args, files, "--password"@, "--password-file"@)),
        ),
        bearer_token: later_of(
            options.bearer_token,
            token_given(last_secret(args, files, "--bearer-token"@, "--bearer-token-file"@)),
        ),
        oidc_issuer_url: later_of(options.oidc_issuer_url, last_value(args, "--use-oidc"@)),
        oidc_client_id: later_of(options.oidc_client_id, last_value(args, "--oidc-client-id"@)),
        oidc_client_secret: later_of(
            options.oidc_client_secret,
            last_value(args, "--oidc-client-secret"@),
        ),
        oidc_use_pkce: options.oidc_use_pkce && times(args, "--no-pkce"@) == 0,
        ca_cert: later_of(options.ca_cert, last_value(args, "--ca-cert"@)),
        insecure: options.insecure || times(args, "--insecure"@) > 0,
        url: if options.url is Some {
            options.url
        } else if plain.len() > 0 && uri_of(plain[0]) is Ok {
            Some(uri_of(plain[0])->Ok_0)
        } else {
            None
        },
        command: options.command + (if options.url is Some || plain.len() == 0 {
            plain
        } else {
            plain.skip(1)
        }) + set_apart(args),
    }
}

/// Whether nothing but a file that is missing or cannot be read ends the reading of the arguments.
spec fn goes_through(options: OptionsView, args: Seq<Seq<char>>) -> bool {
    let plain = plain_args(args);
    &&& values_follow(args)
    &&& times(args, "--help"@) == 0
    &&& times(args, "-h"@) == 0
    &&& times(args, "--agent"@) + times(args, "--agent-key"@) + counted(options.agent is Some) <= 1
        || times(args, "--agent"@) + times(args, "--agent-key"@) == 0
    &&& options.url is None && plain.len() > 0 ==> uri_of(plain[0]) is Ok && !(plain[0].len() > 0
        && plain[0][0] == '-')
}

spec fn files_are_there(
    args: Seq<Seq<char>>,
    files: Seq<Result<Seq<char>, Seq<char>>>,
) -> bool {
    &&& files_named(args).len() <= files.len()
    &&& forall|i: int| 0 <= i < files_named(args).len() ==> (#[trigger] files[i]) is Ok
}

proof fn lemma_read(
    options: OptionsView,
    args: Seq<Seq<char>>,
    files: Seq<Result<Seq<char>, Seq<char>>>,
    certificates: Option<Result<Seq<u8>, Seq<char>>>,
    program: Seq<char>,
)
    ensures
        goes_through(options, args) && files_are_there(args, files) ==> options.read(
            args,
            files,
            certificates,
            program,
        ) == options_after(options, args, files).finished(certificates, program),
        !(goes_through(options, args) && files_are_there(args, files)) ==> !(options.read(
            args,
            files,
            certificates,
            program,
        ) is Run),
    decreases args.len(),
{
    if args.len() == 0 {
        assert(options.command + Seq::<Seq<char>>::empty() + Seq::<Seq<char>>::empty()
            =~= options.command);
        assert(options_after(options, args, files) == options);
    } else {
        lemma_words(args[0]);
        let plain = plain_args(args);
        if args[0] == "--"@ {
            assert(options.command + plain + set_apart(args) =~= options.command + args.skip(1));
            assert(options_after(options, args, files) == (OptionsView {
                command: options.command + args.skip(1),
                ..options
            }));
        } else if takes_value(args[0]) {
            if args.len() >= 2 {
                lemma_read_value(options, args, files);
                let option = word_of(args[0])->Valued_0;
                if let ReadView::Next { options: next, files: used } = options.valued(
                    option,
                    args[1],
                    files,
                ) {
                    lemma_read(
                        next,
                        args.skip(2),
                        files.skip(used as int),
                        certificates,
                        program,
                    );
                }
            }
        } else {
            lemma_read_word(options, args, files, program);
            if let ReadView::Next { options: next, .. } = options.flagged(args[0], program) {
                assert(files.skip(0) =~= files);
                lemma_read(next, args.skip(1), files, certificates, program);
            }
        }
    }
}

proof fn lemma_read_value(
    options: OptionsView,
    args: Seq<Seq<char>>,
    files: Seq<Result<Seq<char>, Seq<char>>>,
)
    requires
        args.len() >= 2,
        takes_value(args[0]),
        args[0] != "--"@,
    ensures
        word_of(args[0]) is Valued,
        ({
            let option = word_of(args[0])->Valued_0;
            let refused = option == Valued::AgentKey && options.agent is Some;
            &&& refused ==> !goes_through(options, args)
            &&& !refused ==> match options.valued(option, args[1], files) {
                ReadView::Next { options: next, files: used } => {
                    let rest = files.skip(used as int);
                    &&& goes_through(options, args) <==> goes_through(next, args.skip(2))
                    &&& files_are_there(args, files) <==> files_are_there(args.skip(2), rest)
                    &&& goes_through(options, args) ==> options_after(options, args, files)
                        == options_after(next, args.skip(2), rest)
                },
                ReadView::Stop(end) => !(end is Run) && !files_are_there(args, files),
            }
        }),
{
    lemma_words(args[0]);
    assert(files.skip(0) =~= files);
    let rest = args.skip(2);
    let named = files_named(rest);
    if reads_a_file(args[0]) {
        assert(files_named(args) == seq![args[1]] + named);
        if files_are_there(args, files) {
            assert forall|i: int| 0 <= i < named.len() implies (#[trigger] files.skip(1)[i])
                is Ok by {
                assert(files[i + 1] is Ok);
            }
            assert(files[0] is Ok);
        }
        if files.len() > 0 && files[0] is Ok && files_are_there(rest, files.skip(1)) {
            assert forall|i: int| 0 <= i < files_named(args).len() implies (#[trigger] files[i])
                is Ok by {
                if i > 0 {
                    assert(files.skip(1)[i - 1] is Ok);
                }
            }
        }
    }
}

proof fn lemma_read_word(
    options: OptionsView,
    args: Seq<Seq<char>>,
    files: Seq<Result<Seq<char>, Seq<char>>>,
    program: Seq<char>,
)
    requires
        args.len() > 0,
        !takes_value(args[0]),
        args[0] != "--"@,
    ensures
        !(word_of(args[0]) is Valued),
        match options.flagged(args[0], program) {
            ReadView::Next { options: next, files: used } => {
                &&& used == 0
                &&& goes_through(options, args) <==> goes_through(next, args.skip(1))
                &&& files_named(args) == files_named(args.skip(1))
                &&& goes_through(options, args) ==> options_after(options, args, files)
                    == options_after(next, args.skip(1), files)
            },
            ReadView::Stop(end) => !(end is Run) && !goes_through(options, args),
        },
{
    lemma_words(args[0]);
    let rest = plain_args(args.skip(1));
    let plain = plain_args(args);
    if stands_alone(args[0]) {
        assert(plain == rest);
    } else {
        assert(plain == seq![args[0]] + rest);
        assert(plain.skip(1) =~= rest);
        let command = options.command;
        assert(command + plain + set_apart(args) =~= command.push(args[0]) + rest + set_apart(
            args.skip(1),
        ));
    }
}

/// Each option that a command line gives shows in the configuration, with the value that it is
/// given last, whichever other options are there, and what it does not give does not. The address
/// is the first argument that is neither an option nor a value, and what follows it, without the
/// options, is the command, put together with blanks.
pub proof fn each_option_shows(
    args: Seq<Seq<char>>,
    files: Seq<Result<Seq<char>, Seq<char>>>,
    certificates: Option<Result<Seq<u8>, Seq<char>>>,
    program: Seq<char>,
    config: ClientConfigView,
    request: SessionRequestView,
)
    requires
        OptionsView::none().read(args, files, certificates, program) == (CommandLineView::Run {
            config,
            request,
        }),
    ensures
        config.username == last_value(args, "--user"@),
        config.server_name == last_value(args, "--server-name"@),
        config.identity_file == match last_value(args, "--identity"@) {
            Some(path) => Some(encode_utf8(path)),
            None => None,
        },
        config.agent_socket == match last_value(args, "--agent-socket"@) {
            Some(path) => Some(encode_utf8(path)),
            None => None,
        },
        config.agent == match last_value(args, "--agent-key"@) {
            Some(path) => Some(AgentSelectionView::PublicKey(encode_utf8(path))),
            None => if times(args, "--agent"@) > 0 {
                Some(AgentSelectionView::First)
            } else {
                None
            },
        },
        config.forward_agent <==> times(args, "--forward-agent"@) > 0,
        config.password == match last_secret(args, files, "--password"@, "--password-file"@) {
            Some((text, by_file)) => if by_file {
                Some(without_line_ends(text))
            } else {
                Some(text)
            },
            None => None,
        },
        config.bearer_token == match last_secret(
            args,
            files,
            "--bearer-token"@,
            "--bearer-token-file"@,
        ) {
            Some((text, _)) => Some(trimmed(text)),
            None => None,
        },
        config.oidc == match last_value(args, "--use-oidc"@) {
            Some(issuer_url) => Some(
                OidcConfigView {
                    issuer_url,
                    client_id: last_value(args, "--oidc-client-id"@)->0,
                    client_secret: last_value(args, "--oidc-client-secret"@),
                    use_pkce: times(args, "--no-pkce"@) == 0,
                },
            ),
            None => None,
        },
        config.trust is Insecure <==> times(args, "--insecure"@) > 0,
        config.trust is Certificates <==> last_value(args, "--ca-cert"@) is Some,
        config.trust matches TrustStrategyView::Certificates(loaded) ==> certificates
            matches Some(Ok(bytes)) && certificates_of(bytes) == Ok::<Seq<Seq<u8>>, ClientErrorView>(
            loaded,
        ),
        plain_args(args).len() > 0 && uri_of(plain_args(args)[0]) == Ok::<UriView, Seq<char>>(
            config.target_url,
        ),
        ({
            let words = plain_args(args).skip(1) + set_apart(args);
            request == (if words.len() == 0 {
                SessionRequestView::Shell
            } else {
                SessionRequestView::Exec(joined_with(words, " "@))
            })
        }),
        config.max_packet_size == 30_000,
        config.default_datagrams_queue_size == 10,
        config.user_agent == SSH3_VERSION_STRING@,
{
    lemma_read(OptionsView::none(), args, files, certificates, program);
    let options = options_after(OptionsView::none(), args, files);
    let words = plain_args(args).skip(1) + set_apart(args);
    if plain_args(args).len() > 0 {
        assert(options.command =~= words);
    }
}

/// A command line runs exactly where it can be read and its options go together: every option that
/// takes a value has one, every file that it names can be read, the address is one, at most one way
/// to say who the client is is given, with a user where that way needs one, and certificates only
/// where they are asked for and can be loaded.
pub proof fn command_line_runs_where_its_options_go_together(
    args: Seq<Seq<char>>,
    files: Seq<Result<Seq<char>, Seq<char>>>,
    certificates: Option<Result<Seq<u8>, Seq<char>>>,
    program: Seq<char>,
)
    ensures
        OptionsView::none().read(args, files, certificates, program) is Run <==> {
            let plain = plain_args(args);
            let identity = last_value(args, "--identity"@) is Some;
            let agents = times(args, "--agent"@) + times(args, "--agent-key"@);
            let password = last_secret(args, files, "--password"@, "--password-file"@) is Some;
            let token = last_secret(args, files, "--bearer-token"@, "--bearer-token-file"@)
                is Some;
            let issuer = last_value(args, "--use-oidc"@) is Some;
            let client = last_value(args, "--oidc-client-id"@) is Some;
            let secret = last_value(args, "--oidc-client-secret"@) is Some;
            let user = last_value(args, "--user"@) is Some;
            let trusted = last_value(args, "--ca-cert"@) is Some;
            &&& values_follow(args)
            &&& times(args, "--help"@) == 0
            &&& times(args, "-h"@) == 0
            &&& agents <= 1
            &&& files_named(args).len() <= files.len()
            &&& forall|i: int| 0 <= i < files_named(args).len() ==> (#[trigger] files[i]) is Ok
            &&& plain.len() > 0
            &&& !(plain[0].len() > 0 && plain[0][0] == '-')
            &&& uri_of(plain[0]) is Ok
            &&& !(trusted && times(args, "--insecure"@) > 0)
            &&& issuer <==> client
            &&& secret ==> issuer
            &&& !(identity && (agents > 0 || password || token || issuer))
            &&& !(agents > 0 && (password || token || issuer))
            &&& !(password && (token || issuer))
            &&& !(token && issuer)
            &&& agents > 0 || password ==> user
            &&& trusted ==> {
                &&& certificates matches Some(Ok(bytes))
                &&& certificates_of(bytes) is Ok
            }
        },
{
    lemma_read(OptionsView::none(), args, files, certificates, program);
    lemma_value_is_given(args, "--agent-key"@);
    reveal_strlit("--agent-key");
}

/// An option that takes a value is given one exactly where it stands.
proof fn lemma_value_is_given(args: Seq<Seq<char>>, name: Seq<char>)
    requires
        takes_value(name),
    ensures
        values_follow(args) ==> (last_value(args, name) is Some <==> times(args, name) > 0),
    decreases args.len(),
{
    if args.len() > 0 && args[0] != "--"@ {
        lemma_value_is_given(behind_first(args), name);
    }
}

/// Where a file that the arguments name is not at hand yet, and nothing else ends the reading, it
/// is asked for: the first that is missing.
pub proof fn missing_file_is_asked_for(
    args: Seq<Seq<char>>,
    files: Seq<Result<Seq<char>, Seq<char>>>,
    certificates: Option<Result<Seq<u8>, Seq<char>>>,
    program: Seq<char>,
)
    requires
        values_follow(args),
        times(args, "--help"@) == 0,
        times(args, "-h"@) == 0,
        times(args, "--agent"@) + times(args, "--agent-key"@) <= 1,
        plain_args(args).len() > 0 ==> uri_of(plain_args(args)[0]) is Ok && !(plain_args(
            args,
        )[0].len() > 0 && plain_args(args)[0][0] == '-'),
        files.len() < files_named(args).len(),
        forall|i: int| 0 <= i < files.len() ==> (#[trigger] files[i]) is Ok,
    ensures
        OptionsView::none().read(args, files, certificates, program) == CommandLineView::NeedFile(
            files_named(args)[files.len() as int],
        ),
{
    lemma_missing_file(OptionsView::none(), args, files, certificates, program);
}

proof fn lemma_missing_file(
    options: OptionsView,
    args: Seq<Seq<char>>,
    files: Seq<Result<Seq<char>, Seq<char>>>,
    certificates: Option<Result<Seq<u8>, Seq<char>>>,
    program: Seq<char>,
)
    requires
        goes_through(options, args),
        files.len() < files_named(args).len(),
        forall|i: int| 0 <= i < files.len() ==> (#[trigger] files[i]) is Ok,
    ensures
        options.read(args, files, certificates, program) == CommandLineView::NeedFile(
            files_named(args)[files.len() as int],
        ),
    decreases args.len(),
{
    lemma_words(args[0]);
    assert(files.skip(0) =~= files);
    if takes_value(args[0]) {
        lemma_read_value(options, args, files);
        if let ReadView::Next { options: next, files: used } = options.valued(
            word_of(args[0])->Valued_0,
            args[1],
            files,
        ) {
            let rest = files.skip(used as int);
            assert forall|i: int| 0 <= i < rest.len() implies (#[trigger] rest[i]) is Ok by {
                assert(files[i + used] is Ok);
            }
            if reads_a_file(args[0]) {
                assert(files_named(args)[files.len() as int] == files_named(
                    args.skip(2),
                )[rest.len() as int]);
            }
            lemma_missing_file(next, args.skip(2), rest, certificates, program);
        }
    } else {
        lemma_read_word(options, args, files, program);
        if let ReadView::Next { options: next, .. } = options.flagged(args[0], program) {
            lemma_missing_file(next, args.skip(1), files, certificates, program);
        }
    }
}

/// Where everything else goes together and certificates are asked for, they are what is missing.
pub proof fn missing_certificates_are_asked_for(
    args: Seq<Seq<char>>,
    files: Seq<Result<Seq<char>, Seq<char>>>,
    program: Seq<char>,
    bytes: Seq<u8>,
)
    requires
        OptionsView::none().read(args, files, Some(Ok(bytes)), program) is Run,
        last_value(args, "--ca-cert"@) is Some,
    ensures
        OptionsView::none().read(args, files, None, program) == CommandLineView::NeedCertificates(
            last_value(args, "--ca-cert"@)->0,
        ),
{
    lemma_read(OptionsView::none(), args, files, Some(Ok(bytes)), program);
    lemma_read(OptionsView::none(), args, files, None, program);
}

/// Who asks for help first gets it, whatever follows.
pub proof fn help_is_given(
    rest: Seq<Seq<char>>,
    files: Seq<Result<Seq<char>, Seq<char>>>,
    certificates: Option<Result<Seq<u8>, Seq<char>>>,
    program: Seq<char>,
)
    ensures
        OptionsView::none().read(seq!["--help"@] + rest, files, certificates, program)
            == CommandLineView::Help(usage_text(program)),
        OptionsView::none().read(seq!["-h"@] + rest, files, certificates, program)
            == CommandLineView::Help(usage_text(program)),
{
    lemma_words("--help"@);
    lemma_words("-h"@);
    let args = seq!["--help"@] + rest;
    assert(args[0] == "--help"@);
    let args = seq!["-h"@] + rest;
    assert(args[0] == "-h"@);
}

/// Options that do not go together are told apart: first those about the certificates, then those
/// about the provider, then that there is more than one way to say who the client is, and last that
/// the user is missing.
pub proof fn options_that_do_not_go_together_are_told(options: OptionsView)
    ensures
        options.insecure && options.ca_cert is Some ==> options.conflict() == Some(
            "use either --ca-cert or --insecure, not both"@,
        ),
        !(options.insecure && options.ca_cert is Some) ==> {
            &&& options.oidc() matches Err(text) ==> options.conflict() == Some(text)
            &&& options.oidc() is Ok && options.auth_methods() > 1 ==> options.conflict() == Some(
                "use either --identity, --agent/--agent-key, --password/--password-file, --bearer-token/--bearer-token-file, or --use-oidc"@,
            )
            &&& options.oidc() is Ok && options.auth_methods() <= 1 && options.username is None ==> {
                &&& options.agent is Some ==> options.conflict() == Some(
                    "--agent/--agent-key requires --user"@,
                )
                &&& options.agent is None && options.password is Some ==> options.conflict() == Some(
                    "--password/--password-file requires --user"@,
                )
            }
        },
{
}

} // verus!
