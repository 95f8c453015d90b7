//! The client of one user: the service's address and the user's
//! credentials, and the user's FTP session where one is open.
use vstd::prelude::*;
use vstd::string::*;
use serde_json::Value;
use crate::connection::{
    ChangePhase, DirectoryChange, UserDirPolicy, address_text, change_start_spec, connect_start_spec, connect_step_spec,
};
use crate::file::FtpClient;
use crate::ftp::FtpClientView;
use crate::json::{json_as_string, json_string_value};
use crate::session::{CommandView, FtpClientError, FtpCommand, ReplyView, Step, StepView};

verus! {

/// Why a client operation did not go ahead.
#[derive(Clone, Copy, Debug, PartialEq, Eq, Structural)]
pub enum ClientError {
    /// The service's answer to the request for an API token is no string.
    TokenNotString,
    /// No FTP session is attached to the client.
    FtpNotConnected,
    /// The FTP session refused the operation.
    Ftp(FtpClientError),
}

impl ClientError {
    /// The text that reports the error.
    pub fn message(&self) -> (r: String)
        ensures
            match self {
                ClientError::TokenNotString => r@ == "Expected a string in token API response"@,
                ClientError::FtpNotConnected => r@ == "FTP not connected"@,
                ClientError::Ftp(_) => r@ == "Not connected to FTP server"@,
            },
    {
        match self {
            ClientError::TokenNotString => String::from_str("Expected a string in token API response"),
            ClientError::FtpNotConnected => String::from_str("FTP not connected"),
            ClientError::Ftp(e) => e.message(),
        }
    }
}

pub struct ClientView {
    pub url: Seq<char>,
    pub user_email: Seq<char>,
    pub user_id: Seq<char>,
    pub token_auth: Seq<char>,
    pub token_api: Seq<char>,
    pub api_port: u16,
    pub ftp_addr: Seq<char>,
    pub file_port: u16,
    pub session: Option<FtpClientView>,
}

pub struct Client {
    url: String,
    user_email: String,
    user_id: String,
    token_auth: String,
    token_api: String,
    api_port: u16,
    ftp_addr: String,
    file_port: u16,
    pub ftp_session: Option<FtpClient>,
}

impl View for Client {
    type V = ClientView;

    closed spec fn view(&self) -> ClientView {
        ClientView {
            url: self.url@,
            user_email: self.user_email@,
            user_id: self.user_id@,
            token_auth: self.token_auth@,
            token_api: self.token_api@,
            api_port: self.api_port,
            ftp_addr: self.ftp_addr@,
            file_port: self.file_port,
            session: match self.ftp_session {
                Some(s) => Some(s@),
                None => None,
            },
        }
    }
}

/// The client with another session.
pub open spec fn with_session(c: ClientView, session: Option<FtpClientView>) -> ClientView {
    ClientView { session, ..c }
}

/// The FTP client a session of this user starts from: the FTP server's
/// address, the e-mail as user name, the API token (not the authentication
/// token) as password, and the user id as directory.
pub open spec fn session_settings(c: ClientView) -> FtpClientView {
    FtpClientView {
        addr: c.ftp_addr,
        port: c.file_port,
        email: c.user_email,
        token: c.token_api,
        user_id: c.user_id,
        connected: false,
        root_dir: None,
    }
}

/// The answer to an FTP operation through the client: refused where no
/// session is attached, else the session's own answer.
pub open spec fn through_session(c: ClientView, r: Result<FtpCommand, ClientError>, cmd: CommandView) -> bool {
    match c.session {
        None => r == Err::<FtpCommand, ClientError>(ClientError::FtpNotConnected),
        Some(s) => if s.connected {
            r matches Ok(x) && x@ == cmd
        } else {
            r == Err::<FtpCommand, ClientError>(ClientError::Ftp(FtpClientError::NotConnected))
        },
    }
}

impl Client {
    pub fn new(
        url: String,
        user_email: String,
        user_id: String,
        token_auth: String,
        token_api: String,
        api_port: u16,
        ftp_addr: String,
        file_port: u16,
    ) -> (r: Client)
        ensures
            r@ == (ClientView {
                url: url@,
                user_email: user_email@,
                user_id: user_id@,
                token_auth: token_auth@,
                token_api: token_api@,
                api_port,
                ftp_addr: ftp_addr@,
                file_port,
                session: None,
            }),
    {
        Client { url, user_email, user_id, token_auth, token_api, api_port, ftp_addr, file_port, ftp_session: None }
    }

    /// A client whose API token is the service's answer `token_reply` to the
    /// request for one; that answer must be a JSON string.
    pub fn with_token_reply(
        url: String,
        user_email: String,
        user_id: String,
        token_auth: String,
        api_port: u16,
        ftp_addr: String,
        file_port: u16,
        token_reply: &Value,
    ) -> (r: Result<Client, ClientError>)
        ensures
            r is Ok <==> json_string_value(*token_reply) is Some,
            r matches Err(e) ==> e == ClientError::TokenNotString,
            r matches Ok(c) ==> c@ == (ClientView {
                url: url@,
                user_email: user_email@,
                user_id: user_id@,
                token_auth: token_auth@,
                token_api: json_string_value(*token_reply)->0,
                api_port,
                ftp_addr: ftp_addr@,
                file_port,
                session: None,
            }),
    {
        match json_as_string(token_reply) {
            Some(token_api) => Ok(Client::new(url, user_email, user_id, token_auth, token_api, api_port, ftp_addr, file_port)),
            None => Err(ClientError::TokenNotString),
        }
    }

    pub fn url(&self) -> (r: &str)
        ensures
            r@ == self@.url,
    {
        self.url.as_str()
    }

    pub fn user_email(&self) -> (r: &str)
        ensures
            r@ == self@.user_email,
    {
        self.user_email.as_str()
    }

    pub fn token_auth(&self) -> (r: &str)
        ensures
            r@ == self@.token_auth,
    {
        self.token_auth.as_str()
    }

    pub fn token_api(&self) -> (r: &str)
        ensures
            r@ == self@.token_api,
    {
        self.token_api.as_str()
    }

    /// The FTP client to open this user's session with.
    pub fn new_ftp_session(&self) -> (r: FtpClient)
        ensures
            r@ == session_settings(self@),
            r@.addr == self@.ftp_addr,
            r@.port == self@.file_port,
            r@.email == self@.user_email,
            r@.token == self@.token_api,
            r@.user_id == self@.user_id,
            !r@.connected,
            r@.root_dir is None,
    {
        FtpClient::new(
            self.ftp_addr.as_str(),
            self.file_port,
            self.user_email.as_str(),
            self.token_api.as_str(),
            self.user_id.as_str(),
        )
    }

    /// Keeps an opened session with the client.
    pub fn set_ftp_session(&mut self, session: FtpClient)
        ensures
            final(self)@ == with_session(old(self)@, Some(session@)),
    {
        self.ftp_session = Some(session);
    }

    /// Drops the client's session, closing it. Answers whether the caller
    /// has a `Quit` to send.
    pub fn disconnect_ftp(&mut self) -> (quit: bool)
        ensures
            final(self)@ == with_session(old(self)@, None),
            quit == (old(self)@.session matches Some(s) && s.connected),
    {
        match self.ftp_session.take() {
            Some(mut s) => s.disconnect(),
            None => false,
        }
    }

    pub fn upload_file(&self, remote_path: &str) -> (r: Result<FtpCommand, ClientError>)
        ensures
            through_session(self@, r, CommandView::Put(remote_path@)),
    {
        match &self.ftp_session {
            Some(s) => match s.upload_file(remote_path) {
                Ok(c) => Ok(c),
                Err(e) => Err(ClientError::Ftp(e)),
            },
            None => Err(ClientError::FtpNotConnected),
        }
    }

    pub fn download_file(&self, remote_path: &str) -> (r: Result<FtpCommand, ClientError>)
        ensures
            through_session(self@, r, CommandView::Retr(remote_path@)),
    {
        match &self.ftp_session {
            Some(s) => match s.download_file(remote_path) {
                Ok(c) => Ok(c),
                Err(e) => Err(ClientError::Ftp(e)),
            },
            None => Err(ClientError::FtpNotConnected),
        }
    }

    pub fn make_directory(&self, dir_path: &str) -> (r: Result<FtpCommand, ClientError>)
        ensures
            through_session(self@, r, CommandView::Mkdir(dir_path@)),
    {
        match &self.ftp_session {
            Some(s) => match s.make_directory(dir_path) {
                Ok(c) => Ok(c),
                Err(e) => Err(ClientError::Ftp(e)),
            },
            None => Err(ClientError::FtpNotConnected),
        }
    }

    /// Changing the session's working directory into `dir_path`.
    pub fn change_directory(&self, dir_path: &str) -> (r: Result<(DirectoryChange, Step), ClientError>)
        ensures
            match self@.session {
                None => r matches Err(e) && e == ClientError::FtpNotConnected,
                Some(s) => if s.connected {
                    r matches Ok(p) && (p.0@, p.1@) == change_start_spec(dir_path@)
                } else {
                    r matches Err(e) && e == ClientError::Ftp(FtpClientError::NotConnected)
                },
            },
    {
        match &self.ftp_session {
            Some(s) => match s.change_directory(dir_path) {
                Ok(c) => Ok(c),
                Err(e) => Err(ClientError::Ftp(e)),
            },
            None => Err(ClientError::FtpNotConnected),
        }
    }

    /// Takes the outcome of a change of directory into the client's session.
    /// Answers whether the session now stands in a new directory.
    pub fn finish_change_directory(&mut self, change: &DirectoryChange) -> (r: bool)
        ensures
            match (old(self)@.session, change@.phase) {
                (Some(s), ChangePhase::Done(Some(d))) => r
                    && final(self)@ == with_session(old(self)@, Some(FtpClientView { root_dir: Some(d), ..s })),
                _ => !r && final(self)@ == old(self)@,
            },
    {
        match self.ftp_session.take() {
            Some(mut s) => {
                let r = s.finish_change_directory(change);
                self.ftp_session = Some(s);
                r
            },
            None => false,
        }
    }
}

/// A user's FTP session connects to the client's FTP address and port,
/// and once connected logs in with the user's e-mail as name and the API
/// token (not the authentication token) as password, then enters the
/// directory named by the user id; whichever policy the FTP client follows
/// for that directory.
pub proof fn lemma_session_logs_in_with_api_token(c: ClientView, policy: UserDirPolicy)
    ensures
        ({
            let s = session_settings(c);
            let start = connect_start_spec(policy, s.addr, s.port, s.email, s.token, s.user_id);
            let login = connect_step_spec(start.0, ReplyView::Done);
            &&& start.1 == StepView::Run(CommandView::Connect(address_text(c.ftp_addr, c.file_port)))
            &&& login.1 == StepView::Run(CommandView::Login(c.user_email, c.token_api))
            &&& connect_step_spec(login.0, ReplyView::Done).1 == StepView::Run(CommandView::Cwd(c.user_id))
        }),
{
}

/// A session closed through the client is gone: the client then refuses
/// every FTP operation, and closing again has nothing to close.
pub proof fn lemma_disconnect_ftp_refuses(c: ClientView, r: Result<FtpCommand, ClientError>, cmd: CommandView)
    ensures
        with_session(with_session(c, None), None) == with_session(c, None),
        through_session(with_session(c, None), r, cmd) ==> r == Err::<FtpCommand, ClientError>(ClientError::FtpNotConnected),
{
}

} // verus!
