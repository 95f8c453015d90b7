//! An FTP client for the user's file area: it makes the user's directory
//! where it is missing, and tells files from directories by entering them.
use vstd::prelude::*;
use vstd::string::*;
use crate::connection::{
    ChangePhase, ConnectPhase, ConnectPlan, DirectoryChange, UserDirPolicy, change_start_spec, connect_start_spec,
};
use crate::ftp::{FtpClientView, SessionEvent, apply_event, change_event, connect_event, disconnected, guarded, same_settings};
use crate::removal::{DeletePlan, Probe, start_spec, well_formed};
use crate::session::{CommandView, FtpClientError, FtpCommand, Step};

verus! {

pub struct FtpClient {
    ftp_addr: String,
    ftp_port: u16,
    user_email: String,
    token_api: String,
    user_id: String,
    connected: bool,
    root_dir: Option<String>,
}

impl View for FtpClient {
    type V = FtpClientView;

    closed spec fn view(&self) -> FtpClientView {
        FtpClientView {
            addr: self.ftp_addr@,
            port: self.ftp_port,
            email: self.user_email@,
            token: self.token_api@,
            user_id: self.user_id@,
            connected: self.connected,
            root_dir: match self.root_dir {
                Some(d) => Some(d@),
                None => None,
            },
        }
    }
}

impl FtpClient {
    /// A client for the server at `addr:port`, logging in with `email` and
    /// `token`, whose files are in the directory `user_id`; no session is
    /// open yet.
    pub fn new(addr: &str, port: u16, email: &str, token: &str, user_id: &str) -> (r: FtpClient)
        ensures
            r@ == (FtpClientView {
                addr: addr@,
                port,
                email: email@,
                token: token@,
                user_id: user_id@,
                connected: false,
                root_dir: None,
            }),
    {
        FtpClient {
            ftp_addr: String::from_str(addr),
            ftp_port: port,
            user_email: String::from_str(email),
            token_api: String::from_str(token),
            user_id: String::from_str(user_id),
            connected: false,
            root_dir: None,
        }
    }

    /// Starts opening a session: connect to `addr:port`, log in with the
    /// e-mail and the token, change into `user_id` (making it where it is
    /// missing, and going on from where the login left the session where
    /// that fails too), and ask where the session stands.
    pub fn connect(&self) -> (r: (ConnectPlan, Step))
        ensures
            (r.0@, r.1@) == connect_start_spec(UserDirPolicy::CreateIfMissing, self@.addr, self@.port, self@.email, self@.token, self@.user_id),
    {
        ConnectPlan::start(
            UserDirPolicy::CreateIfMissing,
            self.ftp_addr.as_str(),
            self.ftp_port,
            self.user_email.as_str(),
            self.token_api.as_str(),
            self.user_id.as_str(),
        )
    }

    /// Takes the outcome of a connection plan: where it succeeded, the
    /// session is open and stands in the directory the server reported;
    /// else nothing changes. Answers whether the session is open.
    pub fn finish_connect(&mut self, plan: &ConnectPlan) -> (r: bool)
        ensures
            same_settings(final(self)@, old(self)@),
            match plan@.phase {
                ConnectPhase::Done(Some(d)) => r && final(self)@.connected && final(self)@.root_dir == Some(d),
                _ => !r && final(self)@ == old(self)@,
            },
            final(self)@ == apply_event(old(self)@, connect_event(plan@)),
    {
        match plan.directory() {
            Some(d) => {
                self.root_dir = Some(d);
                self.connected = true;
                true
            },
            None => false,
        }
    }

    /// Closes the session. Answers whether one was open, and so whether the
    /// caller has a `Quit` to send (whose failure is of no account).
    pub fn disconnect(&mut self) -> (quit: bool)
        ensures
            quit == old(self)@.connected,
            final(self)@ == disconnected(old(self)@),
            final(self)@ == apply_event(old(self)@, SessionEvent::Disconnected),
    {
        let quit = self.connected;
        self.connected = false;
        self.root_dir = None;
        quit
    }

    /// Whether a session is open.
    pub fn is_connected(&self) -> (r: bool)
        ensures
            r == self@.connected,
    {
        self.connected
    }

    /// The directory the session stands in.
    pub fn root_dir(&self) -> (r: Option<String>)
        ensures
            match self@.root_dir {
                Some(d) => r matches Some(s) && s@ == d,
                None => r is None,
            },
    {
        match &self.root_dir {
            Some(d) => Some(d.clone()),
            None => None,
        }
    }

    /// Fetching `remote_path` (the caller writes what comes back to the
    /// local file).
    pub fn download_file(&self, remote_path: &str) -> (r: Result<FtpCommand, FtpClientError>)
        ensures
            guarded(self@, r, CommandView::Retr(remote_path@)),
    {
        if !self.connected {
            return Err(FtpClientError::NotConnected);
        }
        Ok(FtpCommand::Retr(String::from_str(remote_path)))
    }

    /// Storing the content of a local file at `remote_path`.
    pub fn upload_file(&self, remote_path: &str) -> (r: Result<FtpCommand, FtpClientError>)
        ensures
            guarded(self@, r, CommandView::Put(remote_path@)),
    {
        if !self.connected {
            return Err(FtpClientError::NotConnected);
        }
        Ok(FtpCommand::Put(String::from_str(remote_path)))
    }

    /// Making the directory `dir_name`.
    pub fn make_directory(&self, dir_name: &str) -> (r: Result<FtpCommand, FtpClientError>)
        ensures
            guarded(self@, r, CommandView::Mkdir(dir_name@)),
    {
        if !self.connected {
            return Err(FtpClientError::NotConnected);
        }
        Ok(FtpCommand::Mkdir(String::from_str(dir_name)))
    }

    /// Changing into `dir`: the change sends `Cwd`, then asks where the
    /// session stands; its outcome goes to `finish_change_directory`.
    pub fn change_directory(&self, dir: &str) -> (r: Result<(DirectoryChange, Step), FtpClientError>)
        ensures
            r is Ok <==> self@.connected,
            r matches Err(e) ==> e == FtpClientError::NotConnected,
            r matches Ok(p) ==> (p.0@, p.1@) == change_start_spec(dir@),
    {
        if !self.connected {
            return Err(FtpClientError::NotConnected);
        }
        Ok(DirectoryChange::start(dir))
    }

    /// Takes the outcome of a change: where both commands went through, the
    /// session stands in the directory the server reported; else nothing
    /// changes. Answers whether the change went through.
    pub fn finish_change_directory(&mut self, change: &DirectoryChange) -> (r: bool)
        ensures
            match change@.phase {
                ChangePhase::Done(Some(d)) => r && final(self)@ == (FtpClientView { root_dir: Some(d), ..old(self)@ }),
                _ => !r && final(self)@ == old(self)@,
            },
            final(self)@ == apply_event(old(self)@, change_event(change@)),
    {
        match change.directory() {
            Some(d) => {
                self.root_dir = Some(d);
                true
            },
            None => false,
        }
    }

    /// Removing the file `path`.
    pub fn remove_file(&self, path: &str) -> (r: Result<FtpCommand, FtpClientError>)
        ensures
            guarded(self@, r, CommandView::Rm(path@)),
    {
        if !self.connected {
            return Err(FtpClientError::NotConnected);
        }
        Ok(FtpCommand::Rm(String::from_str(path)))
    }

    /// Removing the directory `dir_path` and everything in it; entries are
    /// told apart by changing into them, from the working directory noted
    /// on entering each directory.
    pub fn remove_directory_recursive(&self, dir_path: &str) -> (r: Result<(DeletePlan, Step), FtpClientError>)
        ensures
            r is Ok <==> self@.connected,
            r matches Err(e) ==> e == FtpClientError::NotConnected,
            r matches Ok(p) ==> (p.0@, p.1@) == start_spec(dir_path@, Probe::ChangeDirectory) && well_formed(p.0@),
    {
        if !self.connected {
            return Err(FtpClientError::NotConnected);
        }
        Ok(DeletePlan::start(dir_path, Probe::ChangeDirectory))
    }
}

} // verus!
