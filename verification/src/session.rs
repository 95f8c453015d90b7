//! The FTP commands that the client's plans ask for, and the replies that
//! come back from the server.
use vstd::prelude::*;
use vstd::string::*;

verus! {

/// One FTP operation, to be carried out on the connection by the caller.
#[derive(Debug)]
pub enum FtpCommand {
    /// Open a control connection to `host:port`.
    Connect(String),
    /// Log in with a user name and a password.
    Login(String, String),
    /// Ask for the working directory.
    Pwd,
    /// Change the working directory.
    Cwd(String),
    /// Make a directory.
    Mkdir(String),
    /// List the names in a directory.
    Nlst(String),
    /// Ask for the size of a file.
    Size(String),
    /// Remove a file.
    Rm(String),
    /// Remove an (empty) directory.
    Rmdir(String),
    /// Fetch a file.
    Retr(String),
    /// Store a file.
    Put(String),
    /// Close the session.
    Quit,
}

pub enum CommandView {
    Connect(Seq<char>),
    Login(Seq<char>, Seq<char>),
    Pwd,
    Cwd(Seq<char>),
    Mkdir(Seq<char>),
    Nlst(Seq<char>),
    Size(Seq<char>),
    Rm(Seq<char>),
    Rmdir(Seq<char>),
    Retr(Seq<char>),
    Put(Seq<char>),
    Quit,
}

impl View for FtpCommand {
    type V = CommandView;

    open spec fn view(&self) -> CommandView {
        match self {
            FtpCommand::Connect(a) => CommandView::Connect(a@),
            FtpCommand::Login(u, p) => CommandView::Login(u@, p@),
            FtpCommand::Pwd => CommandView::Pwd,
            FtpCommand::Cwd(d) => CommandView::Cwd(d@),
            FtpCommand::Mkdir(d) => CommandView::Mkdir(d@),
            FtpCommand::Nlst(d) => CommandView::Nlst(d@),
            FtpCommand::Size(f) => CommandView::Size(f@),
            FtpCommand::Rm(f) => CommandView::Rm(f@),
            FtpCommand::Rmdir(d) => CommandView::Rmdir(d@),
            FtpCommand::Retr(f) => CommandView::Retr(f@),
            FtpCommand::Put(f) => CommandView::Put(f@),
            FtpCommand::Quit => CommandView::Quit,
        }
    }
}

/// What the server answered to a command.
#[derive(Debug)]
pub enum FtpReply {
    /// The command succeeded (and returns nothing the plans read).
    Done,
    /// The command failed.
    Failed,
    /// A listing, the answer to `Nlst`.
    Listing(Vec<String>),
    /// A directory, the answer to `Pwd`.
    Directory(String),
}

pub enum ReplyView {
    Done,
    Failed,
    Listing(Seq<Seq<char>>),
    Directory(Seq<char>),
}

pub open spec fn string_views(v: Seq<String>) -> Seq<Seq<char>> {
    v.map_values(|s: String| s@)
}

impl View for FtpReply {
    type V = ReplyView;

    open spec fn view(&self) -> ReplyView {
        match self {
            FtpReply::Done => ReplyView::Done,
            FtpReply::Failed => ReplyView::Failed,
            FtpReply::Listing(v) => ReplyView::Listing(string_views(v@)),
            FtpReply::Directory(d) => ReplyView::Directory(d@),
        }
    }
}

/// What a plan asks for next.
#[derive(Debug)]
pub enum Step {
    /// Carry out this command and hand its reply back to the plan.
    Run(FtpCommand),
    /// The plan is over: `true` where it succeeded.
    Finished(bool),
}

pub enum StepView {
    Run(CommandView),
    Finished(bool),
}

impl View for Step {
    type V = StepView;

    open spec fn view(&self) -> StepView {
        match self {
            Step::Run(c) => StepView::Run(c@),
            Step::Finished(b) => StepView::Finished(*b),
        }
    }
}

/// Why an FTP operation was refused before anything was sent.
#[derive(Clone, Copy, Debug, PartialEq, Eq, Structural)]
pub enum FtpClientError {
    /// No session is open.
    NotConnected,
}

impl FtpClientError {
    /// The text that reports the error.
    pub fn message(&self) -> (r: String)
        ensures
            r@ == "Not connected to FTP server"@,
    {
        String::from_str("Not connected to FTP server")
    }
}

} // verus!
