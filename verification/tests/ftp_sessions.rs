use chiral_client::connection::{ConnectPlan, DirectoryChange, UserDirPolicy};
use chiral_client::file::FtpClient as FileFtpClient;
use chiral_client::ftp::FtpClient;
use chiral_client::session::{FtpClientError, FtpCommand, FtpReply, Step};
use std::collections::BTreeSet;
use uuid::Uuid;

/// An FTP server that knows users, directories and a working directory.
struct Server {
    users: Vec<(String, String)>,
    dirs: BTreeSet<String>,
    cwd: String,
    logged_in: bool,
    can_mkdir: bool,
}

impl Server {
    fn new() -> Server {
        Server {
            users: vec![("anonymous".to_string(), String::new())],
            dirs: BTreeSet::new(),
            cwd: "/".to_string(),
            logged_in: false,
            can_mkdir: true,
        }
    }

    fn resolve(&self, d: &str) -> String {
        if d.starts_with('/') {
            d.to_string()
        } else if self.cwd == "/" {
            format!("/{}", d)
        } else {
            format!("{}/{}", self.cwd, d)
        }
    }

    fn run(&mut self, cmd: FtpCommand) -> FtpReply {
        match cmd {
            FtpCommand::Connect(_) => FtpReply::Done,
            FtpCommand::Login(u, p) => {
                if self.users.iter().any(|(a, b)| *a == u && *b == p) {
                    self.logged_in = true;
                    FtpReply::Done
                } else {
                    FtpReply::Failed
                }
            }
            _ if !self.logged_in => FtpReply::Failed,
            FtpCommand::Pwd => FtpReply::Directory(self.cwd.clone()),
            FtpCommand::Cwd(d) => {
                let p = self.resolve(&d);
                if self.dirs.contains(&p) {
                    self.cwd = p;
                    FtpReply::Done
                } else {
                    FtpReply::Failed
                }
            }
            FtpCommand::Mkdir(d) => {
                let p = self.resolve(&d);
                let parent = match p.rfind('/') {
                    Some(0) => "/".to_string(),
                    Some(i) => p[..i].to_string(),
                    None => "/".to_string(),
                };
                if self.can_mkdir && !self.dirs.contains(&p) && (parent == "/" || self.dirs.contains(&parent)) {
                    self.dirs.insert(p);
                    FtpReply::Done
                } else {
                    FtpReply::Failed
                }
            }
            FtpCommand::Quit => {
                self.logged_in = false;
                FtpReply::Done
            }
            _ => FtpReply::Failed,
        }
    }
}

fn run_plan(mut plan: ConnectPlan, first: Step, server: &mut Server) -> (ConnectPlan, bool) {
    let mut step = first;
    loop {
        match step {
            Step::Finished(ok) => return (plan, ok),
            Step::Run(cmd) => {
                let reply = server.run(cmd);
                step = plan.step(reply);
            }
        }
    }
}

fn run_change(mut change: DirectoryChange, first: Step, server: &mut Server) -> (DirectoryChange, bool) {
    let mut step = first;
    loop {
        match step {
            Step::Finished(ok) => return (change, ok),
            Step::Run(cmd) => {
                let reply = server.run(cmd);
                step = change.step(reply);
            }
        }
    }
}

fn run_one(server: &mut Server, cmd: Result<FtpCommand, FtpClientError>) -> bool {
    match cmd {
        Ok(c) => matches!(server.run(c), FtpReply::Done),
        Err(_) => false,
    }
}

#[test]
fn file_test_connection() {
    let mut server = Server::new();
    let host = "127.0.0.1";
    let port: u16 = 2121;
    let test_credentials = vec![("anonymous", "", "test_user"), ("test", "test", "test_user"), ("ftp", "", "test_user")];
    let mut connection_successful = false;
    for (user, pass, initial_dir) in test_credentials {
        let mut client = FileFtpClient::new(host, port, user, pass, initial_dir);
        let (plan, first) = client.connect();
        let (plan, ok) = run_plan(plan, first, &mut server);
        if ok {
            assert!(client.finish_connect(&plan));
            assert!(client.is_connected());
            assert_eq!(client.root_dir().as_deref(), Some("/test_user"));
            assert!(client.disconnect());
            assert!(!client.is_connected());
            connection_successful = true;
            break;
        }
    }
    assert!(connection_successful, "Failed to connect with any credentials");
}

#[test]
fn file_test_make_and_change_directory() {
    let mut server = Server::new();
    let mut client = FileFtpClient::new("127.0.0.1", 2121, "anonymous", "", "test_user");
    let (plan, first) = client.connect();
    let (plan, ok) = run_plan(plan, first, &mut server);
    assert!(ok, "Failed to connect");
    assert!(client.finish_connect(&plan));

    let user_root = "upload";
    let _ = run_one(&mut server, client.make_directory(user_root));
    let uuid = Uuid::new_v4();
    let dir = format!("{}/test_dir_{}", user_root, uuid);
    assert!(run_one(&mut server, client.make_directory(&dir)), "Failed to create dir");
    let (change, first) = client.change_directory(&dir).expect("Failed to change dir");
    let (change, ok) = run_change(change, first, &mut server);
    assert!(ok, "Failed to change dir");
    assert!(client.finish_change_directory(&change));
    assert_eq!(client.root_dir().unwrap(), format!("/test_user/{}", dir));
    assert!(client.is_connected());
    assert!(client.disconnect());
    assert!(!client.is_connected());
}

#[test]
fn strict_client_needs_the_user_directory() {
    let mut server = Server::new();
    let mut client = FtpClient::new("127.0.0.1", 21, "anonymous", "", "test_user");
    let (plan, first) = client.connect();
    let (plan, ok) = run_plan(plan, first, &mut server);
    assert!(!ok);
    assert!(!client.finish_connect(&plan));
    assert!(!client.is_connected());
    assert!(server.dirs.is_empty());

    server.dirs.insert("/test_user".to_string());
    let mut server2 = server;
    server2.logged_in = false;
    let (plan, first) = client.connect();
    let (plan, ok) = run_plan(plan, first, &mut server2);
    assert!(ok);
    assert!(client.finish_connect(&plan));
    assert_eq!(client.root_dir().as_deref(), Some("/test_user"));
}

#[test]
fn lenient_client_stays_at_root_when_it_cannot_make_the_directory() {
    let mut server = Server::new();
    server.can_mkdir = false;
    let mut client = FileFtpClient::new("127.0.0.1", 21, "anonymous", "", "test_user");
    let (plan, first) = client.connect();
    let (plan, ok) = run_plan(plan, first, &mut server);
    assert!(ok);
    assert!(client.finish_connect(&plan));
    assert_eq!(client.root_dir().as_deref(), Some("/"));
}

#[test]
fn wrong_password_fails_the_connection() {
    let mut server = Server::new();
    let mut client = FileFtpClient::new("127.0.0.1", 21, "anonymous", "nope", "test_user");
    let (plan, first) = client.connect();
    let (plan, ok) = run_plan(plan, first, &mut server);
    assert!(!ok);
    assert!(plan.directory().is_none());
    assert!(!client.finish_connect(&plan));
    assert!(!client.disconnect());
}

#[test]
fn connection_plan_commands_in_order() {
    let (mut plan, first) = ConnectPlan::start(UserDirPolicy::CreateIfMissing, "h", 21, "u", "p", "d");
    assert!(matches!(first, Step::Run(FtpCommand::Connect(ref a)) if a == "h:21"));
    assert!(matches!(plan.step(FtpReply::Done), Step::Run(FtpCommand::Login(ref u, ref p)) if u == "u" && p == "p"));
    assert!(matches!(plan.step(FtpReply::Done), Step::Run(FtpCommand::Cwd(ref d)) if d == "d"));
    assert!(matches!(plan.step(FtpReply::Failed), Step::Run(FtpCommand::Mkdir(ref d)) if d == "d"));
    assert!(matches!(plan.step(FtpReply::Done), Step::Run(FtpCommand::Cwd(ref d)) if d == "d"));
    assert!(matches!(plan.step(FtpReply::Failed), Step::Run(FtpCommand::Pwd)));
    assert!(matches!(plan.step(FtpReply::Directory("/".to_string())), Step::Finished(true)));
    assert_eq!(plan.directory().as_deref(), Some("/"));
    let (mut strict, _) = ConnectPlan::start(UserDirPolicy::Require, "h", 21, "u", "p", "d");
    strict.step(FtpReply::Done);
    strict.step(FtpReply::Done);
    assert!(matches!(strict.step(FtpReply::Failed), Step::Finished(false)));
}

#[test]
fn operations_on_an_open_session() {
    let mut server = Server::new();
    server.dirs.insert("/test_user".to_string());
    let mut client = FtpClient::new("127.0.0.1", 21, "anonymous", "", "test_user");
    assert!(client.upload_file("a").is_err());
    let (plan, first) = client.connect();
    let (plan, _) = run_plan(plan, first, &mut server);
    client.finish_connect(&plan);
    assert!(matches!(client.upload_file("upload/a.txt"), Ok(FtpCommand::Put(ref p)) if p == "upload/a.txt"));
    assert!(matches!(client.download_file("upload/a.txt"), Ok(FtpCommand::Retr(ref p)) if p == "upload/a.txt"));
    assert!(matches!(client.remove_file("upload/a.txt"), Ok(FtpCommand::Rm(ref p)) if p == "upload/a.txt"));
    assert!(matches!(client.make_directory("upload"), Ok(FtpCommand::Mkdir(ref p)) if p == "upload"));
    assert!(matches!(client.change_directory("upload"), Ok((_, Step::Run(FtpCommand::Cwd(ref p)))) if p == "upload"));
    assert!(client.remove_directory_recursive("upload").is_ok());
    assert!(client.disconnect());
    assert!(!client.disconnect());
    assert!(client.root_dir().is_none());
    assert!(matches!(client.download_file("x"), Err(FtpClientError::NotConnected)));
}

#[test]
fn failed_change_keeps_the_directory() {
    let mut server = Server::new();
    server.dirs.insert("/test_user".to_string());
    let mut client = FtpClient::new("127.0.0.1", 21, "anonymous", "", "test_user");
    let (plan, first) = client.connect();
    let (plan, ok) = run_plan(plan, first, &mut server);
    assert!(ok);
    assert!(client.finish_connect(&plan));
    // a directory that does not exist: Cwd fails, Pwd is never sent
    let (change, first) = client.change_directory("missing").unwrap();
    let mut change = change;
    assert!(matches!(change.step(FtpReply::Failed), Step::Finished(false)));
    assert!(change.directory().is_none());
    assert!(!client.finish_change_directory(&change));
    assert_eq!(client.root_dir().as_deref(), Some("/test_user"));
    assert!(matches!(first, Step::Run(FtpCommand::Cwd(ref d)) if d == "missing"));
    // Cwd goes through but Pwd fails: the directory is not taken either
    let (mut change, _) = client.change_directory("x").unwrap();
    assert!(matches!(change.step(FtpReply::Done), Step::Run(FtpCommand::Pwd)));
    assert!(matches!(change.step(FtpReply::Failed), Step::Finished(false)));
    assert!(!client.finish_change_directory(&change));
    assert_eq!(client.root_dir().as_deref(), Some("/test_user"));
    // both go through: the answer to Pwd is where the session stands
    let (mut change, _) = client.change_directory("x").unwrap();
    assert!(matches!(change.step(FtpReply::Done), Step::Run(FtpCommand::Pwd)));
    assert!(matches!(change.step(FtpReply::Directory("/test_user/x".to_string())), Step::Finished(true)));
    assert!(client.finish_change_directory(&change));
    assert_eq!(client.root_dir().as_deref(), Some("/test_user/x"));
}

#[test]
fn opening_outcome_follows_the_replies() {
    // made the directory, but could not enter it: the answer to Pwd still decides
    let (mut plan, _) = ConnectPlan::start(UserDirPolicy::CreateIfMissing, "h", 21, "u", "p", "d");
    assert!(matches!(plan.step(FtpReply::Done), Step::Run(FtpCommand::Login(_, _))));
    assert!(matches!(plan.step(FtpReply::Done), Step::Run(FtpCommand::Cwd(ref x)) if x == "d"));
    assert!(matches!(plan.step(FtpReply::Failed), Step::Run(FtpCommand::Mkdir(ref x)) if x == "d"));
    assert!(matches!(plan.step(FtpReply::Done), Step::Run(FtpCommand::Cwd(ref x)) if x == "d"));
    assert!(matches!(plan.step(FtpReply::Failed), Step::Run(FtpCommand::Pwd)));
    assert!(matches!(plan.step(FtpReply::Directory("/".to_string())), Step::Finished(true)));
    assert_eq!(plan.directory().as_deref(), Some("/"));
    // once over, further replies change nothing
    assert!(matches!(plan.step(FtpReply::Failed), Step::Finished(true)));
    assert_eq!(plan.directory().as_deref(), Some("/"));
    // the same replies under Require end at the failed change
    let (mut plan, _) = ConnectPlan::start(UserDirPolicy::Require, "h", 21, "u", "p", "d");
    plan.step(FtpReply::Done);
    plan.step(FtpReply::Done);
    assert!(matches!(plan.step(FtpReply::Failed), Step::Finished(false)));
    assert!(plan.directory().is_none());
}

#[test]
fn session_opens_and_closes_in_turn() {
    let mut client = FtpClient::new("127.0.0.1", 21, "anonymous", "", "test_user");
    for _ in 0..2 {
        let mut server = Server::new();
        server.dirs.insert("/test_user".to_string());
        let (plan, first) = client.connect();
        let (plan, ok) = run_plan(plan, first, &mut server);
        assert!(ok);
        assert!(client.finish_connect(&plan));
        assert!(client.is_connected());
        assert!(client.disconnect());
        assert!(!client.is_connected());
        assert!(client.root_dir().is_none());
    }
}
