use chiral_client::file::FtpClient as FileFtpClient;
use chiral_client::ftp::FtpClient;
use chiral_client::removal::{DeletePlan, Probe};
use chiral_client::remote_path::{entry_path, listed_entry_name};
use chiral_client::session::{FtpClientError, FtpCommand, FtpReply, Step};
use std::collections::BTreeSet;

/// A small FTP file system: directories and files by absolute-free path.
struct Server {
    dirs: BTreeSet<String>,
    files: BTreeSet<String>,
    cwd: String,
    /// Whether NLST answers with the directory in front of each name.
    full_names: bool,
    removed: Vec<String>,
    fail_rm: Option<String>,
}

impl Server {
    fn new(full_names: bool) -> Server {
        Server {
            dirs: BTreeSet::new(),
            files: BTreeSet::new(),
            cwd: "/home".to_string(),
            full_names,
            removed: Vec::new(),
            fail_rm: None,
        }
    }

    fn children(&self, dir: &str) -> Vec<String> {
        let prefix = format!("{}/", dir.trim_end_matches('/'));
        let mut out = Vec::new();
        for p in self.dirs.iter().chain(self.files.iter()) {
            if let Some(rest) = p.strip_prefix(&prefix) {
                if !rest.is_empty() && !rest.contains('/') {
                    if self.full_names {
                        out.push(p.clone());
                    } else {
                        out.push(rest.to_string());
                    }
                }
            }
        }
        if self.full_names {
            out.push(format!("{}/.", dir));
            out.push(format!("{}/..", dir));
        } else {
            out.push(".".to_string());
            out.push("..".to_string());
        }
        out
    }

    fn run(&mut self, cmd: FtpCommand) -> FtpReply {
        match cmd {
            FtpCommand::Pwd => FtpReply::Directory(self.cwd.clone()),
            FtpCommand::Cwd(d) => {
                if self.dirs.contains(&d) || d == "/home" {
                    self.cwd = d;
                    FtpReply::Done
                } else {
                    FtpReply::Failed
                }
            }
            FtpCommand::Nlst(d) => {
                if self.dirs.contains(&d) {
                    FtpReply::Listing(self.children(&d))
                } else {
                    FtpReply::Failed
                }
            }
            FtpCommand::Size(f) => {
                if self.files.contains(&f) {
                    FtpReply::Done
                } else {
                    FtpReply::Failed
                }
            }
            FtpCommand::Rm(f) => {
                if self.fail_rm.as_deref() == Some(f.as_str()) {
                    return FtpReply::Failed;
                }
                if self.files.remove(&f) {
                    self.removed.push(f);
                    FtpReply::Done
                } else {
                    FtpReply::Failed
                }
            }
            FtpCommand::Rmdir(d) => {
                let prefix = format!("{}/", d);
                let busy = self.dirs.iter().chain(self.files.iter()).any(|p| p.starts_with(&prefix));
                if !busy && self.dirs.remove(&d) {
                    self.removed.push(d);
                    FtpReply::Done
                } else {
                    FtpReply::Failed
                }
            }
            _ => FtpReply::Failed,
        }
    }
}

fn tree(full_names: bool) -> Server {
    let mut s = Server::new(full_names);
    for d in ["upload", "upload/test_del", "upload/test_del/nested", "keep"] {
        s.dirs.insert(d.to_string());
    }
    for f in ["upload/test_del/file1.txt", "upload/test_del/nested/file2.txt", "keep/other.txt", "upload/stay.txt"] {
        s.files.insert(f.to_string());
    }
    s
}

fn drive(plan: &mut DeletePlan, first: Step, server: &mut Server) -> (bool, Vec<String>) {
    let mut step = first;
    let mut log = Vec::new();
    let mut guard = 0;
    loop {
        guard += 1;
        assert!(guard < 1000, "plan did not finish");
        match step {
            Step::Finished(ok) => return (ok, log),
            Step::Run(cmd) => {
                log.push(format!("{:?}", describe(&cmd)));
                let reply = server.run(cmd);
                step = plan.step(reply);
            }
        }
    }
}

fn describe(cmd: &FtpCommand) -> String {
    match cmd {
        FtpCommand::Pwd => "PWD".to_string(),
        FtpCommand::Cwd(p) => format!("CWD {}", p),
        FtpCommand::Nlst(p) => format!("NLST {}", p),
        FtpCommand::Size(p) => format!("SIZE {}", p),
        FtpCommand::Rm(p) => format!("RM {}", p),
        FtpCommand::Rmdir(p) => format!("RMDIR {}", p),
        _ => "OTHER".to_string(),
    }
}

fn remaining(server: &Server) -> Vec<String> {
    server.dirs.iter().chain(server.files.iter()).cloned().collect()
}

#[test]
fn size_probe_removes_whole_tree() {
    for full in [true, false] {
        let mut server = tree(full);
        let (mut plan, first) = DeletePlan::start("upload/test_del", Probe::SizeThenListing);
        let (ok, _) = drive(&mut plan, first, &mut server);
        assert!(ok);
        assert!(plan.is_finished());
        let left = remaining(&server);
        assert!(left.iter().all(|p| !p.starts_with("upload/test_del")));
        assert!(left.contains(&"upload/stay.txt".to_string()));
        assert!(left.contains(&"keep/other.txt".to_string()));
        assert_eq!(server.removed.last().unwrap(), "upload/test_del");
    }
}

#[test]
fn change_directory_probe_removes_whole_tree() {
    for full in [true, false] {
        let mut server = tree(full);
        let (mut plan, first) = DeletePlan::start("upload/test_del", Probe::ChangeDirectory);
        let (ok, log) = drive(&mut plan, first, &mut server);
        assert!(ok);
        assert_eq!(log[0], "\"PWD\"");
        let left = remaining(&server);
        assert!(left.iter().all(|p| !p.starts_with("upload/test_del")));
        assert_eq!(left.len(), 4);
        // the working directory is back where it was noted
        assert_eq!(server.cwd, "/home");
    }
}

#[test]
fn missing_directory_fails_at_listing() {
    let mut server = tree(true);
    let (mut plan, first) = DeletePlan::start("nowhere", Probe::SizeThenListing);
    let (ok, log) = drive(&mut plan, first, &mut server);
    assert!(!ok);
    assert_eq!(log, vec!["\"NLST nowhere\"".to_string()]);
    assert_eq!(remaining(&server).len(), 8);
}

#[test]
fn failed_removal_aborts() {
    let mut server = tree(false);
    server.fail_rm = Some("upload/test_del/file1.txt".to_string());
    let (mut plan, first) = DeletePlan::start("upload/test_del", Probe::SizeThenListing);
    let (ok, _) = drive(&mut plan, first, &mut server);
    assert!(!ok);
    assert!(server.dirs.contains("upload/test_del"));
    // once over, the plan keeps answering with its end
    assert!(matches!(plan.step(FtpReply::Done), Step::Finished(false)));
}

#[test]
fn unknown_entry_is_removed_as_a_file() {
    // An entry that neither has a size nor lists is removed as a file.
    let mut server = Server::new(false);
    server.dirs.insert("d".to_string());
    server.files.insert("d/odd".to_string());
    let (mut plan, first) = DeletePlan::start("d", Probe::SizeThenListing);
    assert!(matches!(first, Step::Run(FtpCommand::Nlst(ref p)) if p == "d"));
    let s = plan.step(FtpReply::Listing(vec!["odd".to_string()]));
    assert!(matches!(s, Step::Run(FtpCommand::Size(ref p)) if p == "d/odd"));
    let s = plan.step(FtpReply::Failed);
    assert!(matches!(s, Step::Run(FtpCommand::Nlst(ref p)) if p == "d/odd"));
    let s = plan.step(FtpReply::Failed);
    assert!(matches!(s, Step::Run(FtpCommand::Rm(ref p)) if p == "d/odd"));
    let s = plan.step(FtpReply::Done);
    assert!(matches!(s, Step::Run(FtpCommand::Rmdir(ref p)) if p == "d"));
    let s = plan.step(FtpReply::Done);
    assert!(matches!(s, Step::Finished(true)));
}

#[test]
fn entry_names_follow_the_listing_forms() {
    assert_eq!(listed_entry_name("upload/x", "upload/x/a.txt").as_deref(), Some("a.txt"));
    assert_eq!(listed_entry_name("upload/x", "upload/x//a.txt").as_deref(), Some("a.txt"));
    assert_eq!(listed_entry_name("upload/x", "/srv/upload/x/b").as_deref(), Some("b"));
    assert_eq!(listed_entry_name("upload/x", "c").as_deref(), Some("c"));
    assert_eq!(listed_entry_name("upload/x", "upload/x/."), None);
    assert_eq!(listed_entry_name("upload/x", "upload/x/.."), None);
    assert_eq!(listed_entry_name("upload/x", "."), None);
    assert_eq!(listed_entry_name("upload/x", ".."), None);
    assert_eq!(listed_entry_name("upload/x", "upload/x"), None);
    assert_eq!(listed_entry_name("upload/x", "other/"), None);
    assert_eq!(listed_entry_name("", "a/b"), Some("a/b".to_string()));
}

#[test]
fn entry_paths_join_with_one_slash() {
    assert_eq!(entry_path("upload/x", "a"), "upload/x/a");
    assert_eq!(entry_path("upload/x///", "a"), "upload/x/a");
    assert_eq!(entry_path("/", "a"), "/a");
    assert_eq!(entry_path("", "a"), "/a");
}

#[test]
fn removal_needs_a_session() {
    let client = FtpClient::new("127.0.0.1", 21, "anonymous", "", "test_user");
    assert!(matches!(client.remove_directory_recursive("upload"), Err(FtpClientError::NotConnected)));
    assert!(matches!(client.remove_file("upload/a.txt"), Err(FtpClientError::NotConnected)));
    let client = FileFtpClient::new("127.0.0.1", 21, "anonymous", "", "test_user");
    assert!(matches!(client.remove_directory_recursive("upload"), Err(FtpClientError::NotConnected)));
    assert!(matches!(client.remove_file("upload/a.txt"), Err(FtpClientError::NotConnected)));
    assert_eq!(FtpClientError::NotConnected.message(), "Not connected to FTP server");
}
