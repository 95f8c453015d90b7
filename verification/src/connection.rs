//! Opening an FTP session: connect, log in, change into the user's
//! directory, and note where the session stands.
use vstd::prelude::*;
use vstd::string::*;
use crate::session::{CommandView, FtpCommand, FtpReply, ReplyView, Step, StepView};
use crate::text::{decimal, decimal_text};

verus! {

/// What happens when the user's directory cannot be entered.
#[derive(Clone, Copy, Debug, PartialEq, Eq, Structural)]
pub enum UserDirPolicy {
    /// The connection fails.
    Require,
    /// The directory is made and entered again; where either fails, the
    /// session goes on from the directory the login left it in.
    CreateIfMissing,
}

pub enum ConnectPhase {
    AwaitConnect,
    AwaitLogin,
    AwaitCwd,
    AwaitMkdir,
    AwaitRetryCwd,
    AwaitPwd,
    /// Over: the directory the session stands in, where it succeeded.
    Done(Option<Seq<char>>),
}

pub struct ConnectView {
    pub policy: UserDirPolicy,
    pub address: Seq<char>,
    pub user: Seq<char>,
    pub password: Seq<char>,
    pub user_dir: Seq<char>,
    pub phase: ConnectPhase,
}

/// `host:port`.
pub open spec fn address_text(host: Seq<char>, port: u16) -> Seq<char> {
    host + ":"@ + decimal(port as nat)
}

pub open spec fn connect_fail(c: ConnectView) -> (ConnectView, StepView) {
    (ConnectView { phase: ConnectPhase::Done(None), ..c }, StepView::Finished(false))
}

pub open spec fn connect_step_spec(c: ConnectView, r: ReplyView) -> (ConnectView, StepView) {
    match c.phase {
        ConnectPhase::Done(d) => (c, StepView::Finished(d is Some)),
        ConnectPhase::AwaitConnect => match r {
            ReplyView::Done => (
                ConnectView { phase: ConnectPhase::AwaitLogin, ..c },
                StepView::Run(CommandView::Login(c.user, c.password)),
            ),
            _ => connect_fail(c),
        },
        ConnectPhase::AwaitLogin => match r {
            ReplyView::Done => (
                ConnectView { phase: ConnectPhase::AwaitCwd, ..c },
                StepView::Run(CommandView::Cwd(c.user_dir)),
            ),
            _ => connect_fail(c),
        },
        ConnectPhase::AwaitCwd => match r {
            ReplyView::Done => (ConnectView { phase: ConnectPhase::AwaitPwd, ..c }, StepView::Run(CommandView::Pwd)),
            _ => match c.policy {
                UserDirPolicy::Require => connect_fail(c),
                UserDirPolicy::CreateIfMissing => (
                    ConnectView { phase: ConnectPhase::AwaitMkdir, ..c },
                    StepView::Run(CommandView::Mkdir(c.user_dir)),
                ),
            },
        },
        ConnectPhase::AwaitMkdir => match r {
            ReplyView::Done => (
                ConnectView { phase: ConnectPhase::AwaitRetryCwd, ..c },
                StepView::Run(CommandView::Cwd(c.user_dir)),
            ),
            _ => (ConnectView { phase: ConnectPhase::AwaitPwd, ..c }, StepView::Run(CommandView::Pwd)),
        },
        ConnectPhase::AwaitRetryCwd => (ConnectView { phase: ConnectPhase::AwaitPwd, ..c }, StepView::Run(CommandView::Pwd)),
        ConnectPhase::AwaitPwd => match r {
            ReplyView::Directory(d) => (ConnectView { phase: ConnectPhase::Done(Some(d)), ..c }, StepView::Finished(true)),
            _ => connect_fail(c),
        },
    }
}

pub open spec fn connect_start_spec(policy: UserDirPolicy, host: Seq<char>, port: u16, user: Seq<char>, password: Seq<char>, user_dir: Seq<char>) -> (ConnectView, StepView) {
    let address = address_text(host, port);
    (
        ConnectView { policy, address, user, password, user_dir, phase: ConnectPhase::AwaitConnect },
        StepView::Run(CommandView::Connect(address)),
    )
}

/// Under the `Require` policy the plan never makes a directory: the states
/// that follow a failed change into the user's directory are never reached.
pub open spec fn strict_route(c: ConnectView) -> bool {
    c.policy == UserDirPolicy::Require ==> !(c.phase is AwaitMkdir) && !(c.phase is AwaitRetryCwd)
}

/// Under the `Require` policy, every step keeps away from making a
/// directory, and a failed change into the user's directory fails the
/// connection.
pub proof fn lemma_strict_policy(c: ConnectView, r: ReplyView)
    requires
        strict_route(c),
    ensures
        strict_route(connect_step_spec(c, r).0),
        c.policy == UserDirPolicy::Require && c.phase is AwaitCwd && !(r is Done)
            ==> connect_step_spec(c, r).1 == StepView::Finished(false),
{
}

/// A connection succeeds only on the answer to `Pwd`, and the directory it
/// ends in is that answer.
pub proof fn lemma_connect_success(c: ConnectView, r: ReplyView)
    requires
        !(c.phase is Done),
    ensures
        connect_step_spec(c, r).1 == StepView::Finished(true) <==> (c.phase is AwaitPwd && r is Directory),
        connect_step_spec(c, r).1 == StepView::Finished(true) ==> (r matches ReplyView::Directory(d)
            && connect_step_spec(c, r).0.phase == ConnectPhase::Done(Some(d))),
{
}

/// The opening after the replies `rs`, one after the other.
pub open spec fn connect_run(c: ConnectView, rs: Seq<ReplyView>) -> ConnectView
    decreases rs.len(),
{
    if rs.len() == 0 {
        c
    } else {
        connect_run(connect_step_spec(c, rs[0]).0, rs.drop_first())
    }
}

/// The directory an opening stands in once it has succeeded.
pub open spec fn connected_directory(c: ConnectView) -> Option<Seq<char>> {
    match c.phase {
        ConnectPhase::Done(d) => d,
        _ => None,
    }
}

/// Where a session opened under `policy` stands after the replies `rs` to
/// its commands: the answer to `Pwd`, once the connection, the login and the
/// change into the user's directory went through, or, where `policy` makes
/// a missing directory, once the change failed and the directory was made
/// (and entered again, whatever came of that) or could not be made.
pub open spec fn opened_directory(policy: UserDirPolicy, rs: Seq<ReplyView>) -> Option<Seq<char>> {
    if rs.len() >= 4 && rs[0] is Done && rs[1] is Done && rs[2] is Done && rs[3] is Directory {
        Some(rs[3]->Directory_0)
    } else if policy == UserDirPolicy::CreateIfMissing && rs.len() >= 5 && rs[0] is Done && rs[1] is Done
        && !(rs[2] is Done) && !(rs[3] is Done) && rs[4] is Directory {
        Some(rs[4]->Directory_0)
    } else if policy == UserDirPolicy::CreateIfMissing && rs.len() >= 6 && rs[0] is Done && rs[1] is Done
        && !(rs[2] is Done) && rs[3] is Done && rs[5] is Directory {
        Some(rs[5]->Directory_0)
    } else {
        None
    }
}

proof fn lemma_connect_done_stays(c: ConnectView, rs: Seq<ReplyView>)
    requires
        c.phase is Done,
    ensures
        connect_run(c, rs) == c,
    decreases rs.len(),
{
    if rs.len() > 0 {
        lemma_connect_done_stays(connect_step_spec(c, rs[0]).0, rs.drop_first());
    }
}

/// Over a whole opening, whatever the server answers, the session stands in
/// a directory exactly when the replies are those `opened_directory` names,
/// and that directory is the answer to `Pwd`: under `Require` a failed change
/// into the user's directory leaves no session.
pub proof fn lemma_connect_outcome(
    policy: UserDirPolicy,
    host: Seq<char>,
    port: u16,
    user: Seq<char>,
    password: Seq<char>,
    user_dir: Seq<char>,
    rs: Seq<ReplyView>,
)
    ensures
        connected_directory(connect_run(connect_start_spec(policy, host, port, user, password, user_dir).0, rs))
            == opened_directory(policy, rs),
{
    let c0 = connect_start_spec(policy, host, port, user, password, user_dir).0;
    if rs.len() == 0 {
        return;
    }
    let c1 = connect_step_spec(c0, rs[0]).0;
    let s1 = rs.drop_first();
    assert(connect_run(c0, rs) == connect_run(c1, s1));
    if !(rs[0] is Done) {
        lemma_connect_done_stays(c1, s1);
        return;
    }
    if s1.len() == 0 {
        return;
    }
    let c2 = connect_step_spec(c1, s1[0]).0;
    let s2 = s1.drop_first();
    assert(connect_run(c1, s1) == connect_run(c2, s2));
    if !(rs[1] is Done) {
        assert(s1[0] == rs[1]);
        lemma_connect_done_stays(c2, s2);
        return;
    }
    assert(s1[0] == rs[1]);
    if s2.len() == 0 {
        return;
    }
    assert(s2[0] == rs[2]);
    let c3 = connect_step_spec(c2, s2[0]).0;
    let s3 = s2.drop_first();
    assert(connect_run(c2, s2) == connect_run(c3, s3));
    if c3.phase is Done {
        lemma_connect_done_stays(c3, s3);
        return;
    }
    if s3.len() == 0 {
        return;
    }
    assert(s3[0] == rs[3]);
    let c4 = connect_step_spec(c3, s3[0]).0;
    let s4 = s3.drop_first();
    assert(connect_run(c3, s3) == connect_run(c4, s4));
    if c4.phase is Done {
        lemma_connect_done_stays(c4, s4);
        return;
    }
    if s4.len() == 0 {
        return;
    }
    assert(s4[0] == rs[4]);
    let c5 = connect_step_spec(c4, s4[0]).0;
    let s5 = s4.drop_first();
    assert(connect_run(c4, s4) == connect_run(c5, s5));
    if c5.phase is Done {
        lemma_connect_done_stays(c5, s5);
        return;
    }
    if s5.len() == 0 {
        return;
    }
    assert(s5[0] == rs[5]);
    let c6 = connect_step_spec(c5, s5[0]).0;
    let s6 = s5.drop_first();
    assert(connect_run(c5, s5) == connect_run(c6, s6));
    assert(c6.phase is Done);
    lemma_connect_done_stays(c6, s6);
}

enum Phase {
    AwaitConnect,
    AwaitLogin,
    AwaitCwd,
    AwaitMkdir,
    AwaitRetryCwd,
    AwaitPwd,
    Done(Option<String>),
}

/// The opening of one FTP session.
pub struct ConnectPlan {
    policy: UserDirPolicy,
    address: String,
    user: String,
    password: String,
    user_dir: String,
    phase: Phase,
}

impl View for ConnectPlan {
    type V = ConnectView;

    closed spec fn view(&self) -> ConnectView {
        ConnectView {
            policy: self.policy,
            address: self.address@,
            user: self.user@,
            password: self.password@,
            user_dir: self.user_dir@,
            phase: match self.phase {
                Phase::AwaitConnect => ConnectPhase::AwaitConnect,
                Phase::AwaitLogin => ConnectPhase::AwaitLogin,
                Phase::AwaitCwd => ConnectPhase::AwaitCwd,
                Phase::AwaitMkdir => ConnectPhase::AwaitMkdir,
                Phase::AwaitRetryCwd => ConnectPhase::AwaitRetryCwd,
                Phase::AwaitPwd => ConnectPhase::AwaitPwd,
                Phase::Done(d) => ConnectPhase::Done(match d {
                    Some(s) => Some(s@),
                    None => None,
                }),
            },
        }
    }
}

/// `host:port`, as `format!("{}:{}", host, port)` writes it.
pub fn address(host: &str, port: u16) -> (r: String)
    ensures
        r@ == address_text(host@, port),
{
    let mut r = String::from_str(host);
    r.append(":");
    let p = decimal_text(port as u32);
    r.append(p.as_str());
    r
}

impl ConnectPlan {
    /// Starts opening a session; the step returned is its first command.
    pub fn start(policy: UserDirPolicy, host: &str, port: u16, user: &str, password: &str, user_dir: &str) -> (r: (ConnectPlan, Step))
        ensures
            (r.0@, r.1@) == connect_start_spec(policy, host@, port, user@, password@, user_dir@),
    {
        let a = address(host, port);
        let plan = ConnectPlan {
            policy,
            address: a.clone(),
            user: String::from_str(user),
            password: String::from_str(password),
            user_dir: String::from_str(user_dir),
            phase: Phase::AwaitConnect,
        };
        (plan, Step::Run(FtpCommand::Connect(a)))
    }

    /// Hands the plan the reply to its last command.
    pub fn step(&mut self, reply: FtpReply) -> (s: Step)
        ensures
            (final(self)@, s@) == connect_step_spec(old(self)@, reply@),
    {
        match &self.phase {
            Phase::Done(d) => Step::Finished(d.is_some()),
            Phase::AwaitConnect => match reply {
                FtpReply::Done => {
                    self.phase = Phase::AwaitLogin;
                    Step::Run(FtpCommand::Login(self.user.clone(), self.password.clone()))
                },
                _ => {
                    self.phase = Phase::Done(None);
                    Step::Finished(false)
                },
            },
            Phase::AwaitLogin => match reply {
                FtpReply::Done => {
                    self.phase = Phase::AwaitCwd;
                    Step::Run(FtpCommand::Cwd(self.user_dir.clone()))
                },
                _ => {
                    self.phase = Phase::Done(None);
                    Step::Finished(false)
                },
            },
            Phase::AwaitCwd => match reply {
                FtpReply::Done => {
                    self.phase = Phase::AwaitPwd;
                    Step::Run(FtpCommand::Pwd)
                },
                _ => match self.policy {
                    UserDirPolicy::Require => {
                        self.phase = Phase::Done(None);
                        Step::Finished(false)
                    },
                    UserDirPolicy::CreateIfMissing => {
                        self.phase = Phase::AwaitMkdir;
                        Step::Run(FtpCommand::Mkdir(self.user_dir.clone()))
                    },
                },
            },
            Phase::AwaitMkdir => match reply {
                FtpReply::Done => {
                    self.phase = Phase::AwaitRetryCwd;
                    Step::Run(FtpCommand::Cwd(self.user_dir.clone()))
                },
                _ => {
                    self.phase = Phase::AwaitPwd;
                    Step::Run(FtpCommand::Pwd)
                },
            },
            Phase::AwaitRetryCwd => {
                self.phase = Phase::AwaitPwd;
                Step::Run(FtpCommand::Pwd)
            },
            Phase::AwaitPwd => match reply {
                FtpReply::Directory(d) => {
                    self.phase = Phase::Done(Some(d));
                    Step::Finished(true)
                },
                _ => {
                    self.phase = Phase::Done(None);
                    Step::Finished(false)
                },
            },
        }
    }

    /// The directory the session stands in, once the plan has succeeded.
    pub fn directory(&self) -> (r: Option<String>)
        ensures
            match self@.phase {
                ConnectPhase::Done(Some(d)) => r matches Some(s) && s@ == d,
                _ => r is None,
            },
    {
        match &self.phase {
            Phase::Done(Some(d)) => Some(d.clone()),
            _ => None,
        }
    }
}

// ---------------------------------------------------------------------------
// Changing the working directory
// ---------------------------------------------------------------------------

pub enum ChangePhase {
    AwaitCwd,
    AwaitPwd,
    /// Over: the directory the session then stands in, where both commands
    /// went through.
    Done(Option<Seq<char>>),
}

pub struct ChangeView {
    pub dir: Seq<char>,
    pub phase: ChangePhase,
}

/// A change into `dir` starts by sending `Cwd(dir)`.
pub open spec fn change_start_spec(dir: Seq<char>) -> (ChangeView, StepView) {
    (ChangeView { dir, phase: ChangePhase::AwaitCwd }, StepView::Run(CommandView::Cwd(dir)))
}

/// After `Cwd` went through, the session is asked where it stands; the
/// answer is the directory it is in. A failure of either command ends the
/// change without a directory.
pub open spec fn change_step_spec(c: ChangeView, r: ReplyView) -> (ChangeView, StepView) {
    match c.phase {
        ChangePhase::Done(d) => (c, StepView::Finished(d is Some)),
        ChangePhase::AwaitCwd => match r {
            ReplyView::Done => (ChangeView { phase: ChangePhase::AwaitPwd, ..c }, StepView::Run(CommandView::Pwd)),
            _ => (ChangeView { phase: ChangePhase::Done(None), ..c }, StepView::Finished(false)),
        },
        ChangePhase::AwaitPwd => match r {
            ReplyView::Directory(d) => (ChangeView { phase: ChangePhase::Done(Some(d)), ..c }, StepView::Finished(true)),
            _ => (ChangeView { phase: ChangePhase::Done(None), ..c }, StepView::Finished(false)),
        },
    }
}

/// The change after the replies `rs`, one after the other.
pub open spec fn change_run(c: ChangeView, rs: Seq<ReplyView>) -> ChangeView
    decreases rs.len(),
{
    if rs.len() == 0 {
        c
    } else {
        change_run(change_step_spec(c, rs[0]).0, rs.drop_first())
    }
}

pub open spec fn changed_directory(c: ChangeView) -> Option<Seq<char>> {
    match c.phase {
        ChangePhase::Done(d) => d,
        _ => None,
    }
}

proof fn lemma_change_done_stays(c: ChangeView, rs: Seq<ReplyView>)
    requires
        c.phase is Done,
    ensures
        change_run(c, rs) == c,
    decreases rs.len(),
{
    if rs.len() > 0 {
        lemma_change_done_stays(change_step_spec(c, rs[0]).0, rs.drop_first());
    }
}

/// Over a whole change, the session ends in a new directory exactly when
/// `Cwd` went through and `Pwd` answered, and that directory is the answer.
pub proof fn lemma_change_outcome(dir: Seq<char>, rs: Seq<ReplyView>)
    ensures
        changed_directory(change_run(change_start_spec(dir).0, rs)) == if rs.len() >= 2 && rs[0] is Done
            && rs[1] is Directory {
            Some(rs[1]->Directory_0)
        } else {
            None
        },
{
    let c0 = change_start_spec(dir).0;
    if rs.len() == 0 {
        return;
    }
    let c1 = change_step_spec(c0, rs[0]).0;
    let s1 = rs.drop_first();
    assert(change_run(c0, rs) == change_run(c1, s1));
    if !(rs[0] is Done) {
        lemma_change_done_stays(c1, s1);
        return;
    }
    if s1.len() == 0 {
        return;
    }
    assert(s1[0] == rs[1]);
    let c2 = change_step_spec(c1, s1[0]).0;
    let s2 = s1.drop_first();
    assert(change_run(c1, s1) == change_run(c2, s2));
    lemma_change_done_stays(c2, s2);
}

#[derive(Debug)]
enum ChangeState {
    AwaitCwd,
    AwaitPwd,
    Done(Option<String>),
}

/// A change of the session's working directory.
#[derive(Debug)]
pub struct DirectoryChange {
    dir: String,
    phase: ChangeState,
}

impl View for DirectoryChange {
    type V = ChangeView;

    closed spec fn view(&self) -> ChangeView {
        ChangeView {
            dir: self.dir@,
            phase: match self.phase {
                ChangeState::AwaitCwd => ChangePhase::AwaitCwd,
                ChangeState::AwaitPwd => ChangePhase::AwaitPwd,
                ChangeState::Done(d) => ChangePhase::Done(match d {
                    Some(s) => Some(s@),
                    None => None,
                }),
            },
        }
    }
}

impl DirectoryChange {
    /// Starts a change into `dir`; the step returned is its first command.
    pub fn start(dir: &str) -> (r: (DirectoryChange, Step))
        ensures
            (r.0@, r.1@) == change_start_spec(dir@),
    {
        let d = String::from_str(dir);
        (DirectoryChange { dir: d.clone(), phase: ChangeState::AwaitCwd }, Step::Run(FtpCommand::Cwd(d)))
    }

    /// Hands the change the reply to its last command.
    pub fn step(&mut self, reply: FtpReply) -> (s: Step)
        ensures
            (final(self)@, s@) == change_step_spec(old(self)@, reply@),
    {
        match &self.phase {
            ChangeState::Done(d) => Step::Finished(d.is_some()),
            ChangeState::AwaitCwd => match reply {
                FtpReply::Done => {
                    self.phase = ChangeState::AwaitPwd;
                    Step::Run(FtpCommand::Pwd)
                },
                _ => {
                    self.phase = ChangeState::Done(None);
                    Step::Finished(false)
                },
            },
            ChangeState::AwaitPwd => match reply {
                FtpReply::Directory(d) => {
                    self.phase = ChangeState::Done(Some(d));
                    Step::Finished(true)
                },
                _ => {
                    self.phase = ChangeState::Done(None);
                    Step::Finished(false)
                },
            },
        }
    }

    /// The directory the session stands in, once the change has succeeded.
    pub fn directory(&self) -> (r: Option<String>)
        ensures
            match self@.phase {
                ChangePhase::Done(Some(d)) => r matches Some(s) && s@ == d,
                _ => r is None,
            },
    {
        match &self.phase {
            ChangeState::Done(Some(d)) => Some(d.clone()),
            _ => None,
        }
    }
}

} // verus!
