//! The recursive removal of a remote directory, as a plan that asks for one
//! FTP command at a time and is told what the server answered.
//!
//! The directory is listed; every entry of the listing that names something
//! in it is told apart as a file or a directory, files are removed, and
//! directories are removed the same way, depth first; the directory itself
//! is removed last. The first failure of a listing or of a removal ends the
//! plan with failure.
use vstd::prelude::*;
use crate::remote_path::{
    child_path, entry_name, entry_path, lemma_child_of_root_within, lemma_child_within,
    lemma_entry_name_shape, listed_entry_name, within,
};
use crate::session::{CommandView, FtpCommand, FtpReply, ReplyView, Step, StepView, string_views};

verus! {

/// How an entry is told apart as a file or a directory.
#[derive(Clone, Copy, Debug, PartialEq, Eq, Structural)]
pub enum Probe {
    /// Ask for its size: a file has one. Where that fails, list it: a
    /// directory can be listed. Where that fails too, it is removed as a file.
    SizeThenListing,
    /// Note the working directory first; change into the entry: a directory
    /// can be entered, and the working directory is then changed back before
    /// the entry is removed.
    ChangeDirectory,
}

// ---------------------------------------------------------------------------
// The model
// ---------------------------------------------------------------------------

/// A directory under removal: its path, the working directory noted on
/// entering it (`ChangeDirectory` only), its listing, and the index of the
/// next entry to deal with.
pub struct FrameView {
    pub dir: Seq<char>,
    pub saved: Seq<char>,
    pub entries: Seq<Seq<char>>,
    pub next: nat,
}

/// The reply the plan waits for.
pub enum PhaseView {
    AwaitPwd,
    AwaitListing,
    AwaitSize(Seq<char>),
    AwaitProbe(Seq<char>),
    AwaitEnter(Seq<char>),
    AwaitRestore(Seq<char>),
    AwaitRm(Seq<char>),
    AwaitRmdir,
    Done(bool),
}

pub struct PlanView {
    pub root: Seq<char>,
    pub probe: Probe,
    /// The directories under removal, the requested one first.
    pub frames: Seq<FrameView>,
    pub phase: PhaseView,
}

/// The first index from `from` on whose entry names something in `dir`.
pub open spec fn next_named(dir: Seq<char>, entries: Seq<Seq<char>>, from: nat) -> Option<nat>
    decreases entries.len() - from,
{
    if from >= entries.len() {
        None
    } else if entry_name(dir, entries[from as int]) is Some {
        Some(from)
    } else {
        next_named(dir, entries, from + 1)
    }
}

pub open spec fn probe_phase(probe: Probe, path: Seq<char>) -> PhaseView {
    match probe {
        Probe::SizeThenListing => PhaseView::AwaitSize(path),
        Probe::ChangeDirectory => PhaseView::AwaitEnter(path),
    }
}

pub open spec fn probe_command(probe: Probe, path: Seq<char>) -> CommandView {
    match probe {
        Probe::SizeThenListing => CommandView::Size(path),
        Probe::ChangeDirectory => CommandView::Cwd(path),
    }
}

pub open spec fn top(p: PlanView) -> FrameView {
    p.frames.last()
}

pub open spec fn with_top(p: PlanView, f: FrameView) -> PlanView {
    PlanView { frames: p.frames.update(p.frames.len() - 1, f), ..p }
}

pub open spec fn fresh_frame(dir: Seq<char>) -> FrameView {
    FrameView { dir, saved: Seq::empty(), entries: Seq::empty(), next: 0 }
}

/// The command the plan waits on.
pub open spec fn pending(p: PlanView) -> Option<CommandView> {
    match p.phase {
        PhaseView::AwaitPwd => Some(CommandView::Pwd),
        PhaseView::AwaitListing => Some(CommandView::Nlst(top(p).dir)),
        PhaseView::AwaitSize(x) => Some(CommandView::Size(x)),
        PhaseView::AwaitProbe(x) => Some(CommandView::Nlst(x)),
        PhaseView::AwaitEnter(x) => Some(CommandView::Cwd(x)),
        PhaseView::AwaitRestore(x) => Some(CommandView::Cwd(top(p).saved)),
        PhaseView::AwaitRm(x) => Some(CommandView::Rm(x)),
        PhaseView::AwaitRmdir => Some(CommandView::Rmdir(top(p).dir)),
        PhaseView::Done(_) => None,
    }
}

/// Goes on with the next entry of the top directory that names something,
/// or removes that directory where none is left.
pub open spec fn advance(p: PlanView) -> (PlanView, StepView) {
    let t = top(p);
    match next_named(t.dir, t.entries, t.next) {
        Some(j) => {
            let path = child_path(t.dir, entry_name(t.dir, t.entries[j as int])->0);
            (
                PlanView { phase: probe_phase(p.probe, path), ..with_top(p, FrameView { next: j + 1, ..t }) },
                StepView::Run(probe_command(p.probe, path)),
            )
        },
        None => (PlanView { phase: PhaseView::AwaitRmdir, ..p }, StepView::Run(CommandView::Rmdir(t.dir))),
    }
}

pub open spec fn fail(p: PlanView) -> (PlanView, StepView) {
    (PlanView { phase: PhaseView::Done(false), ..p }, StepView::Finished(false))
}

/// The plan after the reply `r` to its pending command, and what it asks
/// for next.
pub open spec fn step_spec(p: PlanView, r: ReplyView) -> (PlanView, StepView) {
    match p.phase {
        PhaseView::Done(b) => (p, StepView::Finished(b)),
        PhaseView::AwaitPwd => match r {
            ReplyView::Directory(d) => (
                PlanView { phase: PhaseView::AwaitListing, ..with_top(p, FrameView { saved: d, ..top(p) }) },
                StepView::Run(CommandView::Nlst(top(p).dir)),
            ),
            _ => fail(p),
        },
        PhaseView::AwaitListing => match r {
            ReplyView::Listing(es) => advance(with_top(p, FrameView { entries: es, next: 0, ..top(p) })),
            _ => fail(p),
        },
        PhaseView::AwaitSize(x) => match r {
            ReplyView::Done => (PlanView { phase: PhaseView::AwaitRm(x), ..p }, StepView::Run(CommandView::Rm(x))),
            _ => (PlanView { phase: PhaseView::AwaitProbe(x), ..p }, StepView::Run(CommandView::Nlst(x))),
        },
        PhaseView::AwaitProbe(x) => match r {
            ReplyView::Listing(_) => (
                PlanView { frames: p.frames.push(fresh_frame(x)), phase: PhaseView::AwaitListing, ..p },
                StepView::Run(CommandView::Nlst(x)),
            ),
            _ => (PlanView { phase: PhaseView::AwaitRm(x), ..p }, StepView::Run(CommandView::Rm(x))),
        },
        PhaseView::AwaitEnter(x) => match r {
            ReplyView::Done => (
                PlanView { phase: PhaseView::AwaitRestore(x), ..p },
                StepView::Run(CommandView::Cwd(top(p).saved)),
            ),
            _ => (PlanView { phase: PhaseView::AwaitRm(x), ..p }, StepView::Run(CommandView::Rm(x))),
        },
        PhaseView::AwaitRestore(x) => match r {
            ReplyView::Done => (
                PlanView { frames: p.frames.push(fresh_frame(x)), phase: PhaseView::AwaitPwd, ..p },
                StepView::Run(CommandView::Pwd),
            ),
            _ => fail(p),
        },
        PhaseView::AwaitRm(x) => match r {
            ReplyView::Done => advance(p),
            _ => fail(p),
        },
        PhaseView::AwaitRmdir => match r {
            ReplyView::Done => if p.frames.len() == 1 {
                (PlanView { frames: Seq::empty(), phase: PhaseView::Done(true), ..p }, StepView::Finished(true))
            } else {
                advance(PlanView { frames: p.frames.drop_last(), ..p })
            },
            _ => fail(p),
        },
    }
}

/// The plan at its start, and its first command.
pub open spec fn start_spec(root: Seq<char>, probe: Probe) -> (PlanView, StepView) {
    let p = PlanView { root, probe, frames: seq![fresh_frame(root)], phase: PhaseView::AwaitListing };
    match probe {
        Probe::SizeThenListing => (p, StepView::Run(CommandView::Nlst(root))),
        Probe::ChangeDirectory => (PlanView { phase: PhaseView::AwaitPwd, ..p }, StepView::Run(CommandView::Pwd)),
    }
}

/// The shape every plan keeps: while it runs there is a directory under
/// removal, each with its position inside its listing.
pub open spec fn well_formed(p: PlanView) -> bool {
    &&& !(p.phase is Done) ==> p.frames.len() >= 1
    &&& forall|i: int| 0 <= i < p.frames.len() ==> #[trigger] p.frames[i].next <= p.frames[i].entries.len()
}

/// Every path the plan holds lies in the requested directory: the first
/// directory under removal is that directory, the others and the entry
/// being dealt with lie inside it.
pub open spec fn contained(p: PlanView) -> bool {
    &&& p.frames.len() >= 1 ==> p.frames[0].dir == p.root
    &&& forall|i: int| 1 <= i < p.frames.len() ==> within(p.root, #[trigger] p.frames[i].dir)
    &&& match p.phase {
        PhaseView::AwaitSize(x) => within(p.root, x),
        PhaseView::AwaitProbe(x) => within(p.root, x),
        PhaseView::AwaitEnter(x) => within(p.root, x),
        PhaseView::AwaitRestore(x) => within(p.root, x),
        PhaseView::AwaitRm(x) => within(p.root, x),
        _ => true,
    }
}


// ---------------------------------------------------------------------------
// Laws
// ---------------------------------------------------------------------------

proof fn lemma_next_named(dir: Seq<char>, entries: Seq<Seq<char>>, from: nat)
    ensures
        next_named(dir, entries, from) matches Some(j) ==> from <= j < entries.len()
            && entry_name(dir, entries[j as int]) is Some,
    decreases entries.len() - from,
{
    if from < entries.len() && entry_name(dir, entries[from as int]) is None {
        lemma_next_named(dir, entries, from + 1);
    }
}

/// The frames of `q` agree with those of `p` below `keep`; those from
/// `keep` on keep their position inside their listing and, where `p` is
/// contained, lie where the directories under removal must lie.
proof fn lemma_frames_carry(p: PlanView, q: PlanView, keep: int)
    requires
        well_formed(p),
        q.root == p.root,
        0 <= keep <= p.frames.len(),
        keep <= q.frames.len(),
        forall|i: int| 0 <= i < keep ==> q.frames[i] == p.frames[i],
        forall|i: int| keep <= i < q.frames.len() ==> #[trigger] q.frames[i].next <= q.frames[i].entries.len(),
        contained(p) ==> forall|i: int| keep <= i < q.frames.len() ==> if i == 0 {
            q.frames[i].dir == q.root
        } else {
            within(q.root, #[trigger] q.frames[i].dir)
        },
    ensures
        forall|i: int| 0 <= i < q.frames.len() ==> #[trigger] q.frames[i].next <= q.frames[i].entries.len(),
        contained(p) ==> (q.frames.len() >= 1 ==> q.frames[0].dir == q.root),
        contained(p) ==> forall|i: int| 1 <= i < q.frames.len() ==> within(q.root, #[trigger] q.frames[i].dir),
{
    assert forall|i: int| 0 <= i < q.frames.len() implies #[trigger] q.frames[i].next <= q.frames[i].entries.len() by {
        if i < keep {
            assert(q.frames[i] == p.frames[i]);
        }
    }
    if contained(p) {
        if q.frames.len() >= 1 && keep > 0 {
            assert(q.frames[0] == p.frames[0]);
        }
        assert forall|i: int| 1 <= i < q.frames.len() implies within(q.root, #[trigger] q.frames[i].dir) by {
            if i < keep {
                assert(q.frames[i] == p.frames[i]);
            }
        }
    }
}

proof fn lemma_advance_keeps(p: PlanView)
    requires
        well_formed(p),
        p.frames.len() >= 1,
        !(p.phase is Done),
    ensures
        well_formed(advance(p).0),
        contained(p) ==> contained(advance(p).0),
        advance(p).1 matches StepView::Run(c) && pending(advance(p).0) == Some(c),
        advance(p).0.root == p.root,
        advance(p).0.probe == p.probe,
{
    let t = top(p);
    let n = (p.frames.len() - 1) as int;
    lemma_next_named(t.dir, t.entries, t.next);
    if let Some(j) = next_named(t.dir, t.entries, t.next) {
        let name = entry_name(t.dir, t.entries[j as int])->0;
        lemma_entry_name_shape(t.dir, t.entries[j as int]);
        if contained(p) {
            if n == 0 {
                lemma_child_of_root_within(p.root, name);
            } else {
                assert(within(p.root, p.frames[n].dir));
                lemma_child_within(p.root, t.dir, name);
            }
        }
        lemma_frames_carry(p, advance(p).0, n);
    }
}

/// The plan at its start keeps its shape and holds only the requested
/// directory.
pub proof fn lemma_start_contained(root: Seq<char>, probe: Probe)
    ensures
        well_formed(start_spec(root, probe).0),
        contained(start_spec(root, probe).0),
        start_spec(root, probe).0.root == root,
        start_spec(root, probe).1 matches StepView::Run(c) && pending(start_spec(root, probe).0) == Some(c),
{
}

/// Every step keeps the plan's shape and keeps every path it holds inside
/// the requested directory; and the command it asks for is the one it then
/// waits on.
pub proof fn lemma_step_contained(p: PlanView, r: ReplyView)
    requires
        well_formed(p),
    ensures
        well_formed(step_spec(p, r).0),
        contained(p) ==> contained(step_spec(p, r).0),
        step_spec(p, r).0.root == p.root,
        step_spec(p, r).0.probe == p.probe,
        step_spec(p, r).1 matches StepView::Run(c) ==> pending(step_spec(p, r).0) == Some(c),
{
    let n = (p.frames.len() - 1) as int;
    let q = step_spec(p, r).0;
    match p.phase {
        PhaseView::AwaitPwd => {
            if r is Directory {
                lemma_frames_carry(p, q, n);
            }
        },
        PhaseView::AwaitListing => {
            if let ReplyView::Listing(es) = r {
                let p1 = with_top(p, FrameView { entries: es, next: 0, ..top(p) });
                lemma_frames_carry(p, p1, n);
                lemma_advance_keeps(p1);
            }
        },
        PhaseView::AwaitProbe(_) | PhaseView::AwaitRestore(_) => {
            lemma_frames_carry(p, q, n + 1);
        },
        PhaseView::AwaitRm(_) => {
            if r is Done {
                lemma_advance_keeps(p);
            }
        },
        PhaseView::AwaitRmdir => {
            if r is Done && p.frames.len() > 1 {
                let p1 = PlanView { frames: p.frames.drop_last(), ..p };
                lemma_frames_carry(p, p1, n);
                lemma_advance_keeps(p1);
            }
        },
        _ => {},
    }
}

/// Nothing outside the requested directory is ever removed: a file removed
/// lies inside it, and a directory removed is it or lies inside it; so do
/// the paths that are listed, sized or entered to tell entries apart.
pub proof fn lemma_removals_contained(p: PlanView)
    requires
        well_formed(p),
        contained(p),
    ensures
        pending(p) matches Some(CommandView::Rm(x)) ==> within(p.root, x),
        pending(p) matches Some(CommandView::Rmdir(x)) ==> x == p.root || within(p.root, x),
        pending(p) matches Some(CommandView::Nlst(x)) ==> x == p.root || within(p.root, x),
        pending(p) matches Some(CommandView::Size(x)) ==> within(p.root, x),
        p.phase matches PhaseView::AwaitEnter(x) ==> within(p.root, x),
{
    let n = p.frames.len() - 1;
    if p.frames.len() >= 1 && n >= 1 {
        assert(within(p.root, p.frames[n].dir));
    }
}

/// Success is reported exactly when the requested directory itself, the
/// last thing the plan removes, has been removed.
pub proof fn lemma_success_only_on_root_removal(p: PlanView, r: ReplyView)
    requires
        well_formed(p),
        contained(p),
        !(p.phase is Done),
    ensures
        step_spec(p, r).1 == StepView::Finished(true) <==> (
            pending(p) == Some(CommandView::Rmdir(p.root)) && p.frames.len() == 1 && r is Done),
{
}

/// A directory is removed only once every entry of its listing has been
/// dealt with: when the plan asks to remove a directory, no entry of that
/// directory's listing from its position on names anything.
pub proof fn lemma_directory_removed_last(p: PlanView, r: ReplyView)
    requires
        well_formed(p),
        contained(p),
    ensures
        step_spec(p, r).1 matches StepView::Run(CommandView::Rmdir(d)) ==> {
            let q = step_spec(p, r).0;
            &&& q.frames.len() >= 1
            &&& top(q).dir == d
            &&& next_named(d, top(q).entries, top(q).next) is None
        },
{
    lemma_step_contained(p, r);
}

/// A failed listing of a directory under removal, a failed removal, a
/// failed `Pwd`, or a failed return to the noted directory ends the plan with
/// failure; a failed probe does not.
pub proof fn lemma_failures_abort(p: PlanView, r: ReplyView)
    requires
        r is Failed,
    ensures
        match p.phase {
            PhaseView::AwaitPwd | PhaseView::AwaitListing | PhaseView::AwaitRestore(_)
            | PhaseView::AwaitRm(_) | PhaseView::AwaitRmdir => step_spec(p, r).1 == StepView::Finished(false),
            PhaseView::AwaitSize(x) => step_spec(p, r).1 == StepView::Run(CommandView::Nlst(x)),
            PhaseView::AwaitProbe(x) | PhaseView::AwaitEnter(x) => step_spec(p, r).1 == StepView::Run(CommandView::Rm(x)),
            PhaseView::Done(b) => step_spec(p, r).1 == StepView::Finished(b),
        },
{
}


// ---------------------------------------------------------------------------
// Whole runs
// ---------------------------------------------------------------------------

/// The plan after the replies `rs`, one after the other.
pub open spec fn run(p: PlanView, rs: Seq<ReplyView>) -> PlanView
    decreases rs.len(),
{
    if rs.len() == 0 {
        p
    } else {
        run(step_spec(p, rs[0]).0, rs.drop_first())
    }
}

/// What the plan asks for after each of the replies `rs`.
pub open spec fn trace(p: PlanView, rs: Seq<ReplyView>) -> Seq<StepView>
    decreases rs.len(),
{
    if rs.len() == 0 {
        Seq::empty()
    } else {
        seq![step_spec(p, rs[0]).1] + trace(step_spec(p, rs[0]).0, rs.drop_first())
    }
}

/// The plan when the `i`th reply comes in.
pub open spec fn state_at(p: PlanView, rs: Seq<ReplyView>, i: int) -> PlanView {
    run(p, rs.take(i))
}

proof fn lemma_run_index(p: PlanView, rs: Seq<ReplyView>, i: int)
    requires
        0 <= i < rs.len(),
    ensures
        trace(p, rs).len() == rs.len(),
        trace(p, rs)[i] == step_spec(state_at(p, rs, i), rs[i]).1,
        state_at(p, rs, i + 1) == step_spec(state_at(p, rs, i), rs[i]).0,
    decreases i,
{
    let q = step_spec(p, rs[0]).0;
    let rest = rs.drop_first();
    lemma_trace_len(q, rest);
    if i == 0 {
        assert(rs.take(0) =~= Seq::<ReplyView>::empty());
        assert(rs.take(1).drop_first() =~= Seq::<ReplyView>::empty());
        assert(rs.take(1)[0] == rs[0]);
        assert(run(q, Seq::<ReplyView>::empty()) == q);
        assert(state_at(p, rs, 1) == run(q, rs.take(1).drop_first()));
    } else {
        lemma_run_index(q, rest, i - 1);
        assert(rs.take(i).drop_first() =~= rest.take(i - 1));
        assert(rs.take(i + 1).drop_first() =~= rest.take(i));
        assert(rs.take(i)[0] == rs[0]);
        assert(rs.take(i + 1)[0] == rs[0]);
        assert(rest[i - 1] == rs[i]);
        assert(state_at(p, rs, i) == run(q, rs.take(i).drop_first()));
        assert(state_at(p, rs, i + 1) == run(q, rs.take(i + 1).drop_first()));
    }
}

proof fn lemma_trace_len(p: PlanView, rs: Seq<ReplyView>)
    ensures
        trace(p, rs).len() == rs.len(),
    decreases rs.len(),
{
    if rs.len() > 0 {
        lemma_trace_len(step_spec(p, rs[0]).0, rs.drop_first());
    }
}

/// The plans of a run keep their shape and hold only paths inside the
/// requested directory.
proof fn lemma_run_keeps(p: PlanView, rs: Seq<ReplyView>, i: int)
    requires
        well_formed(p),
        contained(p),
        0 <= i <= rs.len(),
    ensures
        well_formed(state_at(p, rs, i)),
        contained(state_at(p, rs, i)),
        state_at(p, rs, i).root == p.root,
        state_at(p, rs, i).probe == p.probe,
    decreases i,
{
    if i == 0 {
        assert(rs.take(0) =~= Seq::<ReplyView>::empty());
    } else {
        lemma_run_keeps(p, rs, i - 1);
        lemma_run_index(p, rs, i - 1);
        lemma_step_contained(state_at(p, rs, i - 1), rs[i - 1]);
    }
}

/// Over a whole run, whatever the server answers, no file outside the
/// requested directory is removed and no directory but it and those inside
/// it.
pub proof fn lemma_run_removals_contained(p: PlanView, rs: Seq<ReplyView>)
    requires
        well_formed(p),
        contained(p),
    ensures
        trace(p, rs).len() == rs.len(),
        forall|i: int| 0 <= i < rs.len() ==> (#[trigger] trace(p, rs)[i] matches StepView::Run(CommandView::Rm(x)) ==> within(p.root, x)),
        forall|i: int| 0 <= i < rs.len() ==> (#[trigger] trace(p, rs)[i] matches StepView::Run(CommandView::Rmdir(x))
            ==> x == p.root || within(p.root, x)),
{
    lemma_trace_len(p, rs);
    assert forall|i: int| 0 <= i < rs.len() implies {
        &&& (#[trigger] trace(p, rs)[i] matches StepView::Run(CommandView::Rm(x)) ==> within(p.root, x))
        &&& (trace(p, rs)[i] matches StepView::Run(CommandView::Rmdir(x)) ==> x == p.root || within(p.root, x))
    } by {
        lemma_run_keeps(p, rs, i);
        lemma_run_index(p, rs, i);
        lemma_run_keeps(p, rs, i + 1);
        lemma_step_contained(state_at(p, rs, i), rs[i]);
        lemma_removals_contained(state_at(p, rs, i + 1));
    }
}

/// A plan that tells entries apart by size never moves the working
/// directory: it waits on no `Pwd` and no change of directory.
pub open spec fn stays_put(p: PlanView) -> bool {
    p.probe == Probe::SizeThenListing ==> !(p.phase is AwaitPwd) && !(p.phase is AwaitEnter) && !(p.phase is AwaitRestore)
}

/// Over a whole run, a plan that tells entries apart by size sends neither
/// `Pwd` nor a change of directory.
pub proof fn lemma_size_probe_stays_put(p: PlanView, rs: Seq<ReplyView>)
    requires
        well_formed(p),
        stays_put(p),
        p.probe == Probe::SizeThenListing,
    ensures
        trace(p, rs).len() == rs.len(),
        forall|i: int| 0 <= i < rs.len() ==> !(#[trigger] trace(p, rs)[i] matches StepView::Run(CommandView::Pwd))
            && !(trace(p, rs)[i] matches StepView::Run(CommandView::Cwd(_))),
    decreases rs.len(),
{
    lemma_trace_len(p, rs);
    if rs.len() > 0 {
        let q = step_spec(p, rs[0]).0;
        lemma_step_contained(p, rs[0]);
        lemma_size_probe_stays_put(q, rs.drop_first());
        assert forall|i: int| 0 <= i < rs.len() implies !(#[trigger] trace(p, rs)[i] matches StepView::Run(CommandView::Pwd))
            && !(trace(p, rs)[i] matches StepView::Run(CommandView::Cwd(_))) by {
            if i > 0 {
                assert(trace(p, rs)[i] == trace(q, rs.drop_first())[i - 1]);
            }
        }
    }
}

/// The start of a plan that tells entries apart by size stays put.
pub proof fn lemma_size_probe_start(root: Seq<char>)
    ensures
        stays_put(start_spec(root, Probe::SizeThenListing).0),
        start_spec(root, Probe::SizeThenListing).1 == StepView::Run(CommandView::Nlst(root)),
{
}

/// Over a whole run, a directory is removed only once every entry of its
/// listing from the directory's position on has been dealt with.
pub proof fn lemma_run_directories_removed_last(p: PlanView, rs: Seq<ReplyView>)
    requires
        well_formed(p),
        contained(p),
    ensures
        trace(p, rs).len() == rs.len(),
        forall|i: int| 0 <= i < rs.len() ==> (#[trigger] trace(p, rs)[i] matches StepView::Run(CommandView::Rmdir(d)) ==> {
            let q = state_at(p, rs, i + 1);
            &&& q.frames.len() >= 1
            &&& top(q).dir == d
            &&& next_named(d, top(q).entries, top(q).next) is None
        }),
{
    lemma_trace_len(p, rs);
    assert forall|i: int| 0 <= i < rs.len() implies (#[trigger] trace(p, rs)[i] matches StepView::Run(CommandView::Rmdir(d)) ==> {
        let q = state_at(p, rs, i + 1);
        &&& q.frames.len() >= 1
        &&& top(q).dir == d
        &&& next_named(d, top(q).entries, top(q).next) is None
    }) by {
        lemma_run_keeps(p, rs, i);
        lemma_run_index(p, rs, i);
        lemma_directory_removed_last(state_at(p, rs, i), rs[i]);
    }
}

/// Over a whole run of a running plan, the first end it reports is a
/// success only where the reply was the one to removing the requested
/// directory itself, with no other directory under removal.
pub proof fn lemma_run_success(p: PlanView, rs: Seq<ReplyView>, i: int)
    requires
        well_formed(p),
        contained(p),
        !(p.phase is Done),
        0 <= i < rs.len(),
        forall|k: int| 0 <= k < i ==> #[trigger] trace(p, rs)[k] is Run,
        trace(p, rs)[i] == StepView::Finished(true),
    ensures
        pending(state_at(p, rs, i)) == Some(CommandView::Rmdir(p.root)),
        state_at(p, rs, i).frames.len() == 1,
        rs[i] is Done,
{
    lemma_run_keeps(p, rs, i);
    lemma_run_index(p, rs, i);
    if i > 0 {
        lemma_run_index(p, rs, i - 1);
        lemma_run_keeps(p, rs, i - 1);
        lemma_step_contained(state_at(p, rs, i - 1), rs[i - 1]);
        assert(trace(p, rs)[i - 1] is Run);
    } else {
        assert(rs.take(0) =~= Seq::<ReplyView>::empty());
    }
    lemma_success_only_on_root_removal(state_at(p, rs, i), rs[i]);
}

/// Over a whole run of a plan that enters entries to tell them apart, the
/// directory noted on entering a directory is the server's answer to `Pwd`,
/// and once an entry has been entered the next command changes back to the
/// noted directory.
pub proof fn lemma_run_directory_restored(p: PlanView, rs: Seq<ReplyView>, i: int)
    requires
        0 <= i < rs.len(),
        well_formed(p),
        !(state_at(p, rs, i).phase is Done) ==> state_at(p, rs, i).frames.len() >= 1,
    ensures
        ({
            let s = state_at(p, rs, i);
            let q = state_at(p, rs, i + 1);
            &&& (s.phase is AwaitPwd && rs[i] is Directory) ==> (top(q).saved == rs[i]->Directory_0
                && trace(p, rs)[i] == StepView::Run(CommandView::Nlst(top(s).dir)))
            &&& (s.phase is AwaitEnter && rs[i] is Done) ==> (trace(p, rs)[i] == StepView::Run(CommandView::Cwd(top(s).saved))
                && q.phase == PhaseView::AwaitRestore(s.phase->AwaitEnter_0))
            &&& (s.phase is AwaitRestore && rs[i] is Done) ==> (trace(p, rs)[i] == StepView::Run(CommandView::Pwd)
                && top(q).dir == s.phase->AwaitRestore_0)
        }),
{
    lemma_run_index(p, rs, i);
}

/// A path that answers `Size` is a file, and is removed at once; one that
/// does not is listed to see whether it is a directory.
pub proof fn lemma_size_decides(p: PlanView, x: Seq<char>, r: ReplyView)
    requires
        p.phase == PhaseView::AwaitSize(x),
    ensures
        r is Done ==> step_spec(p, r).1 == StepView::Run(CommandView::Rm(x)),
        !(r is Done) ==> step_spec(p, r).1 == StepView::Run(CommandView::Nlst(x)),
{
}

/// Over a whole run, whatever the server answers, a path whose `Size`
/// succeeded is removed by the very next command with `Rm`, and one whose
/// `Size` failed is listed next.
pub proof fn lemma_run_sized_file_removed(p: PlanView, rs: Seq<ReplyView>, i: int)
    requires
        well_formed(p),
        contained(p),
        0 <= i,
        i + 1 < rs.len(),
        trace(p, rs)[i] is Run,
        trace(p, rs)[i]->Run_0 is Size,
    ensures
        ({
            let x = trace(p, rs)[i]->Run_0->Size_0;
            &&& rs[i + 1] is Done ==> trace(p, rs)[i + 1] == StepView::Run(CommandView::Rm(x))
            &&& !(rs[i + 1] is Done) ==> trace(p, rs)[i + 1] == StepView::Run(CommandView::Nlst(x))
        }),
{
    lemma_run_keeps(p, rs, i);
    lemma_run_index(p, rs, i);
    lemma_run_index(p, rs, i + 1);
    lemma_step_contained(state_at(p, rs, i), rs[i]);
    let x = trace(p, rs)[i]->Run_0->Size_0;
    let q = state_at(p, rs, i + 1);
    assert(pending(q) == Some(CommandView::Size(x)));
    assert(q.phase == PhaseView::AwaitSize(x));
    lemma_size_decides(q, x, rs[i + 1]);
}

/// Whether the plan asked, before the `k`th reply, to tell `path` apart as
/// a file or a directory.
pub open spec fn probe_sent(p: PlanView, rs: Seq<ReplyView>, k: int, path: Seq<char>) -> bool {
    exists|u: int| 0 <= u < k && #[trigger] trace(p, rs)[u] == StepView::Run(probe_command(p.probe, path))
}

/// Every entry of the frame's listing before its position that names
/// something has been probed before the `k`th reply.
pub open spec fn entries_probed(p: PlanView, rs: Seq<ReplyView>, k: int, f: FrameView) -> bool {
    forall|j: int| 0 <= j < f.next && (#[trigger] entry_name(f.dir, f.entries[j])) is Some
        ==> probe_sent(p, rs, k, child_path(f.dir, entry_name(f.dir, f.entries[j])->0))
}

spec fn history(p: PlanView, rs: Seq<ReplyView>, k: int) -> bool {
    forall|i: int| 0 <= i < state_at(p, rs, k).frames.len()
        ==> entries_probed(p, rs, k, #[trigger] state_at(p, rs, k).frames[i])
}

proof fn lemma_next_named_skips(dir: Seq<char>, entries: Seq<Seq<char>>, from: nat)
    ensures
        next_named(dir, entries, from) matches Some(j) ==> forall|k: int| from <= k < j ==> (#[trigger] entry_name(dir, entries[k])) is None,
        next_named(dir, entries, from) is None ==> forall|k: int| from <= k < entries.len() ==> (#[trigger] entry_name(dir, entries[k])) is None,
    decreases entries.len() - from,
{
    if from < entries.len() && entry_name(dir, entries[from as int]) is None {
        lemma_next_named_skips(dir, entries, from + 1);
    }
}

proof fn lemma_probe_sent_later(p: PlanView, rs: Seq<ReplyView>, k: int, path: Seq<char>)
    requires
        probe_sent(p, rs, k, path),
    ensures
        probe_sent(p, rs, k + 1, path),
{
    let u = choose|u: int| 0 <= u < k && #[trigger] trace(p, rs)[u] == StepView::Run(probe_command(p.probe, path));
    assert(trace(p, rs)[u] == StepView::Run(probe_command(p.probe, path)));
}

proof fn lemma_entries_probed_later(p: PlanView, rs: Seq<ReplyView>, k: int, f: FrameView, g: FrameView)
    requires
        entries_probed(p, rs, k, f),
        g.dir == f.dir,
        g.entries == f.entries,
        g.next == f.next,
    ensures
        entries_probed(p, rs, k + 1, g),
{
    assert forall|j: int| 0 <= j < g.next && (#[trigger] entry_name(g.dir, g.entries[j])) is Some
        implies probe_sent(p, rs, k + 1, child_path(g.dir, entry_name(g.dir, g.entries[j])->0)) by {
        assert(entry_name(f.dir, f.entries[j]) is Some);
        lemma_probe_sent_later(p, rs, k, child_path(f.dir, entry_name(f.dir, f.entries[j])->0));
    }
}

/// Frames that are kept or start afresh keep the entries they have probed.
proof fn lemma_frames_probed(p: PlanView, rs: Seq<ReplyView>, k: int, s: PlanView, q: PlanView)
    requires
        forall|i: int| 0 <= i < s.frames.len() ==> entries_probed(p, rs, k, #[trigger] s.frames[i]),
        forall|i: int| 0 <= i < q.frames.len() ==> (#[trigger] q.frames[i]).next == 0 || (i < s.frames.len()
            && q.frames[i].dir == s.frames[i].dir && q.frames[i].entries == s.frames[i].entries
            && q.frames[i].next == s.frames[i].next),
    ensures
        forall|i: int| 0 <= i < q.frames.len() ==> entries_probed(p, rs, k + 1, #[trigger] q.frames[i]),
{
    assert forall|i: int| 0 <= i < q.frames.len() implies entries_probed(p, rs, k + 1, #[trigger] q.frames[i]) by {
        if q.frames[i].next != 0 {
            lemma_entries_probed_later(p, rs, k, s.frames[i], q.frames[i]);
        }
    }
}

/// Going on to the next entry probes it, so every entry passed over that
/// names something has been probed.
proof fn lemma_advance_probed(p: PlanView, rs: Seq<ReplyView>, k: int, p1: PlanView)
    requires
        well_formed(p1),
        p1.frames.len() >= 1,
        p1.probe == p.probe,
        0 <= k < trace(p, rs).len(),
        trace(p, rs)[k] == advance(p1).1,
        forall|i: int| 0 <= i < p1.frames.len() ==> entries_probed(p, rs, k, #[trigger] p1.frames[i]),
    ensures
        forall|i: int| 0 <= i < advance(p1).0.frames.len() ==> entries_probed(p, rs, k + 1, #[trigger] advance(p1).0.frames[i]),
{
    let t = top(p1);
    let n = p1.frames.len() - 1;
    let q = advance(p1).0;
    lemma_next_named(t.dir, t.entries, t.next);
    lemma_next_named_skips(t.dir, t.entries, t.next);
    match next_named(t.dir, t.entries, t.next) {
        Some(j) => {
            assert forall|i: int| 0 <= i < q.frames.len() implies entries_probed(p, rs, k + 1, #[trigger] q.frames[i]) by {
                if i < n {
                    lemma_entries_probed_later(p, rs, k, p1.frames[i], q.frames[i]);
                } else {
                    let g = q.frames[i];
                    assert(g.dir == t.dir && g.entries == t.entries && g.next == j + 1);
                    assert forall|m: int| 0 <= m < g.next && (#[trigger] entry_name(g.dir, g.entries[m])) is Some
                        implies probe_sent(p, rs, k + 1, child_path(g.dir, entry_name(g.dir, g.entries[m])->0)) by {
                        if m < t.next {
                            assert(entry_name(t.dir, t.entries[m]) is Some);
                            lemma_probe_sent_later(p, rs, k, child_path(t.dir, entry_name(t.dir, t.entries[m])->0));
                        } else if m < j {
                            assert(entry_name(t.dir, t.entries[m]) is None);
                        } else {
                            assert(trace(p, rs)[k] == StepView::Run(probe_command(p.probe, child_path(g.dir, entry_name(g.dir, g.entries[m])->0))));
                        }
                    }
                }
            }
        },
        None => {
            lemma_frames_probed(p, rs, k, p1, q);
        },
    }
}

/// Each step keeps the record of probed entries.
proof fn lemma_step_probed(p: PlanView, rs: Seq<ReplyView>, k: int)
    requires
        0 <= k < rs.len(),
        well_formed(state_at(p, rs, k)),
        state_at(p, rs, k).probe == p.probe,
        history(p, rs, k),
    ensures
        history(p, rs, k + 1),
{
    let s = state_at(p, rs, k);
    let r = rs[k];
    let n = s.frames.len() - 1;
    lemma_run_index(p, rs, k);
    let q = state_at(p, rs, k + 1);
    assert(q == step_spec(s, r).0);
    assert(trace(p, rs)[k] == step_spec(s, r).1);
    assert(forall|i: int| 0 <= i < s.frames.len() ==> entries_probed(p, rs, k, #[trigger] s.frames[i]));
    match s.phase {
        PhaseView::AwaitListing => {
            if let ReplyView::Listing(es) = r {
                let p1 = with_top(s, FrameView { entries: es, next: 0, ..top(s) });
                assert forall|i: int| 0 <= i < p1.frames.len() implies entries_probed(p, rs, k, #[trigger] p1.frames[i]) by {
                    if i < n {
                        assert(p1.frames[i] == s.frames[i]);
                    }
                }
                lemma_advance_probed(p, rs, k, p1);
            } else {
                lemma_frames_probed(p, rs, k, s, q);
            }
        },
        PhaseView::AwaitRm(_) => {
            if r is Done {
                lemma_advance_probed(p, rs, k, s);
            } else {
                lemma_frames_probed(p, rs, k, s, q);
            }
        },
        PhaseView::AwaitRmdir => {
            if r is Done && s.frames.len() > 1 {
                let p1 = PlanView { frames: s.frames.drop_last(), ..s };
                assert forall|i: int| 0 <= i < p1.frames.len() implies entries_probed(p, rs, k, #[trigger] p1.frames[i]) by {
                    assert(p1.frames[i] == s.frames[i]);
                }
                lemma_advance_probed(p, rs, k, p1);
            } else {
                lemma_frames_probed(p, rs, k, s, q);
            }
        },
        _ => {
            lemma_frames_probed(p, rs, k, s, q);
        },
    }
}

spec fn frames_fresh(p: PlanView) -> bool {
    forall|i: int| 0 <= i < p.frames.len() ==> (#[trigger] p.frames[i]).next == 0
}

proof fn lemma_run_history(p: PlanView, rs: Seq<ReplyView>, k: int)
    requires
        well_formed(p),
        contained(p),
        frames_fresh(p),
        0 <= k <= rs.len(),
    ensures
        history(p, rs, k),
    decreases k,
{
    if k == 0 {
        assert(rs.take(0) =~= Seq::<ReplyView>::empty());
        assert(state_at(p, rs, 0) == p);
    } else {
        lemma_run_history(p, rs, k - 1);
        lemma_run_keeps(p, rs, k - 1);
        lemma_step_probed(p, rs, k - 1);
    }
}

/// Over a whole run from the start, nothing listed is passed over: when the
/// plan asks to remove a directory, every entry of the listing the server
/// gave for it that names something in it was sized or entered before.
pub proof fn lemma_run_removes_every_entry(root: Seq<char>, probe: Probe, rs: Seq<ReplyView>, t: int)
    requires
        0 <= t < rs.len(),
        trace(start_spec(root, probe).0, rs)[t] is Run,
        trace(start_spec(root, probe).0, rs)[t]->Run_0 is Rmdir,
    ensures
        ({
            let p = start_spec(root, probe).0;
            let d = trace(p, rs)[t]->Run_0->Rmdir_0;
            let q = state_at(p, rs, t + 1);
            &&& q.frames.len() >= 1
            &&& top(q).dir == d
            &&& forall|j: int| 0 <= j < top(q).entries.len() && (#[trigger] entry_name(d, top(q).entries[j])) is Some
                ==> exists|u: int| 0 <= u < t && #[trigger] trace(p, rs)[u]
                    == StepView::Run(probe_command(probe, child_path(d, entry_name(d, top(q).entries[j])->0)))
        }),
{
    let p = start_spec(root, probe).0;
    lemma_start_contained(root, probe);
    assert(frames_fresh(p));
    lemma_run_directories_removed_last(p, rs);
    let d = trace(p, rs)[t]->Run_0->Rmdir_0;
    let q = state_at(p, rs, t + 1);
    lemma_run_history(p, rs, t + 1);
    let f = top(q);
    assert(entries_probed(p, rs, t + 1, q.frames[q.frames.len() - 1]));
    lemma_run_keeps(p, rs, t + 1);
    lemma_next_named_skips(d, f.entries, f.next);
    assert forall|j: int| 0 <= j < f.entries.len() && (#[trigger] entry_name(d, f.entries[j])) is Some
        implies exists|u: int| 0 <= u < t && #[trigger] trace(p, rs)[u]
            == StepView::Run(probe_command(probe, child_path(d, entry_name(d, f.entries[j])->0))) by {
        if j >= f.next {
            assert(entry_name(d, f.entries[j]) is None);
        }
        assert(probe_sent(p, rs, t + 1, child_path(d, entry_name(d, f.entries[j])->0)));
        let u = choose|u: int| 0 <= u < t + 1 && #[trigger] trace(p, rs)[u]
            == StepView::Run(probe_command(probe, child_path(d, entry_name(d, f.entries[j])->0)));
        assert(u != t);
    }
}

// ---------------------------------------------------------------------------
// The executable plan
// ---------------------------------------------------------------------------

struct Frame {
    dir: String,
    saved: String,
    entries: Vec<String>,
    next: usize,
}

enum Phase {
    AwaitPwd,
    AwaitListing,
    AwaitSize(String),
    AwaitProbe(String),
    AwaitEnter(String),
    AwaitRestore(String),
    AwaitRm(String),
    AwaitRmdir,
    Done(bool),
}

spec fn frame_view(f: Frame) -> FrameView {
    FrameView { dir: f.dir@, saved: f.saved@, entries: string_views(f.entries@), next: f.next as nat }
}

spec fn frames_view(fs: Seq<Frame>) -> Seq<FrameView> {
    fs.map_values(|f: Frame| frame_view(f))
}

proof fn lemma_frames_view_push(fs: Seq<Frame>, f: Frame)
    ensures
        frames_view(fs.push(f)) == frames_view(fs).push(frame_view(f)),
{
    assert(frames_view(fs.push(f)) =~= frames_view(fs).push(frame_view(f)));
}

spec fn phase_view(ph: Phase) -> PhaseView {
    match ph {
        Phase::AwaitPwd => PhaseView::AwaitPwd,
        Phase::AwaitListing => PhaseView::AwaitListing,
        Phase::AwaitSize(x) => PhaseView::AwaitSize(x@),
        Phase::AwaitProbe(x) => PhaseView::AwaitProbe(x@),
        Phase::AwaitEnter(x) => PhaseView::AwaitEnter(x@),
        Phase::AwaitRestore(x) => PhaseView::AwaitRestore(x@),
        Phase::AwaitRm(x) => PhaseView::AwaitRm(x@),
        Phase::AwaitRmdir => PhaseView::AwaitRmdir,
        Phase::Done(b) => PhaseView::Done(b),
    }
}

/// The removal of one remote directory with everything in it.
pub struct DeletePlan {
    root: String,
    probe: Probe,
    frames: Vec<Frame>,
    phase: Phase,
}

impl View for DeletePlan {
    type V = PlanView;

    closed spec fn view(&self) -> PlanView {
        PlanView {
            root: self.root@,
            probe: self.probe,
            frames: frames_view(self.frames@),
            phase: phase_view(self.phase),
        }
    }
}

impl DeletePlan {
    /// Starts the removal of `root`; the step returned is its first command.
    pub fn start(root: &str, probe: Probe) -> (r: (DeletePlan, Step))
        ensures
            (r.0@, r.1@) == start_spec(root@, probe),
            well_formed(r.0@),
            contained(r.0@),
    {
        proof {
            lemma_start_contained(root@, probe);
        }
        let frame = Frame { dir: String::from_str(root), saved: String::new(), entries: Vec::new(), next: 0 };
        let mut frames: Vec<Frame> = Vec::new();
        frames.push(frame);
        let ghost fv = frames_view(frames@);
        assert(fv =~= seq![fresh_frame(root@)]) by {
            assert(fv[0] == frame_view(frames@[0]));
            assert(frame_view(frames@[0]).entries =~= Seq::<Seq<char>>::empty());
            assert(frame_view(frames@[0]).saved =~= Seq::<char>::empty());
        }
        match probe {
            Probe::SizeThenListing => {
                let plan = DeletePlan { root: String::from_str(root), probe, frames, phase: Phase::AwaitListing };
                (plan, Step::Run(FtpCommand::Nlst(String::from_str(root))))
            },
            Probe::ChangeDirectory => {
                let plan = DeletePlan { root: String::from_str(root), probe, frames, phase: Phase::AwaitPwd };
                (plan, Step::Run(FtpCommand::Pwd))
            },
        }
    }

    /// Whether the plan is over.
    pub fn is_finished(&self) -> (r: bool)
        ensures
            r == (self@.phase is Done),
    {
        match self.phase {
            Phase::Done(_) => true,
            _ => false,
        }
    }

    fn probe_step(&mut self, path: String) -> (s: Step)
        ensures
            final(self)@ == (PlanView { phase: probe_phase(old(self)@.probe, path@), ..old(self)@ }),
            s@ == StepView::Run(probe_command(old(self)@.probe, path@)),
    {
        match self.probe {
            Probe::SizeThenListing => {
                self.phase = Phase::AwaitSize(path.clone());
                Step::Run(FtpCommand::Size(path))
            },
            Probe::ChangeDirectory => {
                self.phase = Phase::AwaitEnter(path.clone());
                Step::Run(FtpCommand::Cwd(path))
            },
        }
    }

    fn advance(&mut self) -> (s: Step)
        requires
            old(self)@.frames.len() >= 1,
            well_formed(old(self)@),
        ensures
            (final(self)@, s@) == advance(old(self)@),
    {
        let ghost p = self@;
        let ghost n: int = self.frames.len() - 1;
        let t = self.frames.pop().unwrap();
        proof {
            assert(frames_view(self.frames@) =~= p.frames.drop_last());
            assert(frame_view(t) == top(p));
            assert(p.frames[n].next <= p.frames[n].entries.len());
        }
        let mut j: usize = t.next;
        let mut found: Option<String> = None;
        while j < t.entries.len() && found.is_none()
            invariant
                n == p.frames.len() - 1,
                p.frames.len() >= 1,
                frame_view(t) == top(p),
                t.next <= j <= t.entries.len(),
                found is None ==> next_named(top(p).dir, top(p).entries, t.next as nat)
                    == next_named(top(p).dir, top(p).entries, j as nat),
                found matches Some(name) ==> {
                    &&& j < t.entries.len()
                    &&& next_named(top(p).dir, top(p).entries, t.next as nat) == Some(j as nat)
                    &&& entry_name(top(p).dir, top(p).entries[j as int]) == Some(name@)
                },
            decreases t.entries.len() - j + (if found is None { 1int } else { 0int }),
        {
            assert(top(p).entries[j as int] == t.entries@[j as int]@);
            match listed_entry_name(t.dir.as_str(), t.entries[j].as_str()) {
                Some(name) => {
                    found = Some(name);
                },
                None => {
                    j = j + 1;
                },
            }
        }
        match found {
            Some(name) => {
                let path = entry_path(t.dir.as_str(), name.as_str());
                let t2 = Frame { dir: t.dir, saved: t.saved, entries: t.entries, next: j + 1 };
                let ghost before = self.frames@;
                self.frames.push(t2);
                proof {
                    lemma_frames_view_push(before, t2);
                    assert(p.frames.update(n, FrameView { next: (j + 1) as nat, ..top(p) })
                        =~= p.frames.drop_last().push(FrameView { next: (j + 1) as nat, ..top(p) }));
                }
                self.probe_step(path)
            },
            None => {
                let d = t.dir.clone();
                let ghost before = self.frames@;
                self.frames.push(t);
                proof {
                    lemma_frames_view_push(before, t);
                    assert(p.frames.drop_last().push(top(p)) =~= p.frames);
                }
                self.phase = Phase::AwaitRmdir;
                Step::Run(FtpCommand::Rmdir(d))
            },
        }
    }

    fn fail(&mut self) -> (s: Step)
        ensures
            (final(self)@, s@) == fail(old(self)@),
    {
        self.phase = Phase::Done(false);
        Step::Finished(false)
    }

    /// Hands the plan the reply to its pending command; it answers with its
    /// next command, or with its end.
    pub fn step(&mut self, reply: FtpReply) -> (s: Step)
        requires
            well_formed(old(self)@),
        ensures
            (final(self)@, s@) == step_spec(old(self)@, reply@),
            well_formed(final(self)@),
            contained(old(self)@) ==> contained(final(self)@),
    {
        let ghost p = self@;
        proof {
            lemma_step_contained(p, reply@);
        }
        let s = match &self.phase {
            Phase::Done(b) => Step::Finished(*b),
            Phase::AwaitPwd => match reply {
                FtpReply::Directory(d) => {
                    let ghost n = self.frames.len() - 1;
                    let mut t = self.frames.pop().unwrap();
                    proof {
                        assert(frame_view(t) == top(p));
                    }
                    t.saved = d;
                    let dir = t.dir.clone();
                    self.frames.push(t);
                    proof {
                        assert(frames_view(self.frames@) =~= p.frames.update(n, FrameView { saved: d@, ..top(p) }));
                    }
                    self.phase = Phase::AwaitListing;
                    Step::Run(FtpCommand::Nlst(dir))
                },
                _ => self.fail(),
            },
            Phase::AwaitListing => match reply {
                FtpReply::Listing(es) => {
                    let ghost n = self.frames.len() - 1;
                    let mut t = self.frames.pop().unwrap();
                    proof {
                        assert(frame_view(t) == top(p));
                    }
                    t.entries = es;
                    t.next = 0;
                    self.frames.push(t);
                    proof {
                        assert(frames_view(self.frames@) =~= p.frames.update(n, FrameView { entries: string_views(es@), next: 0, ..top(p) }));
                    }
                    self.advance()
                },
                _ => self.fail(),
            },
            Phase::AwaitSize(x) => {
                let x = x.clone();
                match reply {
                    FtpReply::Done => {
                        self.phase = Phase::AwaitRm(x.clone());
                        Step::Run(FtpCommand::Rm(x))
                    },
                    _ => {
                        self.phase = Phase::AwaitProbe(x.clone());
                        Step::Run(FtpCommand::Nlst(x))
                    },
                }
            },
            Phase::AwaitProbe(x) => {
                let x = x.clone();
                match reply {
                    FtpReply::Listing(_) => {
                        let frame = Frame { dir: x.clone(), saved: String::new(), entries: Vec::new(), next: 0 };
                        self.frames.push(frame);
                        proof {
                            assert(frame_view(frame).entries =~= Seq::<Seq<char>>::empty());
                            assert(frames_view(self.frames@) =~= p.frames.push(fresh_frame(x@)));
                        }
                        self.phase = Phase::AwaitListing;
                        Step::Run(FtpCommand::Nlst(x))
                    },
                    _ => {
                        self.phase = Phase::AwaitRm(x.clone());
                        Step::Run(FtpCommand::Rm(x))
                    },
                }
            },
            Phase::AwaitEnter(x) => {
                let x = x.clone();
                match reply {
                    FtpReply::Done => {
                        let n = self.frames.len() - 1;
                        let saved = self.frames[n].saved.clone();
                        proof {
                            assert(frame_view(self.frames@[n as int]) == top(p));
                        }
                        self.phase = Phase::AwaitRestore(x);
                        Step::Run(FtpCommand::Cwd(saved))
                    },
                    _ => {
                        self.phase = Phase::AwaitRm(x.clone());
                        Step::Run(FtpCommand::Rm(x))
                    },
                }
            },
            Phase::AwaitRestore(x) => {
                let x = x.clone();
                match reply {
                    FtpReply::Done => {
                        let frame = Frame { dir: x, saved: String::new(), entries: Vec::new(), next: 0 };
                        self.frames.push(frame);
                        proof {
                            assert(frame_view(frame).entries =~= Seq::<Seq<char>>::empty());
                            assert(frames_view(self.frames@) =~= p.frames.push(fresh_frame(x@)));
                        }
                        self.phase = Phase::AwaitPwd;
                        Step::Run(FtpCommand::Pwd)
                    },
                    _ => self.fail(),
                }
            },
            Phase::AwaitRm(_) => match reply {
                FtpReply::Done => self.advance(),
                _ => self.fail(),
            },
            Phase::AwaitRmdir => match reply {
                FtpReply::Done => {
                    if self.frames.len() == 1 {
                        self.frames = Vec::new();
                        proof {
                            assert(frames_view(self.frames@) =~= Seq::<FrameView>::empty());
                        }
                        self.phase = Phase::Done(true);
                        Step::Finished(true)
                    } else {
                        let _ = self.frames.pop();
                        proof {
                            assert(frames_view(self.frames@) =~= p.frames.drop_last());
                        }
                        self.advance()
                    }
                },
                _ => self.fail(),
            },
        };
        s
    }
}

} // verus!
