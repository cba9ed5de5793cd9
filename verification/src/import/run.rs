//! The course of importing one post: which step follows from what the last
//! step found. The application performs each step (the lookup, reading the
//! files, a write) and reports how it went; the decisions are made here.
use vstd::prelude::*;

verus! {

/// Where the import of one post stands.
#[derive(Clone, Copy, Debug, PartialEq, Eq, Structural)]
pub enum ImportPhase {
    /// Looking up whether a post has the slug already.
    Lookup,
    /// Reading and preparing the post's files.
    Prepare,
    /// Creating the post; `writes` writes (its assets, then its translations)
    /// follow.
    Create { writes: usize },
    /// Performing write `done` of `total`.
    Write { done: usize, total: usize },
    /// Finished.
    Done,
}

/// What the application found when it performed the last step.
#[derive(Clone, Copy, Debug, PartialEq, Eq, Structural)]
pub enum ImportEvent {
    /// The lookup ran; `exists` says whether a post has the slug.
    LookedUp { exists: bool },
    /// The files were read and prepared, and call for `writes` writes.
    Prepared { writes: usize },
    /// The post was created, or the last write went through.
    Succeeded,
    /// The last step failed.
    Failed,
}

/// What the application does next.
#[derive(Clone, Copy, Debug, PartialEq, Eq, Structural)]
pub enum ImportAction {
    /// Read and prepare the post's files.
    Prepare,
    /// Report the post as already present.
    Skip,
    /// Report what the post would become.
    ReportDryRun,
    /// Create the post.
    CreatePost,
    /// Perform write `i`: the assets first, then the translations.
    Write(usize),
    /// Delete the post that was created, then report the failure.
    RollBack,
    /// Report the failure; nothing was written.
    Fail,
    /// Every write went through: settle publication and report the post.
    Finish,
}

/// Whether an action writes to the store.
pub open spec fn writes_to_store(action: ImportAction) -> bool {
    action is CreatePost || action is Write || action is RollBack
}

/// Whether a run in `phase` can hold: a dry run never gets past preparing,
/// and a write in progress is one of those planned.
pub open spec fn import_state_wf(dry_run: bool, phase: ImportPhase) -> bool {
    &&& dry_run ==> (phase is Lookup || phase is Prepare || phase is Done)
    &&& phase matches ImportPhase::Write { done, total } ==> done < total
}

/// The step that follows `event` in `phase`: the next phase and the action
/// to take. An existing slug is skipped; a dry run stops after preparing;
/// writes come in order; a failure before the post exists is reported as
/// is, and a failure after it was created rolls the creation back.
pub open spec fn import_step(dry_run: bool, phase: ImportPhase, event: ImportEvent) -> (ImportPhase, ImportAction) {
    match phase {
        ImportPhase::Lookup => match event {
            ImportEvent::LookedUp { exists } => if exists {
                (ImportPhase::Done, ImportAction::Skip)
            } else {
                (ImportPhase::Prepare, ImportAction::Prepare)
            },
            _ => (ImportPhase::Done, ImportAction::Fail),
        },
        ImportPhase::Prepare => match event {
            ImportEvent::Prepared { writes } => if dry_run {
                (ImportPhase::Done, ImportAction::ReportDryRun)
            } else {
                (ImportPhase::Create { writes }, ImportAction::CreatePost)
            },
            _ => (ImportPhase::Done, ImportAction::Fail),
        },
        ImportPhase::Create { writes } => match event {
            ImportEvent::Succeeded => if writes == 0 {
                (ImportPhase::Done, ImportAction::Finish)
            } else {
                (ImportPhase::Write { done: 0, total: writes }, ImportAction::Write(0))
            },
            _ => (ImportPhase::Done, ImportAction::Fail),
        },
        ImportPhase::Write { done, total } => match event {
            ImportEvent::Succeeded => if done + 1 == total {
                (ImportPhase::Done, ImportAction::Finish)
            } else {
                (ImportPhase::Write { done: (done + 1) as usize, total }, ImportAction::Write((done + 1) as usize))
            },
            _ => (ImportPhase::Done, ImportAction::RollBack),
        },
        ImportPhase::Done => (ImportPhase::Done, ImportAction::Fail),
    }
}

/// The import of one post: whether it is a dry run, and where it stands.
pub struct ImportRun {
    dry_run: bool,
    phase: ImportPhase,
}

impl View for ImportRun {
    type V = (bool, ImportPhase);

    closed spec fn view(&self) -> (bool, ImportPhase) {
        (self.dry_run, self.phase)
    }
}

impl ImportRun {
    #[verifier::type_invariant]
    closed spec fn wf(self) -> bool {
        import_state_wf(self.dry_run, self.phase)
    }

    /// A run that starts with the lookup.
    pub fn start(dry_run: bool) -> (r: ImportRun)
        ensures
            r@ == (dry_run, ImportPhase::Lookup),
    {
        ImportRun { dry_run, phase: ImportPhase::Lookup }
    }

    /// Where the run stands.
    pub fn phase(&self) -> (p: ImportPhase)
        ensures
            p == self@.1,
    {
        self.phase
    }

    /// Takes the step that follows `event`. A dry run never writes; the
    /// post is skipped exactly when the lookup found its slug; writes come
    /// in order, each once; and only a failure after the post was created
    /// rolls it back, which every such failure does.
    pub fn step(self, event: ImportEvent) -> (r: (ImportRun, ImportAction))
        requires
            self@.1 !is Done,
        ensures
            r.0@.0 == self@.0,
            (r.0@.1, r.1) == import_step(self@.0, self@.1, event),
            import_state_wf(r.0@.0, r.0@.1),
            self@.0 ==> !writes_to_store(r.1),
            r.1 is Skip <==> (self@.1 is Lookup && event == (ImportEvent::LookedUp { exists: true })),
            r.1 is RollBack <==> (self@.1 is Write && event != ImportEvent::Succeeded),
            r.1 matches ImportAction::Write(i) ==> (self@.1 is Create && i == 0) || (
            self@.1 matches ImportPhase::Write { done, total } && i == done + 1 && i < total),
            r.1 is Finish ==> (self@.1 is Create || self@.1 is Write) && event == ImportEvent::Succeeded,
            (r.0@.1 is Done) <==> !(r.1 is Prepare || r.1 is CreatePost || r.1 is Write),
    {
        proof {
            use_type_invariant(&self);
        }
        let dry_run = self.dry_run;
        let (phase, action) = match self.phase {
            ImportPhase::Lookup => match event {
                ImportEvent::LookedUp { exists } => if exists {
                    (ImportPhase::Done, ImportAction::Skip)
                } else {
                    (ImportPhase::Prepare, ImportAction::Prepare)
                },
                _ => (ImportPhase::Done, ImportAction::Fail),
            },
            ImportPhase::Prepare => match event {
                ImportEvent::Prepared { writes } => if dry_run {
                    (ImportPhase::Done, ImportAction::ReportDryRun)
                } else {
                    (ImportPhase::Create { writes }, ImportAction::CreatePost)
                },
                _ => (ImportPhase::Done, ImportAction::Fail),
            },
            ImportPhase::Create { writes } => match event {
                ImportEvent::Succeeded => if writes == 0 {
                    (ImportPhase::Done, ImportAction::Finish)
                } else {
                    (ImportPhase::Write { done: 0, total: writes }, ImportAction::Write(0))
                },
                _ => (ImportPhase::Done, ImportAction::Fail),
            },
            ImportPhase::Write { done, total } => match event {
                ImportEvent::Succeeded => if done + 1 == total {
                    (ImportPhase::Done, ImportAction::Finish)
                } else {
                    (ImportPhase::Write { done: done + 1, total }, ImportAction::Write(done + 1))
                },
                _ => (ImportPhase::Done, ImportAction::RollBack),
            },
            ImportPhase::Done => (ImportPhase::Done, ImportAction::Fail),
        };
        (ImportRun { dry_run, phase }, action)
    }
}

/// The phase a run reaches, and the actions it takes, when each of its next
/// `k` steps succeeds.
pub open spec fn after_successes(dry_run: bool, phase: ImportPhase, k: nat) -> (ImportPhase, Seq<ImportAction>)
    decreases k,
{
    if k == 0 {
        (phase, seq![])
    } else {
        let (next, action) = import_step(dry_run, phase, ImportEvent::Succeeded);
        let (last, rest) = after_successes(dry_run, next, (k - 1) as nat);
        (last, seq![action] + rest)
    }
}

/// The writes `Write(from)`, ..., `Write(to - 1)`.
pub open spec fn writes_between(from: nat, to: nat) -> Seq<ImportAction> {
    Seq::new((to - from) as nat, |i: int| ImportAction::Write((from + i) as usize))
}

proof fn lemma_remaining_writes(done: usize, total: usize)
    requires
        done < total,
    ensures
        after_successes(false, ImportPhase::Write { done, total }, (total - done) as nat) == (
            ImportPhase::Done,
            writes_between((done + 1) as nat, total as nat).push(ImportAction::Finish),
        ),
    decreases total - done,
{
    let k = (total - done) as nat;
    if done + 1 == total {
        assert(after_successes(false, ImportPhase::Done, 0).1 =~= seq![]);
        assert(writes_between((done + 1) as nat, total as nat) =~= seq![]);
        assert(seq![ImportAction::Finish] + seq![] =~= seq![].push(ImportAction::Finish));
    } else {
        let next = ImportPhase::Write { done: (done + 1) as usize, total };
        lemma_remaining_writes((done + 1) as usize, total);
        let rest = after_successes(false, next, (k - 1) as nat);
        assert(after_successes(false, ImportPhase::Write { done, total }, k) == (
            rest.0,
            seq![ImportAction::Write((done + 1) as usize)] + rest.1,
        ));
        assert(seq![ImportAction::Write((done + 1) as usize)] + writes_between((done + 2) as nat, total as nat).push(
            ImportAction::Finish,
        ) =~= writes_between((done + 1) as nat, total as nat).push(ImportAction::Finish));
    }
}

/// Every planned write is made, in order, before the import finishes: once
/// the files are prepared and call for `writes` writes, a run that meets
/// only success creates the post, makes `Write(0)`, ..., `Write(writes - 1)`
/// and then finishes, and is done.
pub proof fn lemma_all_writes_in_order(writes: usize)
    ensures
        import_step(false, ImportPhase::Prepare, ImportEvent::Prepared { writes }) == (
            ImportPhase::Create { writes },
            ImportAction::CreatePost,
        ),
        after_successes(false, ImportPhase::Create { writes }, (writes + 1) as nat) == (
            ImportPhase::Done,
            writes_between(0, writes as nat).push(ImportAction::Finish),
        ),
{
    let k = (writes + 1) as nat;
    if writes == 0 {
        assert(after_successes(false, ImportPhase::Done, 0).1 =~= seq![]);
        assert(writes_between(0, 0) =~= seq![]);
        assert(seq![ImportAction::Finish] + seq![] =~= seq![].push(ImportAction::Finish));
    } else {
        let next = ImportPhase::Write { done: 0, total: writes };
        lemma_remaining_writes(0, writes);
        let rest = after_successes(false, next, (k - 1) as nat);
        assert(after_successes(false, ImportPhase::Create { writes }, k) == (
            rest.0,
            seq![ImportAction::Write(0)] + rest.1,
        ));
        assert(seq![ImportAction::Write(0)] + writes_between(1, writes as nat).push(ImportAction::Finish)
            =~= writes_between(0, writes as nat).push(ImportAction::Finish));
    }
}

} // verus!
