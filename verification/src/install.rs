//! The decisions of the build and install pipeline.
//!
//! The pipeline runs outside processes and waits for each of them. What it
//! does next is decided here: `Run::step` takes the event that ended a phase
//! and gives the next phase together with the action to perform.

use vstd::prelude::*;
use vstd::string::StringExecFns;
use crate::source::{join, join_path};

verus! {

/// What ended a run early.
#[derive(Clone, Copy, Debug, PartialEq, Eq, Structural)]
pub enum Failure {
    /// The recipe runner did not build the package.
    Build,
    /// An artifact of the old package could not be deleted.
    Removal,
    /// The running instance answered the restart command with a value.
    RestartRefused,
    /// The running instance could not be reached.
    RestartUnreachable,
}

/// Where a run stands.
#[derive(Clone, Copy, Debug, PartialEq, Eq, Structural)]
pub enum Phase {
    /// The recipe runner is building the package.
    Building,
    /// The package manager is asked whether the package is registered.
    CheckInstalled,
    /// The artifacts of an unregistered old install are being deleted.
    Removing,
    /// The package manager is installing the built archive.
    Installing,
    /// The restart command was sent to the running instance.
    Restarting,
    /// The run is over and nothing stopped it.
    Done,
    /// The run was stopped.
    Failed(Failure),
}

/// What the running instance made of the restart command.
#[derive(Clone, Copy, Debug, PartialEq, Eq, Structural)]
pub enum RestartReply {
    /// The explicit null acknowledgment.
    Null,
    /// Any other value.
    Value,
    /// No reply: the transport failed.
    Unreachable,
}

/// What ended a phase.
#[derive(Clone, Copy, Debug, PartialEq, Eq, Structural)]
pub enum Event {
    /// The recipe runner exited; `true` for success.
    BuildExited(bool),
    /// The package manager's query exited; `true` where the package is
    /// registered.
    QueryExited(bool),
    /// The artifacts were gone through; `true` where no deletion failed.
    RemovalFinished(bool),
    /// The package manager's install exited; `true` for success.
    InstallExited(bool),
    /// The restart command was answered, or could not be sent.
    RestartAnswered(RestartReply),
}

/// What the pipeline does next.
#[derive(Clone, Copy, Debug, PartialEq, Eq, Structural)]
pub enum Action {
    /// Run the recipe runner.
    Build,
    /// Ask the package manager whether the package is registered.
    QueryInstalled,
    /// Delete the well-known artifacts that exist.
    RemoveArtifacts,
    /// Install the built archive.
    Install,
    /// Send the restart command.
    Restart,
    /// Remind the user to restart by hand, and stop.
    RemindRestart,
    /// Stop: the run is complete.
    Finish,
    /// Report the failure, and stop.
    Report(Failure),
    /// The event was not waited for: do nothing.
    Nothing,
}

/// What is written down when an event has been taken.
#[derive(Clone, Copy, Debug, PartialEq, Eq, Structural)]
pub enum Notice {
    /// Nothing.
    Silent,
    /// The install is over: where it failed, the failure is logged with the
    /// path of the log; in either case the closing line goes to the log.
    InstallClosed { failed: bool },
}

/// The state of one run.
#[derive(Clone, Copy, Debug, PartialEq, Eq, Structural)]
pub struct Run {
    /// Where the run stands.
    pub phase: Phase,
    /// Whether a restart of the running instance was asked for.
    pub restart: bool,
    /// Whether the package manager's install reported a failure. The run
    /// goes on after it: the failure is logged, not fatal.
    pub install_failed: bool,
}

/// The phase and the action that follow `event` in `phase`.
pub open spec fn transition(phase: Phase, restart: bool, event: Event) -> (Phase, Action) {
    match (phase, event) {
        (Phase::Building, Event::BuildExited(true)) => (
            Phase::CheckInstalled,
            Action::QueryInstalled,
        ),
        (Phase::Building, Event::BuildExited(false)) => (
            Phase::Failed(Failure::Build),
            Action::Report(Failure::Build),
        ),
        (Phase::CheckInstalled, Event::QueryExited(true)) => (Phase::Installing, Action::Install),
        (Phase::CheckInstalled, Event::QueryExited(false)) => (
            Phase::Removing,
            Action::RemoveArtifacts,
        ),
        (Phase::Removing, Event::RemovalFinished(true)) => (Phase::Installing, Action::Install),
        (Phase::Removing, Event::RemovalFinished(false)) => (
            Phase::Failed(Failure::Removal),
            Action::Report(Failure::Removal),
        ),
        (Phase::Installing, Event::InstallExited(_)) => if restart {
            (Phase::Restarting, Action::Restart)
        } else {
            (Phase::Done, Action::RemindRestart)
        },
        (Phase::Restarting, Event::RestartAnswered(RestartReply::Null)) => (
            Phase::Done,
            Action::Finish,
        ),
        (Phase::Restarting, Event::RestartAnswered(RestartReply::Value)) => (
            Phase::Failed(Failure::RestartRefused),
            Action::Report(Failure::RestartRefused),
        ),
        (Phase::Restarting, Event::RestartAnswered(RestartReply::Unreachable)) => (
            Phase::Failed(Failure::RestartUnreachable),
            Action::Report(Failure::RestartUnreachable),
        ),
        _ => (phase, Action::Nothing),
    }
}

impl Run {
    /// A run never waits for a restart reply that was not asked for.
    pub open spec fn wf(self) -> bool {
        self.phase == Phase::Restarting ==> self.restart
    }

    /// The run after `event`.
    pub open spec fn next(self, event: Event) -> Run {
        Run {
            phase: transition(self.phase, self.restart, event).0,
            restart: self.restart,
            install_failed: match (self.phase, event) {
                (Phase::Installing, Event::InstallExited(ok)) => !ok,
                _ => self.install_failed,
            },
        }
    }

    /// The action that `event` asks for.
    pub open spec fn action(self, event: Event) -> Action {
        transition(self.phase, self.restart, event).1
    }

    /// What is written down once `event` has been taken.
    pub open spec fn notice(self, event: Event) -> Notice {
        match (self.phase, event) {
            (Phase::Installing, Event::InstallExited(ok)) => Notice::InstallClosed { failed: !ok },
            _ => Notice::Silent,
        }
    }

    /// The run after all of `events`, in order.
    pub open spec fn after(self, events: Seq<Event>) -> Run
        decreases events.len(),
    {
        if events.len() == 0 {
            self
        } else {
            self.after(events.drop_last()).next(events.last())
        }
    }

    /// The actions that `events` ask for, one for each event.
    pub open spec fn actions(self, events: Seq<Event>) -> Seq<Action> {
        Seq::new(events.len(), |i: int| self.after(events.take(i)).action(events[i]))
    }

    /// The process exit code that the run ends with: a failed build is
    /// logged and the log kept for inspection, a failed removal or restart
    /// is fatal.
    pub open spec fn spec_exit_code(self) -> i32 {
        match self.phase {
            Phase::Failed(Failure::Removal) => 1i32,
            Phase::Failed(Failure::RestartRefused) => 1i32,
            Phase::Failed(Failure::RestartUnreachable) => 1i32,
            _ => 0i32,
        }
    }

    /// No further event is waited for.
    pub open spec fn spec_is_over(self) -> bool {
        self.phase is Done || self.phase is Failed
    }

    /// A new run, and its first action: the build.
    pub fn start(restart: bool) -> (r: (Run, Action))
        ensures
            r.0 == (Run { phase: Phase::Building, restart, install_failed: false }),
            r.1 == Action::Build,
            r.0.wf(),
    {
        (Run { phase: Phase::Building, restart, install_failed: false }, Action::Build)
    }

    /// Takes the event that ended the current phase; gives the run after it,
    /// the action to perform, and what to write down before performing it.
    pub fn step(self, event: Event) -> (r: (Run, Action, Notice))
        ensures
            r.0 == self.next(event),
            r.1 == self.action(event),
            r.2 == self.notice(event),
            self.wf() ==> r.0.wf(),
            r.1 == Action::Restart ==> self.restart,
    {
        let restart = self.restart;
        let mut install_failed = self.install_failed;
        let mut notice = Notice::Silent;
        let (phase, action) = match (self.phase, event) {
            (Phase::Building, Event::BuildExited(ok)) => if ok {
                (Phase::CheckInstalled, Action::QueryInstalled)
            } else {
                (Phase::Failed(Failure::Build), Action::Report(Failure::Build))
            },
            (Phase::CheckInstalled, Event::QueryExited(registered)) => if registered {
                (Phase::Installing, Action::Install)
            } else {
                (Phase::Removing, Action::RemoveArtifacts)
            },
            (Phase::Removing, Event::RemovalFinished(ok)) => if ok {
                (Phase::Installing, Action::Install)
            } else {
                (Phase::Failed(Failure::Removal), Action::Report(Failure::Removal))
            },
            (Phase::Installing, Event::InstallExited(ok)) => {
                install_failed = !ok;
                notice = Notice::InstallClosed { failed: !ok };
                if restart {
                    (Phase::Restarting, Action::Restart)
                } else {
                    (Phase::Done, Action::RemindRestart)
                }
            },
            (Phase::Restarting, Event::RestartAnswered(reply)) => match reply {
                RestartReply::Null => (Phase::Done, Action::Finish),
                RestartReply::Value => (
                    Phase::Failed(Failure::RestartRefused),
                    Action::Report(Failure::RestartRefused),
                ),
                RestartReply::Unreachable => (
                    Phase::Failed(Failure::RestartUnreachable),
                    Action::Report(Failure::RestartUnreachable),
                ),
            },
            (phase, _) => (phase, Action::Nothing),
        };
        (Run { phase, restart, install_failed }, action, notice)
    }

    /// Whether the run is over.
    pub fn is_over(&self) -> (r: bool)
        ensures
            r == self.spec_is_over(),
    {
        match self.phase {
            Phase::Done => true,
            Phase::Failed(_) => true,
            _ => false,
        }
    }

    /// The exit code of the process for a run that is over.
    pub fn exit_code(&self) -> (r: i32)
        ensures
            r == self.spec_exit_code(),
    {
        match self.phase {
            Phase::Failed(Failure::Removal) => 1,
            Phase::Failed(Failure::RestartRefused) => 1,
            Phase::Failed(Failure::RestartUnreachable) => 1,
            _ => 0,
        }
    }
}

/// A run that waits for the restart reply succeeds on the null
/// acknowledgment, and on no other reply: a value ends it with a restart
/// failure and a nonzero exit code, and so does a failed transport.
pub proof fn lemma_restart_reply_decides(run: Run, reply: RestartReply)
    requires
        run.phase == Phase::Restarting,
    ensures
        reply == RestartReply::Null ==> run.next(Event::RestartAnswered(reply)).phase
            == Phase::Done && run.next(Event::RestartAnswered(reply)).spec_exit_code() == 0,
        reply == RestartReply::Value ==> run.next(Event::RestartAnswered(reply)).phase
            == Phase::Failed(Failure::RestartRefused),
        reply != RestartReply::Null ==> run.next(Event::RestartAnswered(reply)).phase is Failed
            && run.next(Event::RestartAnswered(reply)).spec_exit_code() != 0,
{
}

/// Well-formedness and the restart flag are kept by every sequence of events.
pub proof fn lemma_after_keeps_wf(run: Run, events: Seq<Event>)
    requires
        run.wf(),
    ensures
        run.after(events).wf(),
        run.after(events).restart == run.restart,
    decreases events.len(),
{
    if events.len() > 0 {
        lemma_after_keeps_wf(run, events.drop_last());
    }
}

/// Where no restart was asked for, no sequence of events ever makes the run
/// send the restart command.
pub proof fn lemma_no_restart_unless_requested(run: Run, events: Seq<Event>)
    requires
        run.wf(),
        !run.restart,
    ensures
        forall|i: int| 0 <= i < events.len() ==> run.actions(events)[i] != Action::Restart,
{
    assert forall|i: int| 0 <= i < events.len() implies run.actions(events)[i]
        != Action::Restart by {
        lemma_after_keeps_wf(run, events.take(i));
    }
}

/// A run is over once it has failed: later events change nothing and ask for
/// nothing. No phase is retried and none is rolled back.
pub proof fn lemma_over_is_final(run: Run, event: Event)
    requires
        run.spec_is_over(),
    ensures
        run.next(event) == run,
        run.action(event) == Action::Nothing,
{
}

/// What a path of the file system is.
#[derive(Clone, Copy, Debug, PartialEq, Eq, Structural)]
pub enum PathKind {
    /// Nothing is there.
    Absent,
    /// A directory.
    Directory,
    /// A regular file.
    File,
    /// Something else.
    Other,
}

/// How an artifact is deleted.
#[derive(Clone, Copy, Debug, PartialEq, Eq, Structural)]
pub enum Removal {
    /// Not at all.
    Skip,
    /// Recursively, as a directory.
    Tree,
    /// As a single file.
    File,
}

/// A directory is deleted with all below it, a file alone, and nothing else
/// is touched.
pub open spec fn removal_of(kind: PathKind) -> Removal {
    match kind {
        PathKind::Directory => Removal::Tree,
        PathKind::File => Removal::File,
        _ => Removal::Skip,
    }
}

/// The deletion for an artifact of the given kind; an absent one is skipped
/// and is no error.
pub fn remove_file_or_dir_if_exists(kind: PathKind) -> (r: Removal)
    ensures
        r == removal_of(kind),
        kind == PathKind::Absent ==> r == Removal::Skip,
        r == Removal::Tree <==> kind == PathKind::Directory,
        r == Removal::File <==> kind == PathKind::File,
{
    match kind {
        PathKind::Directory => Removal::Tree,
        PathKind::File => Removal::File,
        _ => Removal::Skip,
    }
}

/// The deletions for a list of artifacts, one for each and in their order:
/// exactly the directories and the files are deleted, each in its own way,
/// and an absent artifact is skipped without an error.
pub fn plan_removals(kinds: &Vec<PathKind>) -> (r: Vec<Removal>)
    ensures
        r@.len() == kinds@.len(),
        forall|i: int| 0 <= i < kinds@.len() ==> r@[i] == removal_of(#[trigger] kinds@[i]),
        forall|i: int|
            0 <= i < kinds@.len() ==> (r@[i] != Removal::Skip <==> (#[trigger] kinds@[i]
                == PathKind::Directory || kinds@[i] == PathKind::File)),
{
    let mut plan: Vec<Removal> = Vec::new();
    let mut i: usize = 0;
    while i < kinds.len()
        invariant
            i <= kinds@.len(),
            plan@.len() == i,
            forall|j: int| 0 <= j < i ==> plan@[j] == removal_of(#[trigger] kinds@[j]),
        decreases kinds@.len() - i,
    {
        plan.push(remove_file_or_dir_if_exists(kinds[i]));
        i = i + 1;
    }
    plan
}

/// The well-known artifacts of an installed package.
pub open spec fn artifact_list() -> Seq<Seq<char>> {
    seq![
        "/usr/bin/qtile"@,
        "/usr/lib/python3.12/site-packages/libqtile"@,
        "/usr/share/doc/qtile-git"@,
        "/usr/share/licenses/qtile-git/LICENSE"@,
        "/usr/share/wayland-sessions/qtile-wayland.desktop"@,
        "/usr/share/xsessions/qtile.desktop"@,
    ]
}

/// The paths that the removal goes through, in order.
pub fn artifact_paths() -> (r: Vec<&'static str>)
    ensures
        r@.len() == artifact_list().len(),
        forall|i: int| 0 <= i < r@.len() ==> r@[i]@ == artifact_list()[i],
{
    let mut v: Vec<&'static str> = Vec::new();
    v.push("/usr/bin/qtile");
    v.push("/usr/lib/python3.12/site-packages/libqtile");
    v.push("/usr/share/doc/qtile-git");
    v.push("/usr/share/licenses/qtile-git/LICENSE");
    v.push("/usr/share/wayland-sessions/qtile-wayland.desktop");
    v.push("/usr/share/xsessions/qtile.desktop");
    v
}

/// The path of the build and install log in the working directory.
pub fn log_path(repo_path: &str) -> (r: String)
    ensures
        r@ == join_path(repo_path@, "install.log"@),
{
    join(repo_path.to_owned(), "install.log")
}

/// The glob pattern of the built archive in the working directory.
pub fn archive_pattern(repo_path: &str) -> (r: String)
    ensures
        r@ == repo_path@ + "/"@ + "*.tar.zst"@,
{
    repo_path.to_owned().concat("/").concat("*.tar.zst")
}

/// The message for a failed build or install (`what`), which names the log.
pub fn failure_message(what: &str, repo_path: &str) -> (r: String)
    ensures
        r@ == "Qtile "@ + what@ + " failed, check in "@ + repo_path@ + "/install.log"@,
{
    "Qtile ".to_owned().concat(what).concat(" failed, check in ").concat(repo_path).concat(
        "/install.log",
    )
}

/// The message for a restart command that could not be sent, from the
/// transport's own words.
pub fn unreachable_message(error: &str) -> (r: String)
    ensures
        r@ == error@ + "\nQtile is probably not running"@,
{
    error.to_owned().concat("\nQtile is probably not running")
}

/// The message that reports a failure: a failed build names the log, a
/// failed removal gives the words of the file system (`detail`), a refused
/// restart asks for a manual one, and an unreachable instance adds a hint to
/// the words of the transport (`detail`).
pub open spec fn report_text(failure: Failure, repo_path: Seq<char>, detail: Seq<char>) -> Seq<
    char,
> {
    match failure {
        Failure::Build => "Qtile "@ + "build"@ + " failed, check in "@ + repo_path
            + "/install.log"@,
        Failure::Removal => detail,
        Failure::RestartRefused => "restart failed, please restart manually"@,
        Failure::RestartUnreachable => detail + "\nQtile is probably not running"@,
    }
}

/// The message that reports `failure`.
pub fn report(failure: Failure, repo_path: &str, detail: &str) -> (r: String)
    ensures
        r@ == report_text(failure, repo_path@, detail@),
{
    match failure {
        Failure::Build => failure_message("build", repo_path),
        Failure::Removal => detail.to_owned(),
        Failure::RestartRefused => "restart failed, please restart manually".to_owned(),
        Failure::RestartUnreachable => unreachable_message(detail),
    }
}

/// A section of the build and install log.
#[derive(Clone, Copy, Debug, PartialEq, Eq, Structural)]
pub enum Section {
    /// Output of the recipe runner.
    Building,
    /// Output of the package manager's query.
    Removing,
    /// Output of the package manager's install.
    Installing,
    /// The closing line.
    Installed,
}

/// The header that opens a section of the log.
pub open spec fn header_text(section: Section) -> Seq<char> {
    match section {
        Section::Building =>
            "\n------------------------------- building new package -------------------------------\n"@,
        Section::Removing =>
            "\n------------------------------- removing old package -------------------------------\n"@,
        Section::Installing =>
            "\n------------------------------- installing new package -------------------------------\n"@,
        Section::Installed =>
            "\n------------------------------- package installed successfully -------------------------------"@,
    }
}

/// The header that opens `section` of the log.
pub fn section_header(section: Section) -> (r: &'static str)
    ensures
        r@ == header_text(section),
{
    match section {
        Section::Building =>
            "\n------------------------------- building new package -------------------------------\n",
        Section::Removing =>
            "\n------------------------------- removing old package -------------------------------\n",
        Section::Installing =>
            "\n------------------------------- installing new package -------------------------------\n",
        Section::Installed =>
            "\n------------------------------- package installed successfully -------------------------------",
    }
}

/// The section of the log that the output of an action belongs to.
pub fn section_of(action: Action) -> (r: Option<Section>)
    ensures
        r == match action {
            Action::Build => Some(Section::Building),
            Action::QueryInstalled => Some(Section::Removing),
            Action::Install => Some(Section::Installing),
            _ => None::<Section>,
        },
{
    match action {
        Action::Build => Some(Section::Building),
        Action::QueryInstalled => Some(Section::Removing),
        Action::Install => Some(Section::Installing),
        _ => None,
    }
}

/// The words of the recipe runner's command: build dependencies are removed
/// after success, the build runs unprivileged, and the test suite is skipped.
pub fn build_command() -> (r: Vec<&'static str>)
    ensures
        r@.len() == 3,
        r@[0]@ == "makepkg"@,
        r@[1]@ == "-rsc"@,
        r@[2]@ == "--nocheck"@,
{
    let mut v: Vec<&'static str> = Vec::new();
    v.push("makepkg");
    v.push("-rsc");
    v.push("--nocheck");
    v
}

/// The words of the package manager's query for the package.
pub fn query_command() -> (r: Vec<&'static str>)
    ensures
        r@.len() == 4,
        r@[0]@ == "sudo"@,
        r@[1]@ == "pacman"@,
        r@[2]@ == "-Qq"@,
        r@[3]@ == "qtile-git"@,
{
    let mut v: Vec<&'static str> = Vec::new();
    v.push("sudo");
    v.push("pacman");
    v.push("-Qq");
    v.push("qtile-git");
    v
}

/// The words of the package manager's install of `archive`, which
/// overwrites whatever files are in its way.
pub fn install_command(archive: &str) -> (r: Vec<String>)
    ensures
        r@.len() == 6,
        r@[0]@ == "sudo"@,
        r@[1]@ == "pacman"@,
        r@[2]@ == "-U"@,
        r@[3]@ == archive@,
        r@[4]@ == "--overwrite"@,
        r@[5]@ == "'*'"@,
{
    let mut v: Vec<String> = Vec::new();
    v.push("sudo".to_owned());
    v.push("pacman".to_owned());
    v.push("-U".to_owned());
    v.push(archive.to_owned());
    v.push("--overwrite".to_owned());
    v.push("'*'".to_owned());
    v
}

} // verus!
