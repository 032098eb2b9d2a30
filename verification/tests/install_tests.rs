use update_qtile::install::{
    archive_pattern, artifact_paths, build_command, failure_message, install_command, log_path,
    plan_removals, query_command, remove_file_or_dir_if_exists, section_header, section_of,
    unreachable_message, Action, Event, Failure, Notice, PathKind, Phase, Removal, RestartReply,
    Run, Section,
};

fn drive(restart: bool, events: &[Event]) -> (Run, Vec<Action>) {
    let (mut run, first) = Run::start(restart);
    let mut actions = vec![first];
    for e in events {
        let (next, action, _) = run.step(*e);
        run = next;
        actions.push(action);
    }
    (run, actions)
}

#[test]
fn run_starts_with_the_build() {
    let (run, action) = Run::start(true);
    assert_eq!(run, Run { phase: Phase::Building, restart: true, install_failed: false });
    assert_eq!(action, Action::Build);
    assert!(!run.is_over());
}

#[test]
fn registered_package_skips_removal() {
    let (run, actions) = drive(
        false,
        &[Event::BuildExited(true), Event::QueryExited(true), Event::InstallExited(true)],
    );
    assert_eq!(
        actions,
        vec![Action::Build, Action::QueryInstalled, Action::Install, Action::RemindRestart]
    );
    assert_eq!(run.phase, Phase::Done);
    assert!(run.is_over());
    assert_eq!(run.exit_code(), 0);
}

#[test]
fn unregistered_package_has_its_artifacts_removed() {
    let (run, actions) = drive(
        false,
        &[
            Event::BuildExited(true),
            Event::QueryExited(false),
            Event::RemovalFinished(true),
            Event::InstallExited(true),
        ],
    );
    assert_eq!(
        actions,
        vec![
            Action::Build,
            Action::QueryInstalled,
            Action::RemoveArtifacts,
            Action::Install,
            Action::RemindRestart
        ]
    );
    assert_eq!(run.phase, Phase::Done);
}

#[test]
fn failed_build_halts_without_a_fatal_exit() {
    let (run, actions) = drive(true, &[Event::BuildExited(false)]);
    assert_eq!(actions, vec![Action::Build, Action::Report(Failure::Build)]);
    assert_eq!(run.phase, Phase::Failed(Failure::Build));
    assert!(run.is_over());
    assert_eq!(run.exit_code(), 0);
}

#[test]
fn failed_removal_is_fatal() {
    let (run, actions) = drive(
        true,
        &[Event::BuildExited(true), Event::QueryExited(false), Event::RemovalFinished(false)],
    );
    assert_eq!(actions[3], Action::Report(Failure::Removal));
    assert_eq!(run.phase, Phase::Failed(Failure::Removal));
    assert_eq!(run.exit_code(), 1);
}

#[test]
fn failed_install_is_recorded_and_the_restart_still_sent() {
    let (run, actions) = drive(
        true,
        &[Event::BuildExited(true), Event::QueryExited(true), Event::InstallExited(false)],
    );
    assert_eq!(actions[3], Action::Restart);
    assert_eq!(run.phase, Phase::Restarting);
    assert!(run.install_failed);
    assert!(!run.is_over());
}

#[test]
fn null_reply_completes_the_run() {
    let (run, actions) = drive(
        true,
        &[
            Event::BuildExited(true),
            Event::QueryExited(true),
            Event::InstallExited(true),
            Event::RestartAnswered(RestartReply::Null),
        ],
    );
    assert_eq!(actions[4], Action::Finish);
    assert_eq!(run.phase, Phase::Done);
    assert!(!run.install_failed);
    assert_eq!(run.exit_code(), 0);
}

#[test]
fn value_reply_is_a_restart_failure() {
    let (run, actions) = drive(
        true,
        &[
            Event::BuildExited(true),
            Event::QueryExited(true),
            Event::InstallExited(true),
            Event::RestartAnswered(RestartReply::Value),
        ],
    );
    assert_eq!(actions[4], Action::Report(Failure::RestartRefused));
    assert_eq!(run.phase, Phase::Failed(Failure::RestartRefused));
    assert_eq!(run.exit_code(), 1);
}

#[test]
fn unreachable_instance_is_a_restart_failure() {
    let (run, _) = drive(
        true,
        &[
            Event::BuildExited(true),
            Event::QueryExited(true),
            Event::InstallExited(true),
            Event::RestartAnswered(RestartReply::Unreachable),
        ],
    );
    assert_eq!(run.phase, Phase::Failed(Failure::RestartUnreachable));
    assert_eq!(run.exit_code(), 1);
}

#[test]
fn no_restart_is_sent_unless_requested() {
    let events = [
        Event::RestartAnswered(RestartReply::Null),
        Event::BuildExited(true),
        Event::InstallExited(true),
        Event::QueryExited(false),
        Event::RemovalFinished(true),
        Event::InstallExited(false),
        Event::RestartAnswered(RestartReply::Value),
        Event::BuildExited(true),
    ];
    let (run, actions) = drive(false, &events);
    assert!(actions.iter().all(|a| *a != Action::Restart));
    assert_eq!(run.phase, Phase::Done);
    assert!(run.install_failed);
}

#[test]
fn unexpected_event_changes_nothing() {
    let (run, _) = Run::start(true);
    let (next, action, notice) = run.step(Event::InstallExited(true));
    assert_eq!(notice, Notice::Silent);
    assert_eq!(next, run);
    assert_eq!(action, Action::Nothing);
    let (done, _) = drive(false, &[Event::BuildExited(false)]);
    let (after, action, _) = done.step(Event::BuildExited(true));
    assert_eq!(after, done);
    assert_eq!(action, Action::Nothing);
}

#[test]
fn kind_selects_the_deletion() {
    assert_eq!(remove_file_or_dir_if_exists(PathKind::Directory), Removal::Tree);
    assert_eq!(remove_file_or_dir_if_exists(PathKind::File), Removal::File);
    assert_eq!(remove_file_or_dir_if_exists(PathKind::Absent), Removal::Skip);
    assert_eq!(remove_file_or_dir_if_exists(PathKind::Other), Removal::Skip);
}

#[test]
fn mixed_path_list_removes_exactly_what_exists() {
    let kinds = [PathKind::File, PathKind::Directory, PathKind::Absent, PathKind::File, PathKind::Absent];
    let plan = plan_removals(&kinds.to_vec());
    assert_eq!(plan, vec![Removal::File, Removal::Tree, Removal::Skip, Removal::File, Removal::Skip]);
    assert_eq!(plan_removals(&vec![PathKind::Other]), vec![Removal::Skip]);
    assert_eq!(plan_removals(&Vec::new()), Vec::<Removal>::new());
}

#[test]
fn artifacts_in_order() {
    assert_eq!(
        artifact_paths(),
        vec![
            "/usr/bin/qtile",
            "/usr/lib/python3.12/site-packages/libqtile",
            "/usr/share/doc/qtile-git",
            "/usr/share/licenses/qtile-git/LICENSE",
            "/usr/share/wayland-sessions/qtile-wayland.desktop",
            "/usr/share/xsessions/qtile.desktop",
        ]
    );
}

#[test]
fn paths_in_the_working_directory() {
    assert_eq!(log_path("/c/yay/qtile-git"), "/c/yay/qtile-git/install.log");
    assert_eq!(log_path("/c/yay/qtile-git/"), "/c/yay/qtile-git/install.log");
    assert_eq!(archive_pattern("/c/yay/qtile-git"), "/c/yay/qtile-git/*.tar.zst");
}

#[test]
fn messages_name_the_log() {
    assert_eq!(
        failure_message("build", "/c/yay/qtile-git"),
        "Qtile build failed, check in /c/yay/qtile-git/install.log"
    );
    assert_eq!(
        failure_message("install", "/c"),
        "Qtile install failed, check in /c/install.log"
    );
    assert_eq!(
        unreachable_message("connection refused"),
        "connection refused\nQtile is probably not running"
    );
}

#[test]
fn log_sections() {
    assert_eq!(
        section_header(Section::Building),
        "\n------------------------------- building new package -------------------------------\n"
    );
    assert_eq!(
        section_header(Section::Removing),
        "\n------------------------------- removing old package -------------------------------\n"
    );
    assert_eq!(
        section_header(Section::Installing),
        "\n------------------------------- installing new package -------------------------------\n"
    );
    assert_eq!(
        section_header(Section::Installed),
        "\n------------------------------- package installed successfully -------------------------------"
    );
    assert_eq!(section_of(Action::Build), Some(Section::Building));
    assert_eq!(section_of(Action::QueryInstalled), Some(Section::Removing));
    assert_eq!(section_of(Action::Install), Some(Section::Installing));
    assert_eq!(section_of(Action::Restart), None);
}

#[test]
fn command_words() {
    assert_eq!(build_command(), vec!["makepkg", "-rsc", "--nocheck"]);
    assert_eq!(query_command(), vec!["sudo", "pacman", "-Qq", "qtile-git"]);
    assert_eq!(
        install_command("/c/qtile-git-1-1-x86_64.pkg.tar.zst"),
        vec!["sudo", "pacman", "-U", "/c/qtile-git-1-1-x86_64.pkg.tar.zst", "--overwrite", "'*'"]
    );
}

#[test]
fn install_is_closed_in_the_log_whether_it_failed_or_not() {
    let (run, _) = drive(true, &[Event::BuildExited(true), Event::QueryExited(true)]);
    let (_, _, notice) = run.step(Event::InstallExited(false));
    assert_eq!(notice, Notice::InstallClosed { failed: true });
    let (_, _, notice) = run.step(Event::InstallExited(true));
    assert_eq!(notice, Notice::InstallClosed { failed: false });
    let (_, _, notice) = run.step(Event::QueryExited(true));
    assert_eq!(notice, Notice::Silent);
    let (start, _) = Run::start(false);
    let (_, _, notice) = start.step(Event::BuildExited(false));
    assert_eq!(notice, Notice::Silent);
}
