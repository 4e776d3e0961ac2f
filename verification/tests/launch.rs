use minisudo::identity::Identity;
use minisudo::launch::{Action, Command, Event, Failure, Launch, EXIT_FAILURE, EXIT_USAGE};
use minisudo::path::ResolvedPath;
use minisudo::policy::{Matcher, Policy, Rule};
use minisudo::resolver::{Probe, ResolveError};

fn b(text: &str) -> Vec<u8> {
    text.as_bytes().to_vec()
}

fn list(texts: &[&str]) -> Vec<Vec<u8>> {
    texts.iter().map(|t| b(t)).collect()
}

fn user(name: &str, groups: &[&str]) -> Identity {
    Identity { name: b(name), groups: list(groups) }
}

fn alice_may_all() -> Option<Policy> {
    Some(Policy { rules: vec![Rule { matcher: Matcher::UserByName { user: b("alice") }, program: b("*") }] })
}

fn command(path: &str, args: &[&str]) -> Command {
    Command { path: ResolvedPath::new(b(path)).unwrap(), args: list(args) }
}

fn exit(reason: Failure, code: i32) -> Action {
    Action::Exit { reason, code, close_session: false }
}

/// A launch of `target` that has come as far as the resolved program.
fn resolved(policy: Option<Policy>, target: &str) -> Launch {
    let launch = Launch::new(policy)
        .step(Event::Arguments { args: list(&[target]) })
        .step(Event::Environment { current_dir: Some(b("/home/u")), search_path: Some(b("/bin")) });
    assert_eq!(launch.action(), Action::IdentifyInvoker);
    launch
}

/// A caller that does what it is asked, in a world described by its
/// fields, and notes what it was asked.
struct World {
    args: Vec<Vec<u8>>,
    current_dir: Option<Vec<u8>>,
    search_path: Option<Vec<u8>>,
    executables: Vec<Vec<u8>>,
    invoker: Identity,
    secret_is_right: bool,
    session_opens: bool,
    asked: Vec<Action>,
}

impl World {
    fn new(args: &[&str], invoker: Identity) -> World {
        World {
            args: list(args),
            current_dir: Some(b("/home/u")),
            search_path: Some(b("/nonexist:/bin")),
            executables: list(&["/bin/ls"]),
            invoker,
            secret_is_right: true,
            session_opens: true,
            asked: Vec::new(),
        }
    }

    /// Runs the launch to its exit and returns the exit code.
    fn run(&mut self, policy: Option<Policy>) -> i32 {
        let mut launch = Launch::new(policy);
        loop {
            let asked = launch.action();
            let event = match &asked {
                Action::ReadArguments => Event::Arguments { args: self.args.clone() },
                Action::ReadEnvironment => Event::Environment {
                    current_dir: self.current_dir.clone(),
                    search_path: self.search_path.clone(),
                },
                Action::Probe { candidate } => Event::Probed {
                    probe: if self.executables.contains(candidate) {
                        Probe::Found { mode: 0o755 }
                    } else {
                        Probe::Missing
                    },
                },
                Action::IdentifyInvoker => Event::Invoker {
                    identity: Identity { name: self.invoker.name.clone(), groups: self.invoker.groups.clone() },
                },
                Action::Authenticate { .. } => Event::Authentication { accepted: self.secret_is_right },
                Action::OpenSession => Event::Session { opened: self.session_opens },
                Action::Execute { .. } => Event::LaunchFailed,
                Action::Exit { code, .. } => {
                    let code = *code;
                    self.asked.push(asked);
                    return code;
                }
            };
            self.asked.push(asked);
            launch = launch.step(event);
        }
    }

    fn was_asked_to_authenticate(&self) -> bool {
        self.asked.iter().any(|a| matches!(a, Action::Authenticate { .. }))
    }
}

#[test]
fn alice_gets_as_far_as_the_launch() {
    let mut world = World::new(&["ls", "-l", "/tmp"], user("alice", &[]));
    let code = world.run(alice_may_all());
    assert_eq!(
        world.asked,
        vec![
            Action::ReadArguments,
            Action::ReadEnvironment,
            Action::Probe { candidate: b("/nonexist/ls") },
            Action::Probe { candidate: b("/bin/ls") },
            Action::IdentifyInvoker,
            Action::Authenticate { user: b("alice") },
            Action::OpenSession,
            Action::Execute { path: b("/bin/ls"), args: list(&["-l", "/tmp"]) },
            Action::Exit { reason: Failure::ExecError, code: 1, close_session: true },
        ]
    );
    assert_eq!(code, 1);
}

#[test]
fn resolution_and_authorization_lead_to_authentication() {
    let mut launch = Launch::new(alice_may_all());
    assert_eq!(launch.action(), Action::ReadArguments);
    assert_eq!(launch.command(), None);
    launch = launch.step(Event::Arguments { args: list(&["ls"]) });
    assert_eq!(launch.action(), Action::ReadEnvironment);
    launch = launch.step(Event::Environment { current_dir: None, search_path: Some(b("/bin")) });
    assert_eq!(launch.action(), Action::Probe { candidate: b("/bin/ls") });
    assert_eq!(launch.command(), None);
    launch = launch.step(Event::Probed { probe: Probe::Found { mode: 0o755 } });
    assert_eq!(launch.action(), Action::IdentifyInvoker);
    assert_eq!(launch.command(), Some(&command("/bin/ls", &[])));
    launch = launch.step(Event::Invoker { identity: user("alice", &[]) });
    assert_eq!(launch.action(), Action::Authenticate { user: b("alice") });
    assert_eq!(launch.command(), Some(&command("/bin/ls", &[])));
}

#[test]
fn bob_is_denied_and_never_asked_for_a_secret() {
    let mut world = World::new(&["ls"], user("bob", &["users"]));
    let code = world.run(alice_may_all());
    assert_eq!(code, 1);
    assert!(!world.was_asked_to_authenticate());
    assert_eq!(
        world.asked,
        vec![
            Action::ReadArguments,
            Action::ReadEnvironment,
            Action::Probe { candidate: b("/nonexist/ls") },
            Action::Probe { candidate: b("/bin/ls") },
            Action::IdentifyInvoker,
            exit(Failure::PermissionDenied, 1),
        ]
    );
}

#[test]
fn denial_happens_between_resolved_and_authorized() {
    let launch = resolved(alice_may_all(), "/bin/ls").step(Event::Invoker { identity: user("bob", &[]) });
    assert_eq!(launch.action(), exit(Failure::PermissionDenied, 1));
    assert_eq!(launch.command(), None);
}

#[test]
fn no_target_is_a_usage_error_with_code_two() {
    let mut world = World::new(&[], user("alice", &[]));
    assert_eq!(world.run(alice_may_all()), 2);
    assert_eq!(world.asked, vec![Action::ReadArguments, exit(Failure::UsageError, 2)]);
    let mut world = World::new(&[], user("alice", &[]));
    assert_eq!(world.run(None), 2);
}

#[test]
fn every_other_failure_has_code_one() {
    assert_eq!(EXIT_USAGE, 2);
    assert_eq!(EXIT_FAILURE, 1);
    assert_eq!(Failure::UsageError.exit_code(), 2);
    for reason in [
        Failure::EnvironmentMissing,
        Failure::NotFound,
        Failure::PolicyMalformed,
        Failure::PermissionDenied,
        Failure::AuthenticationFailed,
        Failure::SessionError,
        Failure::ExecError,
    ] {
        assert_eq!(reason.exit_code(), 1);
    }
}

#[test]
fn failures_of_resolution() {
    assert_eq!(Failure::of_resolution(ResolveError::NotFound), Failure::NotFound);
    assert_eq!(Failure::of_resolution(ResolveError::EnvironmentMissing), Failure::EnvironmentMissing);
}

#[test]
fn missing_policy_refuses_every_target() {
    let mut world = World::new(&["/bin/ls"], user("alice", &[]));
    assert_eq!(world.run(None), 1);
    assert_eq!(world.asked, vec![Action::ReadArguments, exit(Failure::PolicyMalformed, 1)]);
}

#[test]
fn program_not_found() {
    let mut world = World::new(&["nosuch"], user("alice", &[]));
    assert_eq!(world.run(alice_may_all()), 1);
    assert_eq!(world.asked.last(), Some(&exit(Failure::NotFound, 1)));
    assert!(!world.was_asked_to_authenticate());
}

#[test]
fn not_executable_is_not_found() {
    let launch = Launch::new(alice_may_all())
        .step(Event::Arguments { args: list(&["ls"]) })
        .step(Event::Environment { current_dir: None, search_path: Some(b("/bin")) })
        .step(Event::Probed { probe: Probe::Found { mode: 0o644 } });
    assert_eq!(launch.action(), exit(Failure::NotFound, 1));
}

#[test]
fn missing_search_path() {
    let mut world = World::new(&["ls"], user("alice", &[]));
    world.search_path = None;
    assert_eq!(world.run(alice_may_all()), 1);
    assert_eq!(world.asked.last(), Some(&exit(Failure::EnvironmentMissing, 1)));
}

#[test]
fn absolute_target_needs_no_environment() {
    let mut world = World::new(&["/usr/bin/id", "-u"], user("alice", &[]));
    world.current_dir = None;
    world.search_path = None;
    assert_eq!(world.run(alice_may_all()), 1);
    assert_eq!(
        world.asked,
        vec![
            Action::ReadArguments,
            Action::ReadEnvironment,
            Action::IdentifyInvoker,
            Action::Authenticate { user: b("alice") },
            Action::OpenSession,
            Action::Execute { path: b("/usr/bin/id"), args: list(&["-u"]) },
            Action::Exit { reason: Failure::ExecError, code: 1, close_session: true },
        ]
    );
}

#[test]
fn relative_target_is_checked_as_it_is_run() {
    let policy = || {
        Some(Policy {
            rules: vec![Rule {
                matcher: Matcher::GroupByName { group: b("wheel") },
                program: b("/home/u/runme"),
            }],
        })
    };
    let mut world = World::new(&["./runme"], user("bob", &["users", "wheel"]));
    assert_eq!(world.run(policy()), 1);
    assert!(world.asked.contains(&Action::Execute { path: b("/home/u/runme"), args: list(&[]) }));
    let mut world = World::new(&["./other"], user("bob", &["users", "wheel"]));
    assert_eq!(world.run(policy()), 1);
    assert_eq!(world.asked.last(), Some(&exit(Failure::PermissionDenied, 1)));
    assert!(!world.was_asked_to_authenticate());
}

#[test]
fn rejected_secret_ends_the_launch() {
    let mut world = World::new(&["ls"], user("alice", &[]));
    world.secret_is_right = false;
    assert_eq!(world.run(alice_may_all()), 1);
    assert_eq!(world.asked.last(), Some(&exit(Failure::AuthenticationFailed, 1)));
    assert!(!world.asked.contains(&Action::OpenSession));
    assert_eq!(world.asked.iter().filter(|a| matches!(a, Action::Authenticate { .. })).count(), 1);
}

#[test]
fn session_that_does_not_open_ends_the_launch() {
    let mut world = World::new(&["ls"], user("alice", &[]));
    world.session_opens = false;
    assert_eq!(world.run(alice_may_all()), 1);
    assert_eq!(world.asked.last(), Some(&exit(Failure::SessionError, 1)));
    assert!(!world.asked.iter().any(|a| matches!(a, Action::Execute { .. })));
}

#[test]
fn a_failure_is_final() {
    let mut launch = resolved(alice_may_all(), "/bin/ls").step(Event::Invoker { identity: user("bob", &[]) });
    assert_eq!(launch.action(), exit(Failure::PermissionDenied, 1));
    launch = launch.step(Event::Invoker { identity: user("alice", &[]) });
    assert_eq!(launch.action(), exit(Failure::PermissionDenied, 1));
    launch = launch.step(Event::Arguments { args: list(&["ls"]) });
    assert_eq!(launch.action(), exit(Failure::PermissionDenied, 1));
    launch = launch.step(Event::Authentication { accepted: true });
    assert_eq!(launch.action(), exit(Failure::PermissionDenied, 1));
    launch = launch.step(Event::Session { opened: true });
    assert_eq!(launch.action(), exit(Failure::PermissionDenied, 1));
    launch = launch.step(Event::LaunchFailed);
    assert_eq!(launch.action(), exit(Failure::PermissionDenied, 1));
}

#[test]
fn an_event_that_is_not_awaited_changes_nothing() {
    let mut launch = Launch::new(alice_may_all());
    launch = launch.step(Event::Authentication { accepted: true });
    assert_eq!(launch, Launch::new(alice_may_all()));
    launch = launch.step(Event::Session { opened: true });
    assert_eq!(launch, Launch::new(alice_may_all()));
    launch = launch.step(Event::Invoker { identity: user("alice", &[]) });
    assert_eq!(launch, Launch::new(alice_may_all()));

    launch = resolved(alice_may_all(), "/bin/ls").step(Event::Authentication { accepted: true });
    assert_eq!(launch, resolved(alice_may_all(), "/bin/ls"));
    launch = launch.step(Event::LaunchFailed);
    assert_eq!(launch, resolved(alice_may_all(), "/bin/ls"));

    launch = launch.step(Event::Invoker { identity: user("alice", &[]) });
    assert_eq!(launch.action(), Action::Authenticate { user: b("alice") });
    launch = launch.step(Event::Session { opened: true });
    assert_eq!(launch.action(), Action::Authenticate { user: b("alice") });
    launch = launch.step(Event::Invoker { identity: user("bob", &[]) });
    assert_eq!(launch.action(), Action::Authenticate { user: b("alice") });
    launch = launch.step(Event::Arguments { args: list(&["/bin/sh"]) });
    assert_eq!(launch.action(), Action::Authenticate { user: b("alice") });
    assert_eq!(launch.command(), Some(&command("/bin/ls", &[])));
}

#[test]
fn the_command_that_is_run_is_the_command_that_was_checked() {
    let mut launch = Launch::new(alice_may_all())
        .step(Event::Arguments { args: list(&["./tool", "--flag", "x y"]) })
        .step(Event::Environment { current_dir: Some(b("/srv")), search_path: None });
    assert_eq!(launch.command(), Some(&command("/srv/tool", &["--flag", "x y"])));
    launch = launch.step(Event::Invoker { identity: user("alice", &[]) });
    assert_eq!(launch.command(), Some(&command("/srv/tool", &["--flag", "x y"])));
    launch = launch.step(Event::Authentication { accepted: true });
    assert_eq!(launch.action(), Action::OpenSession);
    assert_eq!(launch.command(), Some(&command("/srv/tool", &["--flag", "x y"])));
    launch = launch.step(Event::Session { opened: true });
    assert_eq!(launch.action(), Action::Execute { path: b("/srv/tool"), args: list(&["--flag", "x y"]) });
}
