//! The launch, step by step.
//!
//! A launch moves forward through its stages and never back: the arguments
//! are read, the program is resolved, the policy is asked, the user proves
//! who they are, a session is opened, the program takes over. The caller
//! does the work that each stage asks for and reports what came of it; what
//! happens next is decided here. Every failure ends the launch.

use vstd::prelude::*;
use crate::bytes::{copy, copy_strings, spec_field, spec_strings};
use crate::identity::{Identity, IdentityView};
use crate::path::{spec_is_absolute, ResolvedPath};
use crate::policy::{spec_authorized, Policy, RuleView};
use crate::resolver::{
    lemma_lookup_wf, lemma_next_absolute_bounds, lemma_probed_wf, lookup_binary, spec_lookup,
    spec_probed, Lookup, LookupView, Probe, ResolveError, Search, SearchView,
};

verus! {

/// Why a launch ended.
#[derive(Clone, Copy, PartialEq, Eq, Debug, Structural)]
pub enum Failure {
    /// No program was asked for.
    UsageError,
    /// The environment lacks what the resolution needs.
    EnvironmentMissing,
    /// The program was not found.
    NotFound,
    /// The policy could not be read or makes no sense.
    PolicyMalformed,
    /// No rule lets the user run the program.
    PermissionDenied,
    /// The user's secret was rejected.
    AuthenticationFailed,
    /// No session could be opened.
    SessionError,
    /// The program could not be launched.
    ExecError,
}

/// The exit code of a launch that was asked for nothing.
pub const EXIT_USAGE: i32 = 2;

/// The exit code of every other launch that ended here.
pub const EXIT_FAILURE: i32 = 1;

impl Failure {
    /// A launch that was asked for nothing ends with `EXIT_USAGE`, every
    /// other with `EXIT_FAILURE`.
    pub open spec fn spec_exit_code(self) -> i32 {
        if self is UsageError {
            EXIT_USAGE
        } else {
            EXIT_FAILURE
        }
    }

    /// The code with which the process ends after this failure.
    pub fn exit_code(&self) -> (code: i32)
        ensures
            code == self.spec_exit_code(),
    {
        match self {
            Failure::UsageError => EXIT_USAGE,
            _ => EXIT_FAILURE,
        }
    }

    /// Each way in which a resolution fails is a way in which a launch
    /// fails.
    pub open spec fn spec_of_resolution(error: ResolveError) -> Failure {
        match error {
            ResolveError::NotFound => Failure::NotFound,
            ResolveError::EnvironmentMissing => Failure::EnvironmentMissing,
        }
    }

    /// The failure of a launch whose program could not be resolved.
    pub fn of_resolution(error: ResolveError) -> (reason: Failure)
        ensures
            reason == Failure::spec_of_resolution(error),
    {
        match error {
            ResolveError::NotFound => Failure::NotFound,
            ResolveError::EnvironmentMissing => Failure::EnvironmentMissing,
        }
    }
}

/// The resolved program and the arguments that are handed through to it.
/// The path that the policy is asked about is the path that is launched.
#[derive(Debug, PartialEq, Eq)]
pub struct Command {
    pub path: ResolvedPath,
    pub args: Vec<Vec<u8>>,
}

/// A command, with its path and its arguments as sequences of bytes.
pub struct CommandView {
    pub path: Seq<u8>,
    pub args: Seq<Seq<u8>>,
}

impl View for Command {
    type V = CommandView;

    open spec fn view(&self) -> CommandView {
        CommandView { path: self.path@, args: spec_strings(self.args@) }
    }
}

/// A stage of the launch.
///
/// A launch that succeeds is never seen from here: the process is then the
/// program's, so no stage stands for it.
pub enum StateView {
    /// Nothing is known yet.
    Start,
    /// A program was asked for, by `target`; `args` are the arguments
    /// behind it.
    ArgsParsed { target: Seq<u8>, args: Seq<Seq<u8>> },
    /// The program is a bare name, and the search for it is under way.
    Resolving { search: SearchView, args: Seq<Seq<u8>> },
    /// The program is resolved.
    Resolved { command: CommandView },
    /// The policy lets `identity` run the program.
    Authorized { command: CommandView, identity: IdentityView },
    /// The user has proved to be `identity`.
    Authenticated { command: CommandView, identity: IdentityView },
    /// A session is open.
    SessionOpen { command: CommandView, identity: IdentityView },
    /// The launch has ended.
    Failed { reason: Failure },
}

/// A stage as it is held, with what it has gathered so far.
#[derive(Debug, PartialEq, Eq)]
enum State {
    Start,
    ArgsParsed { target: Vec<u8>, args: Vec<Vec<u8>> },
    Resolving { search: Search, args: Vec<Vec<u8>> },
    Resolved { command: Command },
    Authorized { command: Command, identity: Identity },
    Authenticated { command: Command, identity: Identity },
    SessionOpen { command: Command, identity: Identity },
    Failed { reason: Failure },
}

impl View for State {
    type V = StateView;

    closed spec fn view(&self) -> StateView {
        match self {
            State::Start => StateView::Start,
            State::ArgsParsed { target, args } => StateView::ArgsParsed {
                target: target@,
                args: spec_strings(args@),
            },
            State::Resolving { search, args } => StateView::Resolving {
                search: search@,
                args: spec_strings(args@),
            },
            State::Resolved { command } => StateView::Resolved { command: command@ },
            State::Authorized { command, identity } => StateView::Authorized {
                command: command@,
                identity: identity@,
            },
            State::Authenticated { command, identity } => StateView::Authenticated {
                command: command@,
                identity: identity@,
            },
            State::SessionOpen { command, identity } => StateView::SessionOpen {
                command: command@,
                identity: identity@,
            },
            State::Failed { reason } => StateView::Failed { reason: *reason },
        }
    }
}

/// What the caller reports.
#[derive(Debug, PartialEq, Eq)]
pub enum Event {
    /// The command line behind the launcher's own name.
    Arguments { args: Vec<Vec<u8>> },
    /// The current directory and the search path, as far as there are any.
    Environment { current_dir: Option<Vec<u8>>, search_path: Option<Vec<u8>> },
    /// What the probe of the candidate found.
    Probed { probe: Probe },
    /// Who the invoking user is.
    Invoker { identity: Identity },
    /// Whether the user's secret was accepted.
    Authentication { accepted: bool },
    /// Whether the session was opened.
    Session { opened: bool },
    /// The launch came back, so it failed.
    LaunchFailed,
}

/// What the caller reports, over sequences of bytes.
pub enum EventView {
    Arguments { args: Seq<Seq<u8>> },
    Environment { current_dir: Option<Seq<u8>>, search_path: Option<Seq<u8>> },
    Probed { probe: Probe },
    Invoker { identity: IdentityView },
    Authentication { accepted: bool },
    Session { opened: bool },
    LaunchFailed,
}

impl View for Event {
    type V = EventView;

    open spec fn view(&self) -> EventView {
        match self {
            Event::Arguments { args } => EventView::Arguments { args: spec_strings(args@) },
            Event::Environment { current_dir, search_path } => EventView::Environment {
                current_dir: spec_field(*current_dir),
                search_path: spec_field(*search_path),
            },
            Event::Probed { probe } => EventView::Probed { probe: *probe },
            Event::Invoker { identity } => EventView::Invoker { identity: identity@ },
            Event::Authentication { accepted } => EventView::Authentication {
                accepted: *accepted,
            },
            Event::Session { opened } => EventView::Session { opened: *opened },
            Event::LaunchFailed => EventView::LaunchFailed,
        }
    }
}

/// What the caller is to do next.
#[derive(Debug, PartialEq, Eq)]
pub enum Action {
    /// Read the command line and report `Arguments`.
    ReadArguments,
    /// Read the current directory and the search path and report
    /// `Environment`.
    ReadEnvironment,
    /// Probe `candidate` and report `Probed`.
    Probe { candidate: Vec<u8> },
    /// Find out who the invoking user is and report `Invoker`.
    IdentifyInvoker,
    /// Ask `user` for their secret, have it verified and report
    /// `Authentication`.
    Authenticate { user: Vec<u8> },
    /// Open a session and report `Session`.
    OpenSession,
    /// Replace the process by the program at `path`, run with `args`. If
    /// that comes back, report `LaunchFailed`.
    Execute { path: Vec<u8>, args: Vec<Vec<u8>> },
    /// Say why the launch ended, close the session if `close_session` says
    /// so, and end the process with `code`.
    Exit { reason: Failure, code: i32, close_session: bool },
}

/// What the caller is to do next, over sequences of bytes.
pub enum ActionView {
    ReadArguments,
    ReadEnvironment,
    Probe { candidate: Seq<u8> },
    IdentifyInvoker,
    Authenticate { user: Seq<u8> },
    OpenSession,
    Execute { path: Seq<u8>, args: Seq<Seq<u8>> },
    Exit { reason: Failure, code: i32, close_session: bool },
}

impl View for Action {
    type V = ActionView;

    open spec fn view(&self) -> ActionView {
        match self {
            Action::ReadArguments => ActionView::ReadArguments,
            Action::ReadEnvironment => ActionView::ReadEnvironment,
            Action::Probe { candidate } => ActionView::Probe { candidate: candidate@ },
            Action::IdentifyInvoker => ActionView::IdentifyInvoker,
            Action::Authenticate { user } => ActionView::Authenticate { user: user@ },
            Action::OpenSession => ActionView::OpenSession,
            Action::Execute { path, args } => ActionView::Execute {
                path: path@,
                args: spec_strings(args@),
            },
            Action::Exit { reason, code, close_session } => ActionView::Exit {
                reason: *reason,
                code: *code,
                close_session: *close_session,
            },
        }
    }
}

/// The policy as a launch sees it: the rules, or nothing if they could not
/// be had.
pub open spec fn spec_policy(policy: Option<Policy>) -> Option<Seq<RuleView>> {
    match policy {
        Some(policy) => Some(policy@),
        None => None,
    }
}

/// The stage that a lookup leads to.
pub open spec fn spec_after_lookup(lookup: LookupView, args: Seq<Seq<u8>>) -> StateView {
    match lookup {
        LookupView::Searching { search } => StateView::Resolving { search, args },
        LookupView::Resolved { path } => StateView::Resolved { command: CommandView { path, args } },
        LookupView::Failed { error } => StateView::Failed {
            reason: Failure::spec_of_resolution(error),
        },
    }
}

/// The stage that follows `state` when `event` is reported. Each stage
/// waits for one kind of event; any other leaves it as it is.
pub open spec fn spec_step(state: StateView, event: EventView, policy: Option<Seq<RuleView>>)
    -> StateView {
    match (state, event) {
        (StateView::Start, EventView::Arguments { args }) => {
            if args.len() == 0 {
                StateView::Failed { reason: Failure::UsageError }
            } else if policy is None {
                StateView::Failed { reason: Failure::PolicyMalformed }
            } else {
                StateView::ArgsParsed { target: args[0], args: args.skip(1) }
            }
        },
        (
            StateView::ArgsParsed { target, args },
            EventView::Environment { current_dir, search_path },
        ) => spec_after_lookup(spec_lookup(target, current_dir, search_path), args),
        (StateView::Resolving { search, args }, EventView::Probed { probe }) => spec_after_lookup(
            spec_probed(search, probe),
            args,
        ),
        (StateView::Resolved { command }, EventView::Invoker { identity }) => match policy {
            Some(rules) => {
                if spec_authorized(rules, identity, command.path) {
                    StateView::Authorized { command, identity }
                } else {
                    StateView::Failed { reason: Failure::PermissionDenied }
                }
            },
            None => StateView::Failed { reason: Failure::PolicyMalformed },
        },
        (StateView::Authorized { command, identity }, EventView::Authentication { accepted }) => {
            if accepted {
                StateView::Authenticated { command, identity }
            } else {
                StateView::Failed { reason: Failure::AuthenticationFailed }
            }
        },
        (StateView::Authenticated { command, identity }, EventView::Session { opened }) => {
            if opened {
                StateView::SessionOpen { command, identity }
            } else {
                StateView::Failed { reason: Failure::SessionError }
            }
        },
        (StateView::SessionOpen { .. }, EventView::LaunchFailed) => StateView::Failed {
            reason: Failure::ExecError,
        },
        _ => state,
    }
}

/// What a stage asks of the caller.
pub open spec fn spec_action(state: StateView) -> ActionView {
    match state {
        StateView::Start => ActionView::ReadArguments,
        StateView::ArgsParsed { .. } => ActionView::ReadEnvironment,
        StateView::Resolving { search, .. } => ActionView::Probe { candidate: search.candidate() },
        StateView::Resolved { .. } => ActionView::IdentifyInvoker,
        StateView::Authorized { identity, .. } => ActionView::Authenticate { user: identity.name },
        StateView::Authenticated { .. } => ActionView::OpenSession,
        StateView::SessionOpen { command, .. } => ActionView::Execute {
            path: command.path,
            args: command.args,
        },
        StateView::Failed { reason } => ActionView::Exit {
            reason,
            code: reason.spec_exit_code(),
            close_session: reason is ExecError,
        },
    }
}

impl StateView {
    /// The resolved command, from the stage at which there is one.
    pub open spec fn command(self) -> Option<CommandView> {
        match self {
            StateView::Resolved { command } => Some(command),
            StateView::Authorized { command, .. } => Some(command),
            StateView::Authenticated { command, .. } => Some(command),
            StateView::SessionOpen { command, .. } => Some(command),
            _ => None,
        }
    }

    /// The user whom the policy let through, from the stage at which it did.
    pub open spec fn identity(self) -> Option<IdentityView> {
        match self {
            StateView::Authorized { identity, .. } => Some(identity),
            StateView::Authenticated { identity, .. } => Some(identity),
            StateView::SessionOpen { identity, .. } => Some(identity),
            _ => None,
        }
    }

    /// A search stands at an absolute directory, and a resolved path is
    /// absolute.
    pub open spec fn wf(self) -> bool {
        match self {
            StateView::Resolving { search, .. } => search.wf(),
            _ => self.command() matches Some(command) ==> spec_is_absolute(command.path),
        }
    }

    /// Where the launch trusts the user, the policy lets that user run that
    /// program.
    pub open spec fn cleared(self, policy: Option<Seq<RuleView>>) -> bool {
        self.identity() matches Some(identity) ==> {
            &&& self.command() matches Some(command)
            &&& policy matches Some(rules)
            &&& spec_authorized(rules, identity, command.path)
        }
    }

    /// How far the launch has come.
    pub open spec fn rank(self) -> nat {
        match self {
            StateView::Start => 0,
            StateView::ArgsParsed { .. } => 1,
            StateView::Resolving { .. } => 2,
            StateView::Resolved { .. } => 3,
            StateView::Authorized { .. } => 4,
            StateView::Authenticated { .. } => 5,
            StateView::SessionOpen { .. } => 6,
            StateView::Failed { .. } => 7,
        }
    }
}

/// The stage that a launch is at after `events` were reported, one after
/// the other, from `state` on.
pub open spec fn spec_run(
    state: StateView,
    events: Seq<EventView>,
    policy: Option<Seq<RuleView>>,
) -> StateView
    decreases events.len(),
{
    if events.len() == 0 {
        state
    } else {
        spec_step(spec_run(state, events.drop_last(), policy), events.last(), policy)
    }
}

fn after_lookup(lookup: Lookup, args: Vec<Vec<u8>>) -> (next: State)
    ensures
        next@ == spec_after_lookup(lookup@, spec_strings(args@)),
{
    match lookup {
        Lookup::Searching { search } => State::Resolving { search, args },
        Lookup::Resolved { path } => State::Resolved { command: Command { path, args } },
        Lookup::Failed { error } => State::Failed { reason: Failure::of_resolution(error) },
    }
}

fn advance(state: State, event: Event, policy: &Option<Policy>) -> (next: State)
    ensures
        next@ == spec_step(state@, event@, spec_policy(*policy)),
{
    match state {
        State::Start => match event {
            Event::Arguments { args } => {
                let mut args: Vec<Vec<u8>> = args;
                if args.len() == 0 {
                    State::Failed { reason: Failure::UsageError }
                } else if policy.is_none() {
                    State::Failed { reason: Failure::PolicyMalformed }
                } else {
                    let ghost all = spec_strings(args@);
                    let target: Vec<u8> = args.remove(0);
                    assert(spec_strings(args@) =~= all.skip(1));
                    State::ArgsParsed { target, args }
                }
            },
            _ => State::Start,
        },
        State::ArgsParsed { target, args } => match event {
            Event::Environment { current_dir, search_path } => after_lookup(
                lookup_binary(target, current_dir, search_path),
                args,
            ),
            _ => State::ArgsParsed { target, args },
        },
        State::Resolving { search, args } => match event {
            Event::Probed { probe } => after_lookup(search.probed(probe), args),
            _ => State::Resolving { search, args },
        },
        State::Resolved { command } => match event {
            Event::Invoker { identity } => match policy {
                Some(rules) => {
                    if rules.test(&identity, &command.path) {
                        State::Authorized { command, identity }
                    } else {
                        State::Failed { reason: Failure::PermissionDenied }
                    }
                },
                None => State::Failed { reason: Failure::PolicyMalformed },
            },
            _ => State::Resolved { command },
        },
        State::Authorized { command, identity } => match event {
            Event::Authentication { accepted } => {
                if accepted {
                    State::Authenticated { command, identity }
                } else {
                    State::Failed { reason: Failure::AuthenticationFailed }
                }
            },
            _ => State::Authorized { command, identity },
        },
        State::Authenticated { command, identity } => match event {
            Event::Session { opened } => {
                if opened {
                    State::SessionOpen { command, identity }
                } else {
                    State::Failed { reason: Failure::SessionError }
                }
            },
            _ => State::Authenticated { command, identity },
        },
        State::SessionOpen { command, identity } => match event {
            Event::LaunchFailed => State::Failed { reason: Failure::ExecError },
            _ => State::SessionOpen { command, identity },
        },
        State::Failed { reason } => State::Failed { reason },
    }
}

/// One launch: the policy in force and the stage that the launch is at.
///
/// A launch is made at the start and changes by `step` alone, so it always
/// is what some run of events has made of it. Whoever holds a launch that
/// trusts a user therefore knows that the policy lets this user run the
/// resolved program.
#[derive(Debug, PartialEq, Eq)]
pub struct Launch {
    policy: Option<Policy>,
    state: State,
}

/// A launch: the rules in force, if there are any, and the stage.
pub struct LaunchView {
    pub policy: Option<Seq<RuleView>>,
    pub state: StateView,
}

impl View for Launch {
    type V = LaunchView;

    closed spec fn view(&self) -> LaunchView {
        LaunchView { policy: spec_policy(self.policy), state: self.state@ }
    }
}

impl Launch {
    #[verifier::type_invariant]
    spec fn sound(self) -> bool {
        self.state@.wf() && self.state@.cleared(spec_policy(self.policy))
    }

    /// A launch at its start. `policy` is the policy in force, or `None` if
    /// it could not be had: such a launch refuses every program.
    pub fn new(policy: Option<Policy>) -> (launch: Launch)
        ensures
            launch@ == (LaunchView { policy: spec_policy(policy), state: StateView::Start }),
    {
        Launch { policy, state: State::Start }
    }

    /// Takes the launch to the stage that follows when `event` is reported.
    pub fn step(self, event: Event) -> (next: Launch)
        ensures
            next@.policy == self@.policy,
            next@.state == spec_step(self@.state, event@, self@.policy),
    {
        proof {
            use_type_invariant(&self);
            lemma_step_keeps_cleared(self.state@, event@, spec_policy(self.policy));
        }
        let policy: Option<Policy> = self.policy;
        let state: State = advance(self.state, event, &policy);
        Launch { policy, state }
    }

    /// What the caller is to do now. Whatever it is, the launch is
    /// well-formed and cleared: the secret of a user, a session or the run
    /// of a program is only ever asked for where the policy lets that user
    /// run that program.
    pub fn action(&self) -> (asked: Action)
        ensures
            asked@ == spec_action(self@.state),
            self@.state.wf(),
            self@.state.cleared(self@.policy),
    {
        proof {
            use_type_invariant(self);
        }
        match &self.state {
            State::Start => Action::ReadArguments,
            State::ArgsParsed { .. } => Action::ReadEnvironment,
            State::Resolving { search, .. } => Action::Probe { candidate: search.candidate() },
            State::Resolved { .. } => Action::IdentifyInvoker,
            State::Authorized { identity, .. } => Action::Authenticate {
                user: copy(identity.name.as_slice()),
            },
            State::Authenticated { .. } => Action::OpenSession,
            State::SessionOpen { command, .. } => Action::Execute {
                path: copy(command.path.as_bytes()),
                args: copy_strings(command.args.as_slice()),
            },
            State::Failed { reason } => Action::Exit {
                reason: *reason,
                code: reason.exit_code(),
                close_session: matches!(reason, Failure::ExecError),
            },
        }
    }

    /// The resolved program and its arguments, from the stage at which the
    /// program is resolved until the launch ends.
    pub fn command(&self) -> (held: Option<&Command>)
        ensures
            held is Some <==> self@.state.command() is Some,
            held matches Some(command) ==> self@.state.command() == Some(command@),
    {
        match &self.state {
            State::Resolved { command } => Some(command),
            State::Authorized { command, .. } => Some(command),
            State::Authenticated { command, .. } => Some(command),
            State::SessionOpen { command, .. } => Some(command),
            _ => None,
        }
    }
}

/// One step keeps a launch well-formed and cleared.
pub proof fn lemma_step_keeps_cleared(
    state: StateView,
    event: EventView,
    policy: Option<Seq<RuleView>>,
)
    requires
        state.wf(),
        state.cleared(policy),
    ensures
        spec_step(state, event, policy).wf(),
        spec_step(state, event, policy).cleared(policy),
{
    match (state, event) {
        (
            StateView::ArgsParsed { target, args },
            EventView::Environment { current_dir, search_path },
        ) => {
            lemma_lookup_wf(target, current_dir, search_path);
        },
        (StateView::Resolving { search, args }, EventView::Probed { probe }) => {
            lemma_probed_wf(search, probe);
        },
        _ => {},
    }
}

/// Authorization comes before authentication. Whatever is reported, in
/// whatever order, a launch is only ever asked to authenticate a user, to
/// open a session or to run a program if the policy lets that user run that
/// program; the secret asked for is that user's, and the path to be run is
/// the absolute path that the policy was asked about.
pub proof fn lemma_trust_needs_authorization(
    events: Seq<EventView>,
    policy: Option<Seq<RuleView>>,
)
    ensures
        spec_run(StateView::Start, events, policy).wf(),
        spec_run(StateView::Start, events, policy).cleared(policy),
        ({
            let state = spec_run(StateView::Start, events, policy);
            let asked = spec_action(state);
            asked is Authenticate || asked is OpenSession || asked is Execute ==> {
                &&& state.identity() matches Some(identity)
                &&& state.command() matches Some(command)
                &&& policy matches Some(rules)
                &&& spec_authorized(rules, identity, command.path)
                &&& spec_is_absolute(command.path)
                &&& asked matches ActionView::Authenticate { user } ==> user == identity.name
                &&& asked matches ActionView::Execute { path, args } ==> path == command.path
                    && args == command.args
            }
        }),
    decreases events.len(),
{
    if events.len() > 0 {
        lemma_trust_needs_authorization(events.drop_last(), policy);
        lemma_step_keeps_cleared(
            spec_run(StateView::Start, events.drop_last(), policy),
            events.last(),
            policy,
        );
    }
}

/// A failure is final: nothing that is reported afterwards leads anywhere
/// else.
pub proof fn lemma_failure_is_final(
    reason: Failure,
    events: Seq<EventView>,
    policy: Option<Seq<RuleView>>,
)
    ensures
        spec_run(StateView::Failed { reason }, events, policy) == (StateView::Failed { reason }),
    decreases events.len(),
{
    if events.len() > 0 {
        lemma_failure_is_final(reason, events.drop_last(), policy);
    }
}

/// A user whom the policy does not let run the resolved program is never
/// asked for a secret: the launch fails when they are identified, it stays
/// failed, and all that is left to do is to exit with the code of a failure.
pub proof fn lemma_denied_is_never_authenticated(
    command: CommandView,
    identity: IdentityView,
    events: Seq<EventView>,
    policy: Option<Seq<RuleView>>,
)
    requires
        policy matches Some(rules) ==> !spec_authorized(rules, identity, command.path),
    ensures
        ({
            let denied = spec_step(
                StateView::Resolved { command },
                EventView::Invoker { identity },
                policy,
            );
            let state = spec_run(denied, events, policy);
            &&& denied matches StateView::Failed { reason }
            &&& reason == (if policy is Some {
                Failure::PermissionDenied
            } else {
                Failure::PolicyMalformed
            })
            &&& state == denied
            &&& spec_action(state) == (ActionView::Exit {
                reason,
                code: EXIT_FAILURE,
                close_session: false,
            })
        }),
{
    let denied = spec_step(StateView::Resolved { command }, EventView::Invoker { identity }, policy);
    lemma_failure_is_final(denied->reason, events, policy);
}

/// What was resolved is what is checked and what is run: once a launch
/// holds a command it never holds another, and once it trusts a user it
/// never trusts another.
pub proof fn lemma_command_is_fixed(
    state: StateView,
    events: Seq<EventView>,
    policy: Option<Seq<RuleView>>,
)
    ensures
        ({
            let later = spec_run(state, events, policy);
            &&& state.command() is Some ==> later is Failed || later.command() == state.command()
            &&& state.identity() is Some ==> later is Failed || later.identity()
                == state.identity()
            &&& state is Failed ==> later == state
        }),
    decreases events.len(),
{
    if events.len() > 0 {
        lemma_command_is_fixed(state, events.drop_last(), policy);
    }
}

/// A launch only moves forward. A step leaves the stage as it is, or leads
/// to a later stage, or takes a search on to a later directory.
pub proof fn lemma_forward_only(state: StateView, event: EventView, policy: Option<Seq<RuleView>>)
    requires
        state.wf(),
    ensures
        ({
            let next = spec_step(state, event, policy);
            ||| next == state
            ||| next.rank() > state.rank()
            ||| {
                &&& state matches StateView::Resolving { search: before, args: args_before }
                &&& next matches StateView::Resolving { search: after, args: args_after }
                &&& after.name == before.name
                &&& after.dirs == before.dirs
                &&& after.next > before.next
                &&& args_after == args_before
            }
        }),
{
    if let (StateView::Resolving { search, args }, EventView::Probed { probe }) = (state, event) {
        lemma_next_absolute_bounds(search.dirs, search.next + 1);
    }
}

/// The exit code alone tells a launch that was asked for nothing from
/// every other that ended here: the former ends with `EXIT_USAGE`, the
/// latter with `EXIT_FAILURE`.
pub proof fn lemma_exit_code_tells_usage(reason: Failure)
    ensures
        EXIT_USAGE != EXIT_FAILURE,
        reason.spec_exit_code() == EXIT_USAGE <==> reason is UsageError,
        reason.spec_exit_code() == EXIT_FAILURE <==> !(reason is UsageError),
        spec_action(StateView::Failed { reason }) matches ActionView::Exit { code, .. }
            && code == reason.spec_exit_code(),
{
}

/// Every failure has its one cause. A launch that has not failed fails
/// with a given reason in one stage only, on one report only; and for its
/// usage it fails whenever the arguments are reported at the start and
/// there are none, whatever the policy.
pub proof fn lemma_failure_has_its_cause(
    state: StateView,
    event: EventView,
    policy: Option<Seq<RuleView>>,
)
    requires
        !(state is Failed),
    ensures
        ({
            let next = spec_step(state, event, policy);
            &&& next == (StateView::Failed { reason: Failure::UsageError }) <==> state is Start
                && event is Arguments && event->args.len() == 0
            &&& next == (StateView::Failed { reason: Failure::PolicyMalformed }) ==> policy is None
                && (state is Start || state is Resolved)
            &&& next == (StateView::Failed { reason: Failure::EnvironmentMissing })
                ==> state is ArgsParsed
            &&& next == (StateView::Failed { reason: Failure::NotFound }) ==> state is ArgsParsed
                || state is Resolving
            &&& next == (StateView::Failed { reason: Failure::PermissionDenied }) <==> {
                &&& state is Resolved
                &&& event is Invoker
                &&& policy is Some
                &&& !spec_authorized(policy->0, event->identity, state->Resolved_command.path)
            }
            &&& next == (StateView::Failed { reason: Failure::AuthenticationFailed })
                <==> state is Authorized && event == (EventView::Authentication {
                accepted: false,
            })
            &&& next == (StateView::Failed { reason: Failure::SessionError })
                <==> state is Authenticated && event == (EventView::Session { opened: false })
            &&& next == (StateView::Failed { reason: Failure::ExecError }) <==> state is SessionOpen
                && event is LaunchFailed
        }),
{
}

/// Whether a session was opened in the course of `events`: whether the
/// launch was, after some of them, at the stage with the session open.
pub open spec fn spec_session_was_opened(
    events: Seq<EventView>,
    policy: Option<Seq<RuleView>>,
) -> bool {
    exists|k: int|
        0 <= k <= events.len() && spec_run(StateView::Start, #[trigger] events.take(k), policy)
            is SessionOpen
}

/// A launch whose session was opened still has it open or has failed to
/// run the program, and no other launch is at either stage.
pub proof fn lemma_session_was_opened(events: Seq<EventView>, policy: Option<Seq<RuleView>>)
    ensures
        spec_session_was_opened(events, policy) <==> {
            ||| spec_run(StateView::Start, events, policy) is SessionOpen
            ||| spec_run(StateView::Start, events, policy) == (StateView::Failed {
                reason: Failure::ExecError,
            })
        },
    decreases events.len(),
{
    assert(events.take(events.len() as int) =~= events);
    if events.len() > 0 {
        let before = events.drop_last();
        lemma_session_was_opened(before, policy);
        assert forall|k: int| 0 <= k <= before.len() implies #[trigger] events.take(k)
            == before.take(k) by {}
        if spec_session_was_opened(before, policy) {
            let k = choose|k: int|
                0 <= k <= before.len() && spec_run(
                    StateView::Start,
                    #[trigger] before.take(k),
                    policy,
                ) is SessionOpen;
            assert(events.take(k) == before.take(k));
        }
    }
}

/// The session is to be closed at the exit exactly when one was opened.
pub proof fn lemma_session_is_closed_iff_opened(
    events: Seq<EventView>,
    policy: Option<Seq<RuleView>>,
)
    ensures
        spec_action(spec_run(StateView::Start, events, policy)) matches ActionView::Exit {
            close_session,
            ..
        } ==> close_session == spec_session_was_opened(events, policy),
{
    lemma_session_was_opened(events, policy);
}

} // verus!
