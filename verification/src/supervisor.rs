//! What `run` decides: when to launch the node, when to switch its binary, and how.
//!
//! The program around this crate launches and stops the node, reads the chain status and
//! the files, and tells what came of it; the types here say what to do next.

use vstd::prelude::*;

use crate::config::{data_dir_of, opt_text, Config, ENV_HOME, ENV_NAME};
use crate::download::{downloadable, has_download_info, url_parts};
use crate::layout::{opt_view, Layout, LayoutView};
use crate::path;
use crate::plan;
use crate::plan::{is_next, none_due, plan_views, ChainStatus, PlanView, UpgradePlan};
use crate::rpc::{http_url, RpcClient};
use crate::state::{State, StateView};
use crate::text;
use crate::time;
use crate::time::Duration;

verus! {

/// How long a request to the node may take, in seconds.
pub const RPC_TIMEOUT: u64 = 5;

/// How long `<binary> --version` may take, in seconds.
pub const VERSION_CHECK_TIMEOUT: u64 = 30;

/// How often to save what was seen on chain when nothing of interest changes, in
/// nanoseconds.
pub const PERSIST_EVERY: u128 = 30_000_000_000;

/// How often to repeat that an upgrade has triggered but its binary is not ready, in
/// nanoseconds.
pub const NAG_EVERY: u128 = 60_000_000_000;

/// The plan to apply at a status, and the status.
pub struct DueView {
    pub plan: PlanView,
    pub status: ChainStatus,
}

/// A plan that is due, and the chain status at which it is.
#[derive(Debug)]
pub struct Due {
    pub plan: UpgradePlan,
    pub status: ChainStatus,
}

impl View for Due {
    type V = DueView;

    open spec fn view(&self) -> DueView {
        DueView { plan: self.plan@, status: self.status }
    }
}

/// The view of an optional plan that is due.
pub open spec fn due_view(due: Option<Due>) -> Option<DueView> {
    match due {
        Some(d) => Some(d@),
        None => None,
    }
}

/// `due` is the plan to apply next at `status`, if there is one.
pub open spec fn is_due_next(
    plans: Seq<PlanView>,
    applied: Set<Seq<char>>,
    status: ChainStatus,
    due: Option<DueView>,
) -> bool {
    match due {
        Some(d) => d.status == status && exists|i: int|
            #![trigger plans[i]]
            is_next(plans, applied, status, i) && d.plan == plans[i],
        None => none_due(plans, applied, status),
    }
}

/// The plan to apply next at `status`.
pub fn due_plan(plans: &Vec<UpgradePlan>, state: &State, status: ChainStatus) -> (r: Option<Due>)
    ensures
        is_due_next(plan_views(plans@), state@.names().to_set(), status, due_view(r)),
{
    let applied = state.applied_names();
    let next = plan::next_triggered(plans.as_slice(), &applied, &status);
    match next {
        Some(p) => {
            let due = Due { plan: p.copy(), status };
            proof {
                let ghost done = state@.names().to_set();
                let i = choose|i: int|
                    #![trigger plans@[i]]
                    is_next(plan_views(plans@), done, status, i) && *p == plans@[i];
                assert(plan_views(plans@)[i] == due.plan@);
            }
            Some(due)
        },
        None => None,
    }
}

/// A pending plan whose trigger was reached at the last observed chain status.
pub fn already_triggered(plans: &Vec<UpgradePlan>, state: &State) -> (r: Option<Due>)
    ensures
        match state@.last_observed {
            Some(o) => is_due_next(
                plan_views(plans@),
                state@.names().to_set(),
                o.status,
                due_view(r),
            ),
            None => r is None,
        },
{
    match &state.last_observed {
        Some(o) => due_plan(plans, state, o.status),
        None => None,
    }
}

/// An upgrade that was applied is not found to be due again, at whatever chain status.
pub proof fn applied_upgrade_is_not_found_again(
    plans: Seq<PlanView>,
    state: StateView,
    due: DueView,
    now: nat,
    status: ChainStatus,
    found: Option<DueView>,
)
    requires
        is_due_next(
            plans,
            state.with_applied(due.plan.name, Some(due.status), now).names().to_set(),
            status,
            found,
        ),
    ensures
        found matches Some(d) ==> d.plan.name != due.plan.name && d.plan.due(
            state.names().to_set(),
            status,
        ),
{
    let after = state.with_applied(due.plan.name, Some(due.status), now);
    if let Some(d) = found {
        let i = choose|i: int|
            #![trigger plans[i]]
            is_next(plans, after.names().to_set(), status, i) && d.plan == plans[i];
        crate::state::applied_plan_is_not_due(
            state,
            plans[i],
            due.plan.name,
            Some(due.status),
            now,
            status,
        );
    }
}

/// The code to exit with for a node that ended so: its exit code, or 128 and the signal
/// that killed it.
pub open spec fn exit_code_of(code: Option<i32>, signal: Option<i32>) -> int {
    match code {
        Some(c) => c as int,
        None => 128 + match signal {
            Some(s) => s as int,
            None => 0,
        },
    }
}

pub fn exit_code(code: Option<i32>, signal: Option<i32>) -> (r: i32)
    requires
        exit_code_of(code, signal) <= i32::MAX,
    ensures
        r == exit_code_of(code, signal),
{
    match code {
        Some(c) => c,
        None => match signal {
            Some(s) => 128 + s,
            None => 128,
        },
    }
}

/// What the supervisor is about.
#[derive(Debug)]
pub enum RunStage {
    /// Load the state and the plans, and say which plan had triggered, if any.
    Load,
    /// Make the binary of this plan ready, and say whether it is. The node is not
    /// running.
    Prepare(Due),
    /// Apply this plan, with a backup of that directory. The node is not running.
    Apply(Due, Option<String>),
    /// Launch the node and watch it, until it has exited, or a plan has triggered whose
    /// binary is ready and the node was stopped for it.
    Launch,
    /// The node exited with this code. Say which plan had triggered, if any.
    Recheck(i32),
    /// The node exited with this code. Make the binary of this plan ready, and say
    /// whether it is.
    PrepareAgain(Due, i32),
    /// Exit with this code.
    Exit(i32),
}

/// What the supervisor is about.
pub enum StageView {
    Load,
    Prepare(DueView),
    Apply(DueView, Option<Seq<char>>),
    Launch,
    Recheck(i32),
    PrepareAgain(DueView, i32),
    Exit(i32),
}

impl View for RunStage {
    type V = StageView;

    open spec fn view(&self) -> StageView {
        match *self {
            RunStage::Load => StageView::Load,
            RunStage::Prepare(d) => StageView::Prepare(d@),
            RunStage::Apply(d, b) => StageView::Apply(d@, opt_text(b)),
            RunStage::Launch => StageView::Launch,
            RunStage::Recheck(c) => StageView::Recheck(c),
            RunStage::PrepareAgain(d, c) => StageView::PrepareAgain(d@, c),
            RunStage::Exit(c) => StageView::Exit(c),
        }
    }
}

/// What came of a stage.
#[derive(Debug)]
pub enum RunEvent {
    /// This plan had triggered, or none had.
    Found(Option<Due>),
    /// The binary is ready, or is not.
    Ready(bool),
    Applied,
    /// The node exited on its own, with this code.
    Exited(i32),
    /// The node exited with this code because a signal was forwarded to it.
    Stopped(i32),
    /// The node was stopped because this plan triggered.
    Upgrade(Due),
}

/// What came of a stage.
pub enum EventView {
    Found(Option<DueView>),
    Ready(bool),
    Applied,
    Exited(i32),
    Stopped(i32),
    Upgrade(DueView),
}

impl View for RunEvent {
    type V = EventView;

    open spec fn view(&self) -> EventView {
        match *self {
            RunEvent::Found(d) => EventView::Found(due_view(d)),
            RunEvent::Ready(b) => EventView::Ready(b),
            RunEvent::Applied => EventView::Applied,
            RunEvent::Exited(c) => EventView::Exited(c),
            RunEvent::Stopped(c) => EventView::Stopped(c),
            RunEvent::Upgrade(d) => EventView::Upgrade(d@),
        }
    }
}

/// The run of a supervisor.
#[derive(Debug)]
pub struct Supervisor {
    data_dir: Option<String>,
    restart_after_upgrade: bool,
    node_ran_since_backup: bool,
    stage: RunStage,
}

/// The run of a supervisor.
pub struct SupervisorView {
    /// What to back up before an upgrade; none where backups are off.
    pub data_dir: Option<Seq<char>>,
    pub restart_after_upgrade: bool,
    /// Whether the node ran since the last backup. There is no point in backing up twice
    /// in a row when several upgrades are applied without the node running in between.
    pub node_ran_since_backup: bool,
    pub stage: StageView,
}

impl View for Supervisor {
    type V = SupervisorView;

    closed spec fn view(&self) -> SupervisorView {
        SupervisorView {
            data_dir: opt_text(self.data_dir),
            restart_after_upgrade: self.restart_after_upgrade,
            node_ran_since_backup: self.node_ran_since_backup,
            stage: self.stage@,
        }
    }
}

impl SupervisorView {
    pub open spec fn start(data_dir: Option<Seq<char>>, restart_after_upgrade: bool) -> Self {
        SupervisorView {
            data_dir,
            restart_after_upgrade,
            node_ran_since_backup: true,
            stage: StageView::Load,
        }
    }

    pub open spec fn at(self, stage: StageView) -> Self {
        SupervisorView { stage, ..self }
    }

    /// Apply a plan, with a backup where the node ran since the last one.
    pub open spec fn applying(self, due: DueView) -> Self {
        self.at(
            StageView::Apply(
                due,
                if self.node_ran_since_backup {
                    self.data_dir
                } else {
                    None
                },
            ),
        )
    }

    /// The run after the node has run.
    pub open spec fn after_node(self) -> Self {
        SupervisorView { node_ran_since_backup: true, ..self }
    }

    /// The run after what came of its stage. An event that is nothing that can come of
    /// the stage changes nothing.
    pub open spec fn next(self, event: EventView) -> Self {
        match (self.stage, event) {
            // The old node may have died after the trigger was reached, for example
            // because it could not execute a new runtime: upgrade before relaunching it.
            (StageView::Load, EventView::Found(Some(due))) => self.at(StageView::Prepare(due)),
            (StageView::Load, EventView::Found(None)) => self.at(StageView::Launch),
            (StageView::Prepare(due), EventView::Ready(true)) => self.applying(due),
            // Never sit with no node at all.
            (StageView::Prepare(_), EventView::Ready(false)) => self.at(StageView::Launch),
            (StageView::Apply(_, _), EventView::Applied) => {
                let done = SupervisorView { node_ran_since_backup: false, ..self };
                if self.restart_after_upgrade {
                    done.at(StageView::Load)
                } else {
                    done.at(StageView::Exit(0))
                }
            },
            (StageView::Launch, EventView::Exited(code)) => if self.restart_after_upgrade {
                self.after_node().at(StageView::Recheck(code))
            } else {
                self.after_node().at(StageView::Exit(code))
            },
            // Whoever sent the signal wants the run to end, whatever has triggered.
            (StageView::Launch, EventView::Stopped(code)) => self.after_node().at(
                StageView::Exit(code),
            ),
            (StageView::Launch, EventView::Upgrade(due)) => self.after_node().applying(due),
            (StageView::Recheck(code), EventView::Found(Some(due))) => self.at(
                StageView::PrepareAgain(due, code),
            ),
            (StageView::Recheck(code), EventView::Found(None)) => self.at(StageView::Exit(code)),
            (StageView::PrepareAgain(_, _), EventView::Ready(true)) => self.at(StageView::Load),
            (StageView::PrepareAgain(_, code), EventView::Ready(false)) => self.at(
                StageView::Exit(code),
            ),
            _ => self,
        }
    }

    /// The run after a number of events.
    pub open spec fn after(self, events: Seq<EventView>) -> Self
        decreases events.len(),
    {
        if events.len() == 0 {
            self
        } else {
            self.after(events.drop_last()).next(events.last())
        }
    }

    /// An upgrade is about to be applied with a backup exactly if the node ran since the
    /// last one.
    pub open spec fn backs_up_when_due(self) -> bool {
        self.stage matches StageView::Apply(_, backup) ==> backup == if self.node_ran_since_backup {
            self.data_dir
        } else {
            None
        }
    }
}

/// Why the supervisor does not start.
#[derive(Debug)]
pub enum StartError {
    /// There is no node binary at this path.
    NoBinary(String),
    /// Backups are on, and the data directory is not known.
    NoDataDir,
    /// The node's URL is none.
    Rpc(url::ParseError),
}

/// A supervisor at its start, and the node that it asks.
#[derive(Debug)]
pub struct Start {
    pub rpc: RpcClient,
    pub supervisor: Supervisor,
}

/// The data directory that a run backs up; none where backups are off.
pub open spec fn backed_up(cfg: Config, args: Seq<Seq<char>>, base_path_env: Option<Seq<char>>) -> Option<
    Seq<char>,
> {
    if cfg.unsafe_skip_backup {
        None
    } else {
        data_dir_of(opt_text(cfg.data_dir), args, base_path_env)
    }
}

/// Start to run the node with `args`. `link` is what `current` holds, `is_file` whether
/// there is a file at the active version's binary, and `base_path_env` the `BASE_PATH`
/// variable. A backup that silently does not happen is worse than none, so with backups
/// on the data directory has to be known.
pub fn run(
    cfg: &Config,
    args: &[String],
    base_path_env: Option<String>,
    link: Option<&str>,
    is_file: bool,
) -> (r: Result<Start, StartError>)
    ensures
        ({
            let layout = LayoutView::of(cfg.home@, cfg.name@);
            let data_dir = backed_up(*cfg, text::texts(args@), opt_text(base_path_env));
            if !is_file {
                r matches Err(StartError::NoBinary(p)) && p@ == layout.bin_path(
                    layout.current_dir(opt_view(link)),
                )
            } else if !cfg.unsafe_skip_backup && data_dir is None {
                r matches Err(StartError::NoDataDir)
            } else if url_parts(http_url(cfg.rpc_url@)) is None {
                r matches Err(StartError::Rpc(_))
            } else {
                r matches Ok(s) && s.rpc.target() == http_url(cfg.rpc_url@) && s.rpc.patience() == (
                Duration { secs: RPC_TIMEOUT, nanos: 0 }) && s.supervisor@
                    == SupervisorView::start(data_dir, cfg.restart_after_upgrade)
            }
        }),
{
    let layout = Layout::new(cfg.home.as_str(), cfg.name.as_str());
    match layout.current_bin(link, is_file) {
        Ok(_) => {},
        Err(e) => return Err(StartError::NoBinary(e.path)),
    }
    let data_dir = if cfg.unsafe_skip_backup {
        None
    } else {
        let dir = cfg.resolve_data_dir(args, base_path_env);
        if dir.is_none() {
            return Err(StartError::NoDataDir);
        }
        dir
    };
    match RpcClient::new(cfg.rpc_url.as_str(), Duration::from_secs(RPC_TIMEOUT)) {
        Ok(rpc) => Ok(
            Start {
                rpc,
                supervisor: Supervisor {
                    data_dir,
                    restart_after_upgrade: cfg.restart_after_upgrade,
                    node_ran_since_backup: true,
                    stage: RunStage::Load,
                },
            },
        ),
        Err(e) => Err(StartError::Rpc(e)),
    }
}

impl Supervisor {
    /// What the supervisor is about.
    pub fn stage(&self) -> (r: &RunStage)
        ensures
            r@ == self@.stage,
    {
        &self.stage
    }

    fn backup(&self) -> (r: Option<String>)
        ensures
            opt_text(r) == if self@.node_ran_since_backup {
                self@.data_dir
            } else {
                None
            },
    {
        if self.node_ran_since_backup {
            self.data_dir.clone()
        } else {
            None
        }
    }

    /// Go on after what came of the stage.
    pub fn next(self, event: RunEvent) -> (r: Supervisor)
        ensures
            r@ == self@.next(event@),
    {
        let mut r = self;
        let backup = r.backup();
        let old_stage = r.stage;
        r.stage = RunStage::Load;
        match (old_stage, event) {
            (RunStage::Load, RunEvent::Found(Some(due))) => {
                r.stage = RunStage::Prepare(due);
            },
            (RunStage::Load, RunEvent::Found(None)) => {
                r.stage = RunStage::Launch;
            },
            (RunStage::Prepare(due), RunEvent::Ready(ready)) => {
                r.stage = if ready {
                    RunStage::Apply(due, backup)
                } else {
                    RunStage::Launch
                };
            },
            (RunStage::Apply(_, _), RunEvent::Applied) => {
                r.node_ran_since_backup = false;
                r.stage = if r.restart_after_upgrade {
                    RunStage::Load
                } else {
                    RunStage::Exit(0)
                };
            },
            (RunStage::Launch, RunEvent::Exited(code)) => {
                r.node_ran_since_backup = true;
                r.stage = if r.restart_after_upgrade {
                    RunStage::Recheck(code)
                } else {
                    RunStage::Exit(code)
                };
            },
            (RunStage::Launch, RunEvent::Stopped(code)) => {
                r.node_ran_since_backup = true;
                r.stage = RunStage::Exit(code);
            },
            (RunStage::Launch, RunEvent::Upgrade(due)) => {
                r.node_ran_since_backup = true;
                let backup = r.backup();
                r.stage = RunStage::Apply(due, backup);
            },
            (RunStage::Recheck(code), RunEvent::Found(found)) => {
                r.stage = match found {
                    Some(due) => RunStage::PrepareAgain(due, code),
                    None => RunStage::Exit(code),
                };
            },
            (RunStage::PrepareAgain(due, code), RunEvent::Ready(ready)) => {
                r.stage = if ready {
                    RunStage::Load
                } else {
                    RunStage::Exit(code)
                };
            },
            (stage, _) => {
                r.stage = stage;
            },
        }
        r
    }
}

impl EventView {
    /// The node has run, and runs no more.
    pub open spec fn ends_a_node(self) -> bool {
        self is Exited || self is Stopped || self is Upgrade
    }
}

impl SupervisorView {
    /// From its start on, and whatever happens, a run backs up before an upgrade exactly
    /// if the node ran since the last backup. What it backs up, and whether it restarts,
    /// stays as it was.
    pub proof fn always_backs_up_when_due(
        data_dir: Option<Seq<char>>,
        restart: bool,
        events: Seq<EventView>,
    )
        ensures
            ({
                let run = SupervisorView::start(data_dir, restart).after(events);
                run.backs_up_when_due() && run.data_dir == data_dir && run.restart_after_upgrade
                    == restart
            }),
        decreases events.len(),
    {
        if events.len() > 0 {
            Self::always_backs_up_when_due(data_dir, restart, events.drop_last());
        }
    }

    /// Upgrades that follow on each other without the node running in between make no
    /// second backup.
    pub proof fn no_second_backup(self, events: Seq<EventView>)
        requires
            !self.node_ran_since_backup,
            !(self.stage is Apply),
            forall|i: int|
                0 <= i < events.len() ==> !(#[trigger] events[i]).ends_a_node(),
        ensures
            !self.after(events).node_ran_since_backup,
            self.after(events).stage matches StageView::Apply(_, backup) ==> backup is None,
        decreases events.len(),
    {
        if events.len() > 0 {
            let front = events.drop_last();
            assert forall|i: int| 0 <= i < front.len() implies !(
            #[trigger] front[i]).ends_a_node() by {
                assert(front[i] == events[i]);
            }
            self.no_second_backup(front);
            assert(events.last() == events[events.len() - 1]);
        }
    }

    /// An upgrade is applied only right after its binary was found to be ready, or for a
    /// plan that the node was stopped for.
    pub proof fn applies_only_when_ready(self, event: EventView)
        requires
            self.next(event).stage is Apply,
            !(self.stage is Apply),
        ensures
            match self.stage {
                StageView::Prepare(due) => event == EventView::Ready(true)
                    && self.next(event).stage->Apply_0 == due,
                StageView::Launch => event matches EventView::Upgrade(due)
                    && self.next(event).stage->Apply_0 == due,
                _ => false,
            },
    {
    }

    /// If a plan had triggered when the supervisor starts, and its binary is ready, it is
    /// applied before anything is launched.
    pub proof fn applies_before_launch(
        data_dir: Option<Seq<char>>,
        restart: bool,
        due: DueView,
    )
        ensures
            SupervisorView::start(data_dir, restart).after(
                seq![EventView::Found(Some(due)), EventView::Ready(true)],
            ).stage == StageView::Apply(due, data_dir),
    {
        let run = SupervisorView::start(data_dir, restart);
        let events = seq![EventView::Found(Some(due)), EventView::Ready(true)];
        let first = seq![EventView::Found(Some(due))];
        assert(events.drop_last() =~= first);
        assert(first.drop_last() =~= Seq::<EventView>::empty());
        assert(run.after(Seq::empty()) == run);
        assert(run.after(first) == run.next(EventView::Found(Some(due))));
    }

    /// A binary that is not ready never leaves the machine without a node: the one that
    /// `current` leads to is launched.
    pub proof fn launches_when_not_ready(self)
        requires
            self.stage is Prepare,
        ensures
            self.next(EventView::Ready(false)).stage == StageView::Launch,
    {
    }

    /// Where it is not to restart, the supervisor exits with 0 after an upgrade; else it
    /// looks for the next one.
    pub proof fn goes_on_after_upgrade(self)
        requires
            self.stage is Apply,
        ensures
            self.next(EventView::Applied).stage == if self.restart_after_upgrade {
                StageView::Load
            } else {
                StageView::Exit(0)
            },
    {
    }

    /// The code that the node exited with, as long as the supervisor may exit with it.
    pub open spec fn node_code(self) -> Option<i32> {
        match self.stage {
            StageView::Recheck(code) => Some(code),
            StageView::PrepareAgain(_, code) => Some(code),
            StageView::Exit(code) => Some(code),
            _ => None,
        }
    }

    /// The supervisor exits with the code that the node exited with, or with 0 after an
    /// upgrade after which it is not to restart, and in no other way.
    pub proof fn exits_with_the_code_of_the_node(self, event: EventView)
        requires
            self.next(event).node_code() is Some,
        ensures
            ({
                let code = self.next(event).node_code();
                ||| self.node_code() == code
                ||| self.stage is Launch && event == EventView::Exited(code->0)
                ||| self.stage is Launch && event == EventView::Stopped(code->0)
                ||| self.stage is Apply && event is Applied && !self.restart_after_upgrade && code
                    == Some(0i32)
            }),
    {
    }

    /// A signal ends the run: once it was forwarded, the supervisor exits with the node's
    /// code, and launches no node again, whatever has triggered.
    pub proof fn signal_ends_the_run(self, code: i32)
        requires
            self.stage is Launch,
        ensures
            self.next(EventView::Stopped(code)).stage == StageView::Exit(code),
    {
    }

    /// An exit is final.
    pub proof fn exit_is_final(self, event: EventView)
        requires
            self.stage is Exit,
        ensures
            self.next(event) == self,
    {
    }
}

/// A signal that stops the node.
#[derive(Debug, Clone, Copy, PartialEq, Eq, Structural)]
pub enum StopSignal {
    Interrupt,
    Terminate,
}

/// What happened while the node was running.
#[derive(Debug)]
pub enum NodeEvent {
    /// The node exited on its own, with this code.
    Exited(i32),
    /// The supervisor got this signal.
    Signal(StopSignal),
    /// A poll found this plan to apply, or none.
    Polled(Option<Due>),
}

/// What to do about it.
#[derive(Debug)]
pub enum Reaction {
    /// Go on watching the node.
    Watch,
    /// The node is gone, with this code.
    Gone(i32),
    /// Stop the node with this signal; it is then gone.
    Forward(StopSignal),
    /// Save the state, then stop the node with this signal, for the sake of this plan.
    StopFor(Due, StopSignal),
}

/// What to do about something that happened while the node was running.
pub open spec fn reaction_to(event: NodeEvent) -> Reaction {
    match event {
        NodeEvent::Exited(code) => Reaction::Gone(code),
        NodeEvent::Signal(sig) => Reaction::Forward(sig),
        NodeEvent::Polled(None) => Reaction::Watch,
        NodeEvent::Polled(Some(due)) => Reaction::StopFor(due, StopSignal::Interrupt),
    }
}

/// What to do about something that happened while the node was running.
pub fn monitor(event: NodeEvent) -> (r: Reaction)
    ensures
        r == reaction_to(event),
{
    match event {
        NodeEvent::Exited(code) => Reaction::Gone(code),
        NodeEvent::Signal(sig) => Reaction::Forward(sig),
        NodeEvent::Polled(None) => Reaction::Watch,
        NodeEvent::Polled(Some(due)) => Reaction::StopFor(due, StopSignal::Interrupt),
    }
}

impl Reaction {
    /// What has come of the launch once the reaction is done; nothing yet where the node
    /// goes on running. `code` is what a node that was stopped exited with, and
    /// `signalled` says whether the supervisor got a signal in the meantime, which ends
    /// the run as one that was forwarded does.
    pub open spec fn outcome(self, code: i32, signalled: bool) -> Option<RunEvent> {
        match self {
            Reaction::Watch => None,
            Reaction::Gone(own) => if signalled {
                Some(RunEvent::Stopped(own))
            } else {
                Some(RunEvent::Exited(own))
            },
            Reaction::Forward(_) => Some(RunEvent::Stopped(code)),
            Reaction::StopFor(due, _) => if signalled {
                Some(RunEvent::Stopped(code))
            } else {
                Some(RunEvent::Upgrade(due))
            },
        }
    }

    /// What has come of the launch once the reaction is done.
    pub fn conclude(self, code: i32, signalled: bool) -> (r: Option<RunEvent>)
        ensures
            r == self.outcome(code, signalled),
    {
        match self {
            Reaction::Watch => None,
            Reaction::Gone(own) => if signalled {
                Some(RunEvent::Stopped(own))
            } else {
                Some(RunEvent::Exited(own))
            },
            Reaction::Forward(_) => Some(RunEvent::Stopped(code)),
            Reaction::StopFor(due, _) => if signalled {
                Some(RunEvent::Stopped(code))
            } else {
                Some(RunEvent::Upgrade(due))
            },
        }
    }
}

/// What to do about a node that was sent a signal and given time to exit.
#[derive(Debug, Clone, Copy, PartialEq, Eq, Structural)]
pub enum AfterGrace {
    /// It exited; there is nothing more to do.
    Done,
    /// It did not exit in time; kill it.
    Kill,
}

/// What to do about a node that was sent a signal, given whether it exited within the
/// grace period.
pub fn after_grace(exited: bool) -> (r: AfterGrace)
    ensures
        r == if exited {
            AfterGrace::Done
        } else {
            AfterGrace::Kill
        },
{
    if exited {
        AfterGrace::Done
    } else {
        AfterGrace::Kill
    }
}

/// A signal is forwarded to the node as it is, and the run then ends with the code that
/// the node exits with, whatever has triggered and however the supervisor was started.
pub proof fn signal_is_forwarded_and_ends_the_run(
    run: SupervisorView,
    sig: StopSignal,
    code: i32,
    signalled: bool,
)
    requires
        run.stage is Launch,
    ensures
        reaction_to(NodeEvent::Signal(sig)) == Reaction::Forward(sig),
        reaction_to(NodeEvent::Signal(sig)).outcome(code, signalled) matches Some(event)
            && run.next(event@).stage == StageView::Exit(code),
{
}

/// A signal that comes while the node is being stopped for an upgrade, or as it exits on
/// its own, ends the run too: no upgrade is applied and no node is launched after it.
pub proof fn late_signal_ends_the_run(run: SupervisorView, reaction: Reaction, code: i32)
    requires
        run.stage is Launch,
        !(reaction is Watch),
    ensures
        reaction.outcome(code, true) matches Some(event) && run.next(event@).stage
            == StageView::Exit(
            match reaction {
                Reaction::Gone(own) => own,
                _ => code,
            },
        ),
{
}

/// Bookkeeping of the polls of one run of the node. Times are in nanoseconds, on a clock
/// that never goes back.
#[derive(Debug)]
pub struct Watch {
    last_persist: u128,
    rpc_up: bool,
    nagged: Vec<(String, u128)>,
}

/// When `name` was last nagged about.
pub open spec fn nag_time(nagged: Seq<(String, u128)>, name: Seq<char>) -> Option<u128>
    decreases nagged.len(),
{
    if nagged.len() == 0 {
        None
    } else if nagged.last().0@ == name {
        Some(nagged.last().1)
    } else {
        nag_time(nagged.drop_last(), name)
    }
}

/// At least `span` has passed from `then` to `now`.
pub open spec fn passed(then: u128, now: u128, span: u128) -> bool {
    now - then >= span
}

/// What a poll has to say about the chain status.
#[derive(Debug, Clone, Copy, PartialEq, Eq, Structural)]
pub struct Observation {
    /// The node could not be reached before, and now can.
    pub reachable: bool,
    /// There was no `spec_version` before, or another one.
    pub spec_changed: bool,
    /// The state is to be saved.
    pub save: bool,
}

/// The `spec_version` is not the one last seen.
pub open spec fn spec_changes(state: StateView, status: ChainStatus) -> bool {
    match state.last_observed {
        Some(o) => o.status.spec_version != status.spec_version,
        None => true,
    }
}

/// What came of a poll at which a plan had triggered.
#[derive(Debug)]
pub enum Polled {
    /// Apply the plan.
    Upgrade(Due),
    /// The node keeps running. Say that the binary is not ready, or do not say it again.
    NotReady { nag: bool },
}

impl Watch {
    /// When the state was last saved.
    pub closed spec fn saved_at(self) -> u128 {
        self.last_persist
    }

    /// Whether the node could be reached at the last poll.
    pub closed spec fn up(self) -> bool {
        self.rpc_up
    }

    /// When a plan was last nagged about.
    pub closed spec fn nag(self, name: Seq<char>) -> Option<u128> {
        nag_time(self.nagged@, name)
    }

    /// It is time to say that the binary of a plan is not ready.
    pub open spec fn nag_is_due(self, name: Seq<char>, now: u128) -> bool {
        match self.nag(name) {
            Some(then) => passed(then, now, NAG_EVERY),
            None => true,
        }
    }

    /// What comes of a poll at which a plan had triggered, given whether its binary is
    /// ready.
    pub open spec fn answer(self, due: Due, ready: bool, now: u128) -> Polled {
        if ready {
            Polled::Upgrade(due)
        } else {
            Polled::NotReady { nag: self.nag_is_due(due.plan@.name, now) }
        }
    }

    /// What a poll that read `status` has to say about it.
    pub open spec fn observation(
        self,
        state: StateView,
        status: ChainStatus,
        now: u128,
    ) -> Observation {
        Observation {
            reachable: !self.up(),
            spec_changed: spec_changes(state, status),
            save: spec_changes(state, status) || passed(self.saved_at(), now, PERSIST_EVERY),
        }
    }

    /// This differs from `other` at most in when plans were nagged about.
    pub open spec fn same_but_nags(self, other: Watch) -> bool {
        self.saved_at() == other.saved_at() && self.up() == other.up()
    }

    /// This has the nags of `other`.
    pub open spec fn same_nags(self, other: Watch) -> bool {
        forall|name: Seq<char>| #[trigger] self.nag(name) == other.nag(name)
    }

    pub fn start(now: u128) -> (r: Watch)
        ensures
            r.saved_at() == now,
            !r.up(),
            forall|name: Seq<char>| #[trigger] r.nag(name) is None,
    {
        Watch { last_persist: now, rpc_up: false, nagged: Vec::new() }
    }

    /// Take down a chain status that the node gave, `clock` seconds after the start of
    /// 1970. The state is saved when the `spec_version` has changed, and else every half
    /// a minute.
    pub fn observe(
        &mut self,
        state: &mut State,
        status: ChainStatus,
        now: u128,
        clock: u64,
    ) -> (r: Observation)
        requires
            clock < time::TIMESTAMP_END,
        ensures
            r == old(self).observation(old(state)@, status, now),
            final(state)@ == old(state)@.with_observed(status, clock as nat),
            final(self).up(),
            final(self).saved_at() == old(self).saved_at(),
            final(self).same_nags(*old(self)),
    {
        let reachable = !self.rpc_up;
        self.rpc_up = true;
        let spec_changed = match &state.last_observed {
            Some(o) => o.status.spec_version != status.spec_version,
            None => true,
        };
        state.observe(status, clock);
        let save = spec_changed || (now >= self.last_persist && now - self.last_persist
            >= PERSIST_EVERY);
        Observation { reachable, spec_changed, save }
    }

    /// Take down that the state was saved.
    pub fn saved(&mut self, now: u128)
        ensures
            final(self).saved_at() == now,
            final(self).up() == old(self).up(),
            final(self).same_nags(*old(self)),
    {
        self.last_persist = now;
    }

    /// Take down that the node could not be reached, and say whether it could before.
    pub fn unreachable(&mut self) -> (r: bool)
        ensures
            r == old(self).up(),
            !final(self).up(),
            final(self).saved_at() == old(self).saved_at(),
            final(self).same_nags(*old(self)),
    {
        let was = self.rpc_up;
        self.rpc_up = false;
        was
    }

    fn last_nag(&self, name: &str) -> (r: Option<usize>)
        ensures
            match r {
                Some(i) => i < self.nagged@.len() && self.nagged@[i as int].0@ == name@
                    && self.nag(name@) == Some(self.nagged@[i as int].1) && forall|j: int|
                    i < j < self.nagged@.len() ==> (#[trigger] self.nagged@[j]).0@ != name@,
                None => self.nag(name@) is None && forall|j: int|
                    0 <= j < self.nagged@.len() ==> (#[trigger] self.nagged@[j]).0@ != name@,
            },
    {
        let mut i: usize = self.nagged.len();
        assert(self.nagged@.take(i as int) == self.nagged@);
        while i > 0
            invariant
                i <= self.nagged@.len(),
                self.nag(name@) == nag_time(self.nagged@.take(i as int), name@),
                forall|j: int|
                    i <= j < self.nagged@.len() ==> (#[trigger] self.nagged@[j]).0@ != name@,
            decreases i,
        {
            let ghost upto = self.nagged@.take(i as int);
            i = i - 1;
            proof {
                assert(upto.drop_last() == self.nagged@.take(i as int));
                assert(upto.last() == self.nagged@[i as int]);
            }
            if text::same(self.nagged[i].0.as_str(), name) {
                return Some(i);
            }
        }
        None
    }

    /// What comes of a poll at which a plan had triggered, given whether its binary is
    /// ready. If it is not, the old node keeps running and the next poll tries again, so
    /// that the operator can put the binary in place without a restart.
    pub fn poll(&mut self, due: Due, ready: bool, now: u128) -> (r: Polled)
        ensures
            final(self).same_but_nags(*old(self)),
            r == old(self).answer(due, ready, now),
            forall|name: Seq<char>| #[trigger]
                final(self).nag(name) == if r == (Polled::NotReady { nag: true }) && name
                    == due.plan@.name {
                    Some(now)
                } else {
                    old(self).nag(name)
                },
    {
        if ready {
            return Polled::Upgrade(due);
        }
        let ghost before = self.nagged@;
        let ghost key = due.plan@.name;
        match self.last_nag(due.plan.name.as_str()) {
            Some(i) => {
                let then: u128 = self.nagged[i].1;
                let nag = now >= then && now - then >= NAG_EVERY;
                if nag {
                    let entry = (due.plan.name.clone(), now);
                    self.nagged[i] = entry;
                    proof {
                        assert(self.nagged@ == before.update(i as int, entry));
                        assert forall|name: Seq<char>| #[trigger]
                            self.nag(name) == if name == key {
                                Some(now)
                            } else {
                                nag_time(before, name)
                            } by {
                            nag_update(before, i as int, entry, name);
                        }
                    }
                }
                Polled::NotReady { nag }
            },
            None => {
                let entry = (due.plan.name.clone(), now);
                self.nagged.push(entry);
                proof {
                    assert(self.nagged@.drop_last() == before);
                }
                Polled::NotReady { nag: true }
            },
        }
    }
}

proof fn nag_update(nagged: Seq<(String, u128)>, i: int, entry: (String, u128), name: Seq<char>)
    requires
        0 <= i < nagged.len(),
        nagged[i].0@ == entry.0@,
        forall|j: int| i < j < nagged.len() ==> (#[trigger] nagged[j]).0@ != entry.0@,
    ensures
        nag_time(nagged.update(i, entry), name) == if name == entry.0@ {
            Some(entry.1)
        } else {
            nag_time(nagged, name)
        },
    decreases nagged.len(),
{
    let after = nagged.update(i, entry);
    if i == nagged.len() - 1 {
        assert(after.drop_last() == nagged.drop_last());
    } else {
        assert(after.drop_last() == nagged.drop_last().update(i, entry));
        assert(after.last() == nagged.last());
        assert(nagged[nagged.len() - 1].0@ != entry.0@);
        let front = nagged.drop_last();
        assert forall|j: int| i < j < front.len() implies (#[trigger] front[j]).0@ != entry.0@ by {
            assert(front[j] == nagged[j]);
        }
        nag_update(front, i, entry, name);
    }
}

/// Having said that the binary of a plan is not ready, the supervisor says nothing of
/// that plan for a minute.
pub proof fn nags_are_a_minute_apart(
    after: Watch,
    name: Seq<char>,
    now: u128,
    later: u128,
)
    requires
        after.nag(name) == Some(now),
        later < now + NAG_EVERY,
    ensures
        !after.nag_is_due(name, later),
{
}

/// How far a poll has come.
#[derive(Debug)]
pub enum PollStage {
    /// Read the chain status, and say what it is, if it could be read.
    Ask,
    /// The node gave this status. Save the state, where it is to be saved; then load the
    /// plans.
    Look(ChainStatus, Observation),
    /// This plan has triggered. Make its binary ready, and say whether it is.
    Prepare(Due),
    /// The poll is over. This is the plan to apply, if there is one.
    Over(Option<Due>, Remark),
}

/// What there is to say about the end of a poll.
#[derive(Debug, Clone, Copy, PartialEq, Eq, Structural)]
pub enum Remark {
    Nothing,
    /// The node could not be reached. At the poll before it could, or it could not.
    Unreachable { was_up: bool },
    /// The binary is not ready. Say so, or do not say it again.
    NotReady { nag: bool },
}

/// How far a poll has come.
pub enum PollView {
    Ask,
    Look(ChainStatus, Observation),
    Prepare(DueView),
    Over(Option<DueView>, Remark),
}

impl View for PollStage {
    type V = PollView;

    open spec fn view(&self) -> PollView {
        match *self {
            PollStage::Ask => PollView::Ask,
            PollStage::Look(status, seen) => PollView::Look(status, seen),
            PollStage::Prepare(due) => PollView::Prepare(due@),
            PollStage::Over(due, remark) => PollView::Over(due_view(due), remark),
        }
    }
}

/// What a poll is told.
#[derive(Debug)]
pub enum PollEvent {
    /// The chain status, if it could be read, and when, in seconds after the start of
    /// 1970.
    Status(Option<ChainStatus>, u64),
    /// The plans, as they are on disk now.
    Plans(Vec<UpgradePlan>),
    /// Whether the binary is ready.
    Ready(bool),
}

/// What a poll is told.
pub enum PollEventView {
    Status(Option<ChainStatus>, u64),
    Plans(Seq<PlanView>),
    Ready(bool),
}

impl View for PollEvent {
    type V = PollEventView;

    open spec fn view(&self) -> PollEventView {
        match *self {
            PollEvent::Status(status, clock) => PollEventView::Status(status, clock),
            PollEvent::Plans(plans) => PollEventView::Plans(plan_views(plans@)),
            PollEvent::Ready(ready) => PollEventView::Ready(ready),
        }
    }
}

impl PollView {
    /// Being told `event` at `now` takes the poll to `after`. What it was not asked for
    /// leaves it where it is.
    pub open spec fn leads_to(
        self,
        event: PollEventView,
        watch: Watch,
        state: StateView,
        now: u128,
        after: PollView,
    ) -> bool {
        match (self, event) {
            (PollView::Ask, PollEventView::Status(None, _)) => after == PollView::Over(
                None,
                Remark::Unreachable { was_up: watch.up() },
            ),
            (PollView::Ask, PollEventView::Status(Some(status), _)) => after == PollView::Look(
                status,
                watch.observation(state, status, now),
            ),
            (PollView::Look(status, _), PollEventView::Plans(plans)) => match after {
                PollView::Prepare(due) => is_due_next(
                    plans,
                    state.names().to_set(),
                    status,
                    Some(due),
                ),
                _ => after == PollView::Over(None, Remark::Nothing) && none_due(
                    plans,
                    state.names().to_set(),
                    status,
                ),
            },
            (PollView::Prepare(due), PollEventView::Ready(ready)) => after == if ready {
                PollView::Over(Some(due), Remark::Nothing)
            } else {
                PollView::Over(
                    None,
                    Remark::NotReady { nag: watch.nag_is_due(due.plan.name, now) },
                )
            },
            _ => after == self,
        }
    }

    /// The state once the poll was told `event`.
    pub open spec fn state_after(self, event: PollEventView, state: StateView) -> StateView {
        match (self, event) {
            (
                PollView::Ask,
                PollEventView::Status(Some(status), clock),
            ) => state.with_observed(status, clock as nat),
            _ => state,
        }
    }

    /// `after` is the bookkeeping once the poll was told `event` at `now`.
    pub open spec fn keeps_book(
        self,
        event: PollEventView,
        watch: Watch,
        now: u128,
        after: Watch,
    ) -> bool {
        &&& after.saved_at() == watch.saved_at()
        &&& after.up() == match (self, event) {
            (PollView::Ask, PollEventView::Status(status, _)) => status is Some,
            _ => watch.up(),
        }
        &&& forall|name: Seq<char>| #[trigger]
            after.nag(name) == match (self, event) {
                (PollView::Prepare(due), PollEventView::Ready(false)) => if name
                    == due.plan.name && watch.nag_is_due(name, now) {
                    Some(now)
                } else {
                    watch.nag(name)
                },
                _ => watch.nag(name),
            }
    }
}

impl PollStage {
    pub fn start() -> (r: PollStage)
        ensures
            r@ == PollView::Ask,
    {
        PollStage::Ask
    }

    /// Tell the poll what it asked for.
    pub fn next(self, event: PollEvent, watch: &mut Watch, state: &mut State, now: u128) -> (r:
        PollStage)
        requires
            event matches PollEvent::Status(Some(_), clock) ==> clock < time::TIMESTAMP_END,
        ensures
            self@.leads_to(event@, *old(watch), old(state)@, now, r@),
            final(state)@ == self@.state_after(event@, old(state)@),
            self@.keeps_book(event@, *old(watch), now, *final(watch)),
    {
        match (self, event) {
            (PollStage::Ask, PollEvent::Status(None, _)) => {
                let was_up = watch.unreachable();
                PollStage::Over(None, Remark::Unreachable { was_up })
            },
            (PollStage::Ask, PollEvent::Status(Some(status), clock)) => {
                let seen = watch.observe(state, status, now, clock);
                PollStage::Look(status, seen)
            },
            (PollStage::Look(status, _), PollEvent::Plans(plans)) => {
                match due_plan(&plans, state, status) {
                    Some(due) => PollStage::Prepare(due),
                    None => PollStage::Over(None, Remark::Nothing),
                }
            },
            (PollStage::Prepare(due), PollEvent::Ready(ready)) => {
                match watch.poll(due, ready, now) {
                    Polled::Upgrade(due) => PollStage::Over(Some(due), Remark::Nothing),
                    Polled::NotReady { nag } => PollStage::Over(None, Remark::NotReady { nag }),
                }
            },
            (stage, _) => stage,
        }
    }

    /// What a poll that is over means for the node.
    pub open spec fn event(self) -> Option<NodeEvent> {
        match self {
            PollStage::Over(due, _) => Some(NodeEvent::Polled(due)),
            _ => None,
        }
    }

    /// What a poll that is over means for the node.
    pub fn into_event(self) -> (r: Option<NodeEvent>)
        ensures
            r == self.event(),
    {
        match self {
            PollStage::Over(due, _) => Some(NodeEvent::Polled(due)),
            _ => None,
        }
    }
}

/// The node is stopped for a plan that has triggered exactly if the plan's binary is ready.
/// If it is not, the node keeps running and is watched on.
pub proof fn stops_only_when_ready(
    due: DueView,
    ready: bool,
    watch: Watch,
    state: StateView,
    now: u128,
    end: PollStage,
)
    requires
        PollView::Prepare(due).leads_to(PollEventView::Ready(ready), watch, state, now, end@),
    ensures
        end.event() matches Some(event) && match reaction_to(event) {
            Reaction::StopFor(d, signal) => ready && d@ == due && signal == StopSignal::Interrupt,
            Reaction::Watch => !ready,
            _ => false,
        },
{
}

/// A chain status was read, `due` is the plan to apply next at it, and its binary is ready.
pub open spec fn due_and_ready(
    status: Option<ChainStatus>,
    plans: Seq<PlanView>,
    applied: Set<Seq<char>>,
    ready: bool,
    due: DueView,
) -> bool {
    status matches Some(s) && ready && is_due_next(plans, applied, s, Some(due))
}

/// Three answers end a poll. It finds a plan to apply exactly if the chain status was read,
/// the plan is the next one at that status, and its binary is ready. The status that was
/// read is taken down; where none could be read, the state stays as it is.
pub proof fn poll_finds_what_is_due_and_ready(
    status: Option<ChainStatus>,
    clock: u64,
    plans: Seq<PlanView>,
    ready: bool,
    state: StateView,
    watches: (Watch, Watch, Watch),
    times: (u128, u128, u128),
    seen: PollView,
    chosen: PollView,
    end: PollView,
)
    requires
        ({
            let read = PollEventView::Status(status, clock);
            let after = PollView::Ask.state_after(read, state);
            let loaded = PollEventView::Plans(plans);
            let later = seen.state_after(loaded, after);
            let prepared = PollEventView::Ready(ready);
            &&& PollView::Ask.leads_to(read, watches.0, state, times.0, seen)
            &&& seen.leads_to(loaded, watches.1, after, times.1, chosen)
            &&& chosen.leads_to(prepared, watches.2, later, times.2, end)
        }),
    ensures
        end is Over,
        forall|due: DueView| #[trigger]
            due_and_ready(status, plans, state.names().to_set(), ready, due) <==> end->Over_0
                == Some(due),
        ({
            let read = PollEventView::Status(status, clock);
            let loaded = PollEventView::Plans(plans);
            let prepared = PollEventView::Ready(ready);
            let after = PollView::Ask.state_after(read, state);
            chosen.state_after(prepared, seen.state_after(loaded, after)) == match status {
                Some(s) => state.with_observed(s, clock as nat),
                None => state,
            }
        }),
{
    let applied = state.names().to_set();
    if let Some(s) = status {
        assert(state.with_observed(s, clock as nat).names() == state.names());
        assert forall|due: DueView| #[trigger]
            due_and_ready(status, plans, applied, ready, due) implies end->Over_0 == Some(due) by {
            next_due_is_unique(plans, applied, s, due, chosen);
        }
    }
}

proof fn next_due_is_unique(
    plans: Seq<PlanView>,
    applied: Set<Seq<char>>,
    status: ChainStatus,
    due: DueView,
    chosen: PollView,
)
    requires
        is_due_next(plans, applied, status, Some(due)),
        match chosen {
            PollView::Prepare(d) => is_due_next(plans, applied, status, Some(d)),
            _ => none_due(plans, applied, status),
        },
    ensures
        chosen == PollView::Prepare(due),
{
    let i = choose|i: int|
        #![trigger plans[i]]
        is_next(plans, applied, status, i) && due.plan == plans[i];
    assert(plans[i].due(applied, status));
    let d = chosen->Prepare_0;
    let j = choose|j: int|
        #![trigger plans[j]]
        is_next(plans, applied, status, j) && d.plan == plans[j];
    plan::next_is_unique(plans, applied, status, i, j);
}

/// How to make a plan's binary ready.
#[derive(Debug)]
pub enum Preparation {
    /// The binary is there; check it.
    Check(String),
    /// Download the binary to this path, insisting on a checksum or not; then check it.
    Download { bin: String, must_have_checksum: bool },
}

/// Why a plan's binary is not ready.
#[derive(Debug)]
pub enum PrepareError {
    /// There is nothing at this path, and downloads are off.
    DownloadDisabled(String),
    /// There is nothing at this path, and the plan does not say where to get it.
    NoInfo(String),
}

/// `r` says how to make the binary of a plan ready, given whether downloads are allowed
/// and whether there is anything at its place.
pub open spec fn prepared(
    cfg: Config,
    layout: LayoutView,
    plan: PlanView,
    allow_download: bool,
    exists: bool,
    r: Result<Preparation, PrepareError>,
) -> bool {
    let place = layout.upgrade_bin(plan.name);
    if exists {
        r matches Ok(Preparation::Check(p)) && p@ == place
    } else if plan.info is None {
        r matches Err(PrepareError::NoInfo(p)) && p@ == place
    } else if !allow_download {
        r matches Err(PrepareError::DownloadDisabled(p)) && p@ == place
    } else {
        r matches Ok(Preparation::Download { bin, must_have_checksum }) && bin@ == place
            && must_have_checksum == cfg.download_must_have_checksum
    }
}

/// How to make the binary of `plan` ready, given whether there is anything at its place.
pub fn prepare_binary(
    cfg: &Config,
    layout: &Layout,
    plan: &UpgradePlan,
    allow_download: bool,
    exists: bool,
) -> (r: Result<Preparation, PrepareError>)
    ensures
        prepared(*cfg, layout@, plan@, allow_download, exists, r),
{
    let bin = layout.upgrade_bin(plan.name.as_str());
    if exists {
        return Ok(Preparation::Check(bin));
    }
    match (&plan.info, allow_download) {
        (Some(_), true) => Ok(
            Preparation::Download { bin, must_have_checksum: cfg.download_must_have_checksum },
        ),
        (Some(_), false) => Err(PrepareError::DownloadDisabled(bin)),
        (None, _) => Err(PrepareError::NoInfo(bin)),
    }
}

/// How to make the binary of a plan ready that has triggered: it is downloaded only where
/// the configuration allows it.
pub fn prepare_triggered(
    cfg: &Config,
    layout: &Layout,
    plan: &UpgradePlan,
    exists: bool,
) -> (r: Result<Preparation, PrepareError>)
    ensures
        prepared(*cfg, layout@, plan@, cfg.allow_download, exists, r),
{
    prepare_binary(cfg, layout, plan, cfg.allow_download, exists)
}

/// What came of `<binary> --version`.
#[derive(Debug, Clone, Copy, PartialEq, Eq, Structural)]
pub enum VersionRun {
    TimedOut,
    NotStarted,
    Exited { success: bool },
}

/// What is wrong with a binary that is there.
#[derive(Debug, Clone, Copy, PartialEq, Eq, Structural)]
pub enum BinaryFault {
    /// It is not a file that can be run.
    NotExecutable,
    TimedOut,
    NotStarted,
    /// `--version` failed, as with a file that is cut off or for another machine.
    Failed,
}

/// What is wrong with a binary, given what came of running it.
pub open spec fn run_fault(run: VersionRun) -> Option<BinaryFault> {
    match run {
        VersionRun::TimedOut => Some(BinaryFault::TimedOut),
        VersionRun::NotStarted => Some(BinaryFault::NotStarted),
        VersionRun::Exited { success } => if success {
            None
        } else {
            Some(BinaryFault::Failed)
        },
    }
}

/// `<bin> --version` must succeed.
pub fn check_runs(run: VersionRun) -> (r: Result<(), BinaryFault>)
    ensures
        r == match run_fault(run) {
            Some(f) => Err::<(), BinaryFault>(f),
            None => Ok(()),
        },
{
    match run {
        VersionRun::TimedOut => Err(BinaryFault::TimedOut),
        VersionRun::NotStarted => Err(BinaryFault::NotStarted),
        VersionRun::Exited { success } => if success {
            Ok(())
        } else {
            Err(BinaryFault::Failed)
        },
    }
}

/// Whether a binary can be run at all, before it is; given whether it is a file, and its
/// permissions.
pub fn check_executable(is_file: bool, mode: u32) -> (r: Result<(), BinaryFault>)
    ensures
        r == if is_file && mode & 0o111 != 0 {
            Ok::<(), BinaryFault>(())
        } else {
            Err(BinaryFault::NotExecutable)
        },
{
    if crate::layout::is_executable(is_file, mode) {
        Ok(())
    } else {
        Err(BinaryFault::NotExecutable)
    }
}

/// A program to run.
#[derive(Debug)]
pub struct Command {
    pub program: String,
    pub args: Vec<String>,
    pub env: Vec<(String, String)>,
}

/// A program to run.
pub struct CommandView {
    pub program: Seq<char>,
    pub args: Seq<Seq<char>>,
    pub env: Seq<(Seq<char>, Seq<char>)>,
}

impl View for Command {
    type V = CommandView;

    open spec fn view(&self) -> CommandView {
        CommandView {
            program: self.program@,
            args: text::texts(self.args@),
            env: self.env@.map_values(|p: (String, String)| (p.0@, p.1@)),
        }
    }
}

/// The run of the pre-upgrade script: with the upgrade's name and the height as
/// arguments, and more in its environment. A relative path starts at the installation.
pub open spec fn script_command(
    cfg: Config,
    layout: LayoutView,
    script: Seq<char>,
    due: DueView,
) -> CommandView {
    let height = text::decimal(due.status.height as nat);
    CommandView {
        program: path::joined(layout.root, script),
        args: seq![due.plan.name, height],
        env: seq![
            (ENV_HOME@, cfg.home@),
            (ENV_NAME@, cfg.name@),
            ("MIDNIGHT_NODE_UPDATER_UPGRADE_NAME"@, due.plan.name),
            ("MIDNIGHT_NODE_UPDATER_UPGRADE_HEIGHT"@, height),
            (
                "MIDNIGHT_NODE_UPDATER_UPGRADE_SPEC_VERSION"@,
                text::decimal(due.status.spec_version as nat),
            ),
            ("MIDNIGHT_NODE_UPDATER_UPGRADE_BIN"@, layout.upgrade_bin(due.plan.name)),
        ],
    }
}

/// How to run the pre-upgrade script.
pub fn run_preupgrade(cfg: &Config, layout: &Layout, script: &str, due: &Due) -> (r: Command)
    ensures
        r@ == script_command(*cfg, layout@, script@, due@),
{
    let program = path::join(layout.root(), script);
    let height = text::decimal_text(due.status.height);
    let mut args: Vec<String> = Vec::new();
    args.push(due.plan.name.clone());
    args.push(height.clone());
    let mut env: Vec<(String, String)> = Vec::new();
    env.push((ENV_HOME.to_string(), cfg.home.clone()));
    env.push((ENV_NAME.to_string(), cfg.name.clone()));
    env.push(("MIDNIGHT_NODE_UPDATER_UPGRADE_NAME".to_string(), due.plan.name.clone()));
    env.push(("MIDNIGHT_NODE_UPDATER_UPGRADE_HEIGHT".to_string(), height));
    env.push(
        (
            "MIDNIGHT_NODE_UPDATER_UPGRADE_SPEC_VERSION".to_string(),
            text::decimal_text(due.status.spec_version as u64),
        ),
    );
    env.push(
        (
            "MIDNIGHT_NODE_UPDATER_UPGRADE_BIN".to_string(),
            layout.upgrade_bin(due.plan.name.as_str()),
        ),
    );
    let r = Command { program, args, env };
    proof {
        let want = script_command(*cfg, layout@, script@, due@);
        assert(r@.args =~= want.args);
        assert(r@.env =~= want.env);
    }
    r
}

/// A step of applying an upgrade.
#[derive(Debug)]
pub enum ApplyStep {
    /// Wait for this long.
    Wait(Duration),
    /// Back up the data directory below that root.
    Backup { data_dir: String, root: String },
    /// Run the pre-upgrade script; it has to succeed.
    Script(Command),
    /// Point `current` to the upgrade of this name.
    Switch(String),
    /// Record in the state that the upgrade of this name was applied, at this chain
    /// status.
    Record(String, ChainStatus),
    /// Write the state to this file.
    Save(String),
}

/// A step of applying an upgrade.
pub enum ApplyView {
    Wait(Duration),
    Backup { data_dir: Seq<char>, root: Seq<char> },
    Script(CommandView),
    Switch(Seq<char>),
    Record(Seq<char>, ChainStatus),
    Save(Seq<char>),
}

impl View for ApplyStep {
    type V = ApplyView;

    open spec fn view(&self) -> ApplyView {
        match *self {
            ApplyStep::Wait(d) => ApplyView::Wait(d),
            ApplyStep::Backup { data_dir, root } => ApplyView::Backup {
                data_dir: data_dir@,
                root: root@,
            },
            ApplyStep::Script(c) => ApplyView::Script(c@),
            ApplyStep::Switch(n) => ApplyView::Switch(n@),
            ApplyStep::Record(n, s) => ApplyView::Record(n@, s),
            ApplyStep::Save(p) => ApplyView::Save(p@),
        }
    }
}

/// The views of a list of steps.
pub open spec fn apply_views(steps: Seq<ApplyStep>) -> Seq<ApplyView> {
    steps.map_values(|s: ApplyStep| s@)
}

/// `step`, if there is one.
pub open spec fn maybe(step: Option<ApplyView>) -> Seq<ApplyView> {
    match step {
        Some(s) => seq![s],
        None => Seq::empty(),
    }
}

/// Where backups go: `DAEMON_DATA_BACKUP_DIR`, else `backups` in the home.
pub open spec fn backup_root(cfg: Config) -> Seq<char> {
    match cfg.backup_dir {
        Some(dir) => dir@,
        None => path::joined(cfg.home@, "backups"@),
    }
}

/// What comes before the switch: a delay, a backup and the pre-upgrade script, where they
/// are asked for.
pub open spec fn steps_before(
    cfg: Config,
    layout: LayoutView,
    due: DueView,
    backup_from: Option<Seq<char>>,
) -> Seq<ApplyView> {
    maybe(
        if cfg.restart_delay == (Duration { secs: 0, nanos: 0 }) {
            None
        } else {
            Some(ApplyView::Wait(cfg.restart_delay))
        },
    ) + maybe(
        match backup_from {
            Some(data_dir) => Some(ApplyView::Backup { data_dir, root: backup_root(cfg) }),
            None => None,
        },
    ) + maybe(
        match cfg.preupgrade_script {
            Some(script) => Some(ApplyView::Script(script_command(cfg, layout, script@, due))),
            None => None,
        },
    )
}

/// The steps of applying an upgrade. The first one that fails ends the run.
pub open spec fn apply_steps(
    cfg: Config,
    layout: LayoutView,
    due: DueView,
    backup_from: Option<Seq<char>>,
) -> Seq<ApplyView> {
    steps_before(cfg, layout, due, backup_from) + seq![
        ApplyView::Switch(due.plan.name),
        ApplyView::Record(due.plan.name, due.status),
        ApplyView::Save(layout.state_file()),
    ]
}

/// How to apply an upgrade, with a backup of the directory `backup_from`.
pub fn apply_upgrade(
    cfg: &Config,
    layout: &Layout,
    due: &Due,
    backup_from: &Option<String>,
) -> (r: Vec<ApplyStep>)
    ensures
        apply_views(r@) == apply_steps(*cfg, layout@, due@, opt_text(*backup_from)),
{
    let mut r: Vec<ApplyStep> = Vec::new();
    if !cfg.restart_delay.is_zero() {
        r.push(ApplyStep::Wait(cfg.restart_delay));
    }
    if let Some(dir) = backup_from {
        let root = match &cfg.backup_dir {
            Some(root) => root.clone(),
            None => path::join(cfg.home.as_str(), "backups"),
        };
        r.push(ApplyStep::Backup { data_dir: dir.clone(), root });
    }
    if let Some(script) = &cfg.preupgrade_script {
        r.push(ApplyStep::Script(run_preupgrade(cfg, layout, script.as_str(), due)));
    }
    assert(apply_views(r@) =~= steps_before(*cfg, layout@, due@, opt_text(*backup_from)));
    r.push(ApplyStep::Switch(due.plan.name.clone()));
    r.push(ApplyStep::Record(due.plan.name.clone(), due.status));
    r.push(ApplyStep::Save(layout.state_file()));
    assert(apply_views(r@) =~= apply_steps(*cfg, layout@, due@, opt_text(*backup_from)));
    r
}

/// Nothing is switched and nothing is recorded before the backup and the pre-upgrade
/// script have succeeded: they come before the switch, and only recording the upgrade and
/// saving the state come after it.
pub proof fn switch_comes_last(
    cfg: Config,
    layout: LayoutView,
    due: DueView,
    backup_from: Option<Seq<char>>,
    i: int,
)
    requires
        0 <= i < apply_steps(cfg, layout, due, backup_from).len(),
    ensures
        ({
            let steps = apply_steps(cfg, layout, due, backup_from);
            let n = steps.len();
            &&& (steps[i] is Switch) == (i == n - 3)
            &&& (steps[i] is Record) == (i == n - 2)
            &&& (steps[i] is Save) == (i == n - 1)
        }),
{
    let before = steps_before(cfg, layout, due, backup_from);
    let steps = apply_steps(cfg, layout, due, backup_from);
    assert(steps.len() == before.len() + 3);
    if i < before.len() {
        assert(steps[i] == before[i]);
    } else {
        assert(steps[i] == seq![
            ApplyView::Switch(due.plan.name),
            ApplyView::Record(due.plan.name, due.status),
            ApplyView::Save(layout.state_file()),
        ][i - before.len()]);
    }
}

/// A backup and a pre-upgrade script are left out only where none is asked for.
pub proof fn nothing_asked_for_is_left_out(
    cfg: Config,
    layout: LayoutView,
    due: DueView,
    backup_from: Option<Seq<char>>,
)
    ensures
        ({
            let steps = apply_steps(cfg, layout, due, backup_from);
            &&& backup_from matches Some(data_dir) ==> steps.contains(
                ApplyView::Backup { data_dir, root: backup_root(cfg) },
            )
            &&& cfg.preupgrade_script matches Some(script) ==> steps.contains(
                ApplyView::Script(script_command(cfg, layout, script@, due)),
            )
        }),
{
    let steps = apply_steps(cfg, layout, due, backup_from);
    let skip: int = if cfg.restart_delay == (Duration { secs: 0, nanos: 0 }) {
        0
    } else {
        1
    };
    if let Some(data_dir) = backup_from {
        assert(steps[skip] == (ApplyView::Backup { data_dir, root: backup_root(cfg) }));
    }
    if let Some(script) = cfg.preupgrade_script {
        let at: int = if backup_from is Some {
            skip + 1
        } else {
            skip
        };
        assert(steps[at] == ApplyView::Script(script_command(cfg, layout, script@, due)));
    }
}

/// How a pending upgrade stands.
#[derive(Debug, Clone, Copy, PartialEq, Eq, Structural)]
pub enum Standing {
    /// Its binary is there.
    Installed,
    /// Its binary will be downloaded.
    WillDownload,
    /// Its binary is missing, and will not be downloaded.
    Missing,
}

/// What to say of a pending upgrade when the node is launched.
#[derive(Debug)]
pub struct Notice {
    pub name: String,
    pub trigger: String,
    pub bin: String,
    pub standing: Standing,
}

/// What to say of a pending upgrade when the node is launched.
pub struct NoticeView {
    pub name: Seq<char>,
    pub trigger: Seq<char>,
    pub bin: Seq<char>,
    pub standing: Standing,
}

impl View for Notice {
    type V = NoticeView;

    open spec fn view(&self) -> NoticeView {
        NoticeView {
            name: self.name@,
            trigger: self.trigger@,
            bin: self.bin@,
            standing: self.standing,
        }
    }
}

/// The views of a list of notices.
pub open spec fn notice_views(notices: Seq<Notice>) -> Seq<NoticeView> {
    notices.map_values(|n: Notice| n@)
}

/// What to say of a plan, given whether there is anything at its binary's place.
pub open spec fn notice_of(
    plan: PlanView,
    layout: LayoutView,
    allow_download: bool,
    exists: bool,
    platform: Seq<char>,
) -> NoticeView {
    NoticeView {
        name: plan.name,
        trigger: plan.trigger_text(),
        bin: layout.upgrade_bin(plan.name),
        standing: if exists {
            Standing::Installed
        } else if allow_download && downloadable(plan.info, platform) {
            Standing::WillDownload
        } else {
            Standing::Missing
        },
    }
}

/// What to say of the plans that were not applied, in their order.
pub open spec fn notices_of(
    plans: Seq<PlanView>,
    layout: LayoutView,
    applied: Set<Seq<char>>,
    allow_download: bool,
    exists: Seq<bool>,
    platform: Seq<char>,
) -> Seq<NoticeView>
    decreases plans.len(),
{
    if plans.len() == 0 {
        Seq::empty()
    } else {
        let n = plans.len() - 1;
        let front = notices_of(
            plans.drop_last(),
            layout,
            applied,
            allow_download,
            exists,
            platform,
        );
        if applied.contains(plans[n].name) {
            front
        } else {
            front.push(notice_of(plans[n], layout, allow_download, exists[n], platform))
        }
    }
}

/// What to say about pending upgrades when the node is launched: those that would fail
/// when they trigger are warned of. `exists` says of each plan whether there is anything
/// at its binary's place.
pub fn warn_unprepared_plans(
    cfg: &Config,
    layout: &Layout,
    state: &State,
    plans: &Vec<UpgradePlan>,
    exists: &Vec<bool>,
    platform: &str,
) -> (r: Vec<Notice>)
    requires
        exists@.len() == plans@.len(),
    ensures
        notice_views(r@) == notices_of(
            plan_views(plans@),
            layout@,
            state@.names().to_set(),
            cfg.allow_download,
            exists@,
            platform@,
        ),
{
    let applied = state.applied_names();
    let ghost done = state@.names().to_set();
    let ghost all = plan_views(plans@);
    let mut r: Vec<Notice> = Vec::new();
    let mut i: usize = 0;
    assert(notice_views(r@) =~= notices_of(
        all.take(0),
        layout@,
        done,
        cfg.allow_download,
        exists@,
        platform@,
    ));
    while i < plans.len()
        invariant
            i <= plans@.len(),
            exists@.len() == plans@.len(),
            all == plan_views(plans@),
            done == plan::name_set(applied@),
            notice_views(r@) == notices_of(
                all.take(i as int),
                layout@,
                done,
                cfg.allow_download,
                exists@,
                platform@,
            ),
        decreases plans@.len() - i,
    {
        let ghost before = notice_views(r@);
        proof {
            assert(all.take(i + 1).drop_last() == all.take(i as int));
            assert(all.take(i + 1)[i as int] == plans@[i as int]@);
        }
        let p = &plans[i];
        if !plan::contains_name(&applied, p.name.as_str()) {
            let standing = if exists[i] {
                Standing::Installed
            } else if cfg.allow_download && has_download_info(p.info.as_ref(), platform) {
                Standing::WillDownload
            } else {
                Standing::Missing
            };
            let notice = Notice {
                name: p.name.clone(),
                trigger: p.describe_trigger(),
                bin: layout.upgrade_bin(p.name.as_str()),
                standing,
            };
            let ghost said = notice@;
            r.push(notice);
            assert(notice_views(r@) =~= before.push(said));
        }
        i = i + 1;
    }
    assert(all.take(all.len() as int) == all);
    r
}

/// A pending plan is warned of exactly if there is nothing at its binary's place and it
/// will not be downloaded, because downloads are off or because the plan names nothing
/// for the platform.
pub proof fn warns_of_missing_binaries(
    plan: PlanView,
    layout: LayoutView,
    allow_download: bool,
    exists: bool,
    platform: Seq<char>,
)
    ensures
        notice_of(plan, layout, allow_download, exists, platform).standing == Standing::Missing
            <==> !exists && (!allow_download || !downloadable(plan.info, platform)),
{
}

} // verus!
