//! The shared data model: tasks, per-target monitor state, the events and
//! commands carried between foreground and monitor, and the view state.

use std::collections::VecDeque;
use vstd::prelude::*;
use crate::config::Target;

verus! {

/// Number of latency samples kept per target; the history never has more or
/// fewer elements.
pub const HISTORY_LEN: usize = 20;

/// The sentinel latency sample recorded for an offline target. Probes time
/// out after 500ms, so a measured sample can never reach this value.
pub const OFFLINE_SAMPLE: u128 = 999;

/// The value appended to a target's history on one tick: the measured
/// latency when the target is online, the offline sentinel otherwise.
pub open spec fn spec_history_sample(is_online: bool, latency: u128) -> u128 {
    if is_online {
        latency
    } else {
        OFFLINE_SAMPLE
    }
}

pub fn history_sample(is_online: bool, latency: u128) -> (r: u128)
    ensures
        r == spec_history_sample(is_online, latency),
{
    if is_online {
        latency
    } else {
        OFFLINE_SAMPLE
    }
}

/// Health state of one probe target, owned by the monitor; the foreground
/// only ever sees cloned snapshots.
pub struct ServerStatus {
    pub name: String,
    pub is_online: bool,
    pub latency: u128,
    pub history: VecDeque<u128>,
}

#[verifier::ext_equal]
pub ghost struct ServerStatusModel {
    pub name: Seq<char>,
    pub is_online: bool,
    pub latency: u128,
    pub history: Seq<u128>,
}

impl View for ServerStatus {
    type V = ServerStatusModel;

    open spec fn view(&self) -> ServerStatusModel {
        ServerStatusModel {
            name: self.name@,
            is_online: self.is_online,
            latency: self.latency,
            history: self.history@,
        }
    }
}

impl DeepView for ServerStatus {
    type V = ServerStatusModel;

    open spec fn deep_view(&self) -> ServerStatusModel {
        self.view()
    }
}

impl ServerStatus {
    /// The capacity invariant: the history holds exactly `HISTORY_LEN`
    /// samples.
    pub open spec fn wf(&self) -> bool {
        self.history@.len() == HISTORY_LEN
    }

    /// A fresh status: offline, zero latency, history filled with zeros.
    pub fn new(name: String) -> (r: ServerStatus)
        ensures
            r.wf(),
            r@.name == name@,
            r@.is_online == false,
            r@.latency == 0,
            r@.history =~= Seq::new(HISTORY_LEN as nat, |i: int| 0u128),
    {
        let mut history: VecDeque<u128> = VecDeque::new();
        let mut i: usize = 0;
        while i < HISTORY_LEN
            invariant
                0 <= i <= HISTORY_LEN,
                history@ =~= Seq::new(i as nat, |k: int| 0u128),
            decreases HISTORY_LEN - i,
        {
            history.push_back(0);
            i = i + 1;
        }
        ServerStatus { name, is_online: false, latency: 0, history }
    }

    /// Record one probe outcome: the status fields follow the probe
    /// directly, and the history advances FIFO by one sample, keeping its
    /// length invariant.
    pub fn apply_sample(&mut self, online: bool, latency: u128)
        requires
            old(self).wf(),
        ensures
            final(self).wf(),
            final(self)@.name == old(self)@.name,
            final(self)@.is_online == online,
            final(self)@.latency == latency,
            final(self)@.history == old(self)@.history.subrange(1, HISTORY_LEN as int).push(
                spec_history_sample(online, latency),
            ),
    {
        self.is_online = online;
        self.latency = latency;
        let sample = history_sample(online, latency);
        self.history.pop_front();
        self.history.push_back(sample);
        proof {
            assert(self.history@ =~= old(self).history@.subrange(1, HISTORY_LEN as int).push(
                spec_history_sample(online, latency),
            ));
        }
    }
}

impl Clone for ServerStatus {
    fn clone(&self) -> (r: Self)
        ensures
            r@ == self@,
    {
        let mut history: VecDeque<u128> = VecDeque::new();
        let mut i: usize = 0;
        let n = self.history.len();
        while i < n
            invariant
                0 <= i <= n,
                n == self.history@.len(),
                history@ =~= self.history@.subrange(0, i as int),
            decreases n - i,
        {
            history.push_back(self.history[i]);
            i = i + 1;
        }
        proof {
            assert(history@ =~= self.history@);
        }
        ServerStatus {
            name: self.name.clone(),
            is_online: self.is_online,
            latency: self.latency,
            history,
        }
    }
}

/// One task derived from the Todo text buffer, which stays authoritative;
/// `time` is the raw marker text, "HH:MM" when valid, or empty.
#[derive(Clone)]
pub struct Task {
    pub title: String,
    pub description: String,
    pub time: String,
    pub completed: bool,
}

#[verifier::ext_equal]
pub ghost struct TaskModel {
    pub title: Seq<char>,
    pub description: Seq<char>,
    pub time: Seq<char>,
    pub completed: bool,
}

impl View for Task {
    type V = TaskModel;

    open spec fn view(&self) -> TaskModel {
        TaskModel {
            title: self.title@,
            description: self.description@,
            time: self.time@,
            completed: self.completed,
        }
    }
}

impl DeepView for Task {
    type V = TaskModel;

    open spec fn deep_view(&self) -> TaskModel {
        self.view()
    }
}

/// A desktop-notification request: a descriptor only, delivered
/// fire-and-forget by the caller.
pub struct Notice {
    pub summary: String,
    pub body: String,
}

#[verifier::ext_equal]
pub ghost struct NoticeModel {
    pub summary: Seq<char>,
    pub body: Seq<char>,
}

impl View for Notice {
    type V = NoticeModel;

    open spec fn view(&self) -> NoticeModel {
        NoticeModel { summary: self.summary@, body: self.body@ }
    }
}

impl DeepView for Notice {
    type V = NoticeModel;

    open spec fn deep_view(&self) -> NoticeModel {
        self.view()
    }
}

/// An asynchronous result delivered into the foreground loop.
pub enum AppEvent {
    /// A fresh snapshot of every target's status.
    ServerUpdate(Vec<ServerStatus>),
    /// Text to append to the Logs buffer.
    LogOutput(String),
    /// A reminder fired for the task with this title; the foreground marks
    /// it completed in the authoritative text buffer.
    TaskCompleted(String),
}

#[verifier::ext_equal]
pub ghost enum AppEventModel {
    ServerUpdate(Seq<ServerStatusModel>),
    LogOutput(Seq<char>),
    TaskCompleted(Seq<char>),
}

impl View for AppEvent {
    type V = AppEventModel;

    open spec fn view(&self) -> AppEventModel {
        match self {
            AppEvent::ServerUpdate(s) => AppEventModel::ServerUpdate(s.deep_view()),
            AppEvent::LogOutput(s) => AppEventModel::LogOutput(s@),
            AppEvent::TaskCompleted(s) => AppEventModel::TaskCompleted(s@),
        }
    }
}

impl DeepView for AppEvent {
    type V = AppEventModel;

    open spec fn deep_view(&self) -> AppEventModel {
        self.view()
    }
}

/// A configuration update sent from the foreground to the monitor.
pub enum MonitorCommand {
    UpdateTargets(Vec<Target>),
    UpdateTasks(Vec<Task>),
}

#[verifier::ext_equal]
pub ghost enum MonitorCommandModel {
    UpdateTargets(Seq<crate::config::TargetModel>),
    UpdateTasks(Seq<TaskModel>),
}

impl View for MonitorCommand {
    type V = MonitorCommandModel;

    open spec fn view(&self) -> MonitorCommandModel {
        match self {
            MonitorCommand::UpdateTargets(t) => MonitorCommandModel::UpdateTargets(t.deep_view()),
            MonitorCommand::UpdateTasks(t) => MonitorCommandModel::UpdateTasks(t.deep_view()),
        }
    }
}

impl DeepView for MonitorCommand {
    type V = MonitorCommandModel;

    open spec fn deep_view(&self) -> MonitorCommandModel {
        self.view()
    }
}

/// The three editable text buffers.
#[derive(PartialEq, Eq, Structural, Copy, Clone, Debug)]
pub enum EditorMode {
    Notes,
    Todo,
    Logs,
}

/// The buffer's position in the foreground's buffer list.
pub open spec fn mode_index(m: EditorMode) -> int {
    match m {
        EditorMode::Notes => 0,
        EditorMode::Todo => 1,
        EditorMode::Logs => 2,
    }
}

impl EditorMode {
    pub fn index(self) -> (r: usize)
        ensures
            r as int == mode_index(self),
            r < 3,
    {
        match self {
            EditorMode::Notes => 0,
            EditorMode::Todo => 1,
            EditorMode::Logs => 2,
        }
    }
}

/// The three sequential steps of the task-creation wizard.
#[derive(PartialEq, Eq, Structural, Copy, Clone, Debug)]
pub enum WizardStep {
    Title,
    Description,
    Time,
}

/// What the foreground displays and how keystrokes are interpreted:
/// exactly one of these is active at a time.
pub enum ActiveView {
    Editor(EditorMode),
    Actions { selected: usize },
    InputPopup { command_idx: usize, input_buffer: String },
    Search { mode_return_to: EditorMode, query: String },
    TodoWizard { step: WizardStep, buffer: String, temp_title: String, temp_desc: String },
}

#[verifier::ext_equal]
pub ghost enum ActiveViewModel {
    Editor(EditorMode),
    Actions { selected: int },
    InputPopup { command_idx: int, input_buffer: Seq<char> },
    Search { mode_return_to: EditorMode, query: Seq<char> },
    TodoWizard { step: WizardStep, buffer: Seq<char>, temp_title: Seq<char>, temp_desc: Seq<char> },
}

impl View for ActiveView {
    type V = ActiveViewModel;

    open spec fn view(&self) -> ActiveViewModel {
        match self {
            ActiveView::Editor(m) => ActiveViewModel::Editor(*m),
            ActiveView::Actions { selected } => ActiveViewModel::Actions {
                selected: *selected as int,
            },
            ActiveView::InputPopup { command_idx, input_buffer } => ActiveViewModel::InputPopup {
                command_idx: *command_idx as int,
                input_buffer: input_buffer@,
            },
            ActiveView::Search { mode_return_to, query } => ActiveViewModel::Search {
                mode_return_to: *mode_return_to,
                query: query@,
            },
            ActiveView::TodoWizard { step, buffer, temp_title, temp_desc } => {
                ActiveViewModel::TodoWizard {
                    step: *step,
                    buffer: buffer@,
                    temp_title: temp_title@,
                    temp_desc: temp_desc@,
                }
            },
        }
    }
}

} // verus!
