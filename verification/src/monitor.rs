//! The background monitor's state and tick protocol, as pure decision
//! logic: the caller performs the probes, reads the clock, delivers the
//! events and notifications, and sleeps between ticks.

use vstd::prelude::*;
use vstd::pervasive::VecAdditionalExecFns;
use vstd::string::StringExecFns;
use crate::config::{Target, TargetModel};
use crate::text::str_eq;
use crate::types::{
    spec_history_sample, AppEvent, AppEventModel, MonitorCommand, MonitorCommandModel, Notice,
    NoticeModel, ServerStatus, ServerStatusModel, Task, TaskModel, HISTORY_LEN,
};

verus! {

/// The monitor's working state: its own copies of the target and task
/// lists, the per-target statuses and previous online flags (same index
/// as the targets), and the minute of the last reminder scan.
pub struct MonitorState {
    pub targets: Vec<Target>,
    pub tasks: Vec<Task>,
    pub statuses: Vec<ServerStatus>,
    pub prev_online: Vec<bool>,
    pub last_checked_minute: String,
}

#[verifier::ext_equal]
pub ghost struct MonitorStateModel {
    pub targets: Seq<TargetModel>,
    pub tasks: Seq<TaskModel>,
    pub statuses: Seq<ServerStatusModel>,
    pub prev_online: Seq<bool>,
    pub last_checked_minute: Seq<char>,
}

impl View for MonitorState {
    type V = MonitorStateModel;

    open spec fn view(&self) -> MonitorStateModel {
        MonitorStateModel {
            targets: self.targets.deep_view(),
            tasks: self.tasks.deep_view(),
            statuses: self.statuses.deep_view(),
            prev_online: self.prev_online.deep_view(),
            last_checked_minute: self.last_checked_minute@,
        }
    }
}

/// A fresh status model for one target: offline, zero latency, history
/// filled with zeros.
pub open spec fn fresh_status(name: Seq<char>) -> ServerStatusModel {
    ServerStatusModel {
        name: name,
        is_online: false,
        latency: 0,
        history: Seq::new(HISTORY_LEN as nat, |i: int| 0u128),
    }
}

/// The statuses the monitor starts with for a target list.
pub open spec fn fresh_statuses(targets: Seq<TargetModel>) -> Seq<ServerStatusModel> {
    Seq::new(targets.len(), |i: int| fresh_status(targets[i].name))
}

impl MonitorState {
    /// One status and one previous-online flag per target, and statuses
    /// keep their target's name and the history-capacity invariant.
    pub open spec fn wf(&self) -> bool {
        &&& self@.statuses.len() == self@.targets.len()
        &&& self@.prev_online.len() == self@.targets.len()
        &&& forall|i: int|
            0 <= i < self@.statuses.len() ==> (#[trigger] self@.statuses[i]).history.len()
                == HISTORY_LEN
        &&& forall|i: int|
            0 <= i < self@.statuses.len() ==> (#[trigger] self@.statuses[i]).name
                == self@.targets[i].name
    }

    /// Start the monitor on the initial target and task lists. Every
    /// target starts with a fresh status and is presumed online, so a
    /// target that fails its very first probe raises the offline alert.
    pub fn new(targets: Vec<Target>, tasks: Vec<Task>) -> (r: MonitorState)
        ensures
            r.wf(),
            r@.targets == targets.deep_view(),
            r@.tasks == tasks.deep_view(),
            r@.statuses == fresh_statuses(targets.deep_view()),
            r@.prev_online == Seq::new(targets.deep_view().len(), |i: int| true),
            r@.last_checked_minute == Seq::<char>::empty(),
    {
        let (statuses, prev_online) = fresh_state_vecs(&targets);
        MonitorState { targets, tasks, statuses, prev_online, last_checked_minute: String::new() }
    }

    /// Apply one configuration update: a new target list resets every
    /// status (fresh histories, presumed online); a new task list only
    /// replaces the reminder snapshot.
    pub fn apply_command(&mut self, cmd: MonitorCommand)
        requires
            old(self).wf(),
        ensures
            final(self).wf(),
            final(self)@ == apply_command_model(old(self)@, cmd@),
    {
        match cmd {
            MonitorCommand::UpdateTargets(new_targets) => {
                let (statuses, prev_online) = fresh_state_vecs(&new_targets);
                self.targets = new_targets;
                self.statuses = statuses;
                self.prev_online = prev_online;
                proof {
                    assert(self@ =~= apply_command_model(old(self)@, cmd@));
                }
            },
            MonitorCommand::UpdateTasks(new_tasks) => {
                self.tasks = new_tasks;
                proof {
                    assert(self@ =~= apply_command_model(old(self)@, cmd@));
                }
            },
        }
    }
}

/// The model of `apply_command`.
pub open spec fn apply_command_model(
    m: MonitorStateModel,
    cmd: MonitorCommandModel,
) -> MonitorStateModel {
    match cmd {
        MonitorCommandModel::UpdateTargets(ts) => MonitorStateModel {
            targets: ts,
            statuses: fresh_statuses(ts),
            prev_online: Seq::new(ts.len(), |i: int| true),
            ..m
        },
        MonitorCommandModel::UpdateTasks(ts) => MonitorStateModel { tasks: ts, ..m },
    }
}

/// Folding a whole batch of updates, in arrival order.
pub open spec fn apply_commands_model(
    m: MonitorStateModel,
    cmds: Seq<MonitorCommandModel>,
) -> MonitorStateModel
    decreases cmds.len(),
{
    if cmds.len() == 0 {
        m
    } else {
        apply_commands_model(apply_command_model(m, cmds[0]), cmds.subrange(1, cmds.len() as int))
    }
}

/// The payload of the last target update in the batch, if any: a later
/// update takes priority over an earlier one.
pub open spec fn last_update_targets(cmds: Seq<MonitorCommandModel>) -> Option<Seq<TargetModel>>
    decreases cmds.len(),
{
    if cmds.len() == 0 {
        None
    } else {
        match last_update_targets(cmds.subrange(1, cmds.len() as int)) {
            Some(ts) => Some(ts),
            None => match cmds[0] {
                MonitorCommandModel::UpdateTargets(ts) => Some(ts),
                MonitorCommandModel::UpdateTasks(_) => None,
            },
        }
    }
}

/// The payload of the last task update in the batch, if any.
pub open spec fn last_update_tasks(cmds: Seq<MonitorCommandModel>) -> Option<Seq<TaskModel>>
    decreases cmds.len(),
{
    if cmds.len() == 0 {
        None
    } else {
        match last_update_tasks(cmds.subrange(1, cmds.len() as int)) {
            Some(ts) => Some(ts),
            None => match cmds[0] {
                MonitorCommandModel::UpdateTasks(ts) => Some(ts),
                MonitorCommandModel::UpdateTargets(_) => None,
            },
        }
    }
}

/// Last write wins: draining a batch of configuration updates leaves the
/// monitor on the most recent target list and the most recent task list
/// received, each kind independently.
pub proof fn lemma_drain_last_write_wins(m: MonitorStateModel, cmds: Seq<MonitorCommandModel>)
    ensures
        apply_commands_model(m, cmds).targets == match last_update_targets(cmds) {
            Some(ts) => ts,
            None => m.targets,
        },
        apply_commands_model(m, cmds).tasks == match last_update_tasks(cmds) {
            Some(ts) => ts,
            None => m.tasks,
        },
    decreases cmds.len(),
{
    if cmds.len() > 0 {
        let m1 = apply_command_model(m, cmds[0]);
        let rest = cmds.subrange(1, cmds.len() as int);
        lemma_drain_last_write_wins(m1, rest);
    }
}

/// The names of the targets, in order.
pub open spec fn target_names(ts: Seq<TargetModel>) -> Seq<Seq<char>> {
    Seq::new(ts.len(), |i: int| ts[i].name)
}

/// The log line emitted when a target goes offline.
pub open spec fn spec_offline_log(now_hms: Seq<char>, name: Seq<char>) -> Seq<char> {
    "["@ + now_hms + "] ALERT: Server '"@ + name + "' went OFFLINE!"@
}

/// The log line emitted when a target comes back online.
pub open spec fn spec_online_log(now_hms: Seq<char>, name: Seq<char>) -> Seq<char> {
    "["@ + now_hms + "] INFO: Server '"@ + name + "' is back ONLINE."@
}

/// The urgent notification fired when a target goes offline.
pub open spec fn spec_down_notice(name: Seq<char>) -> NoticeModel {
    NoticeModel { summary: "SERVER DOWN"@, body: "Server '"@ + name + "' stopped responding."@ }
}

/// The notification fired when a task's reminder time is reached.
pub open spec fn spec_reminder_notice(t: TaskModel) -> NoticeModel {
    NoticeModel { summary: "Reminder: "@ + t.title, body: t.description }
}

/// The log events target `i` contributes on one tick: one line when its
/// status flipped in either direction, none otherwise.
pub open spec fn flip_log_at(
    prev: Seq<bool>,
    probes: Seq<(bool, u128)>,
    names: Seq<Seq<char>>,
    now_hms: Seq<char>,
    i: int,
) -> Seq<AppEventModel> {
    if prev[i] && !probes[i].0 {
        seq![AppEventModel::LogOutput(spec_offline_log(now_hms, names[i]))]
    } else if !prev[i] && probes[i].0 {
        seq![AppEventModel::LogOutput(spec_online_log(now_hms, names[i]))]
    } else {
        seq![]
    }
}

/// The notifications target `i` contributes on one tick: exactly one on an
/// online-to-offline flip, none otherwise (the reverse flip only logs).
pub open spec fn flip_notice_at(
    prev: Seq<bool>,
    probes: Seq<(bool, u128)>,
    names: Seq<Seq<char>>,
    i: int,
) -> Seq<NoticeModel> {
    if prev[i] && !probes[i].0 {
        seq![spec_down_notice(names[i])]
    } else {
        seq![]
    }
}

/// All transition log events from target `i` on, in target order.
pub open spec fn flip_logs_from(
    prev: Seq<bool>,
    probes: Seq<(bool, u128)>,
    names: Seq<Seq<char>>,
    now_hms: Seq<char>,
    i: int,
) -> Seq<AppEventModel>
    decreases names.len() - i,
{
    if 0 <= i < names.len() {
        flip_log_at(prev, probes, names, now_hms, i) + flip_logs_from(
            prev,
            probes,
            names,
            now_hms,
            i + 1,
        )
    } else {
        seq![]
    }
}

/// All transition notifications from target `i` on, in target order.
pub open spec fn flip_notices_from(
    prev: Seq<bool>,
    probes: Seq<(bool, u128)>,
    names: Seq<Seq<char>>,
    i: int,
) -> Seq<NoticeModel>
    decreases names.len() - i,
{
    if 0 <= i < names.len() {
        flip_notice_at(prev, probes, names, i) + flip_notices_from(prev, probes, names, i + 1)
    } else {
        seq![]
    }
}

/// A status transition produces exactly one log event when the online
/// flag flipped in either direction, and exactly one notification when it
/// went from online to offline: the reverse transition, and a tick without
/// a flip, notify nobody.
pub proof fn lemma_transition_alert_counts(
    prev: Seq<bool>,
    probes: Seq<(bool, u128)>,
    names: Seq<Seq<char>>,
    now_hms: Seq<char>,
    i: int,
)
    requires
        0 <= i < names.len(),
    ensures
        flip_log_at(prev, probes, names, now_hms, i).len() == if prev[i] != probes[i].0 {
            1int
        } else {
            0int
        },
        flip_notice_at(prev, probes, names, i).len() == if prev[i] && !probes[i].0 {
            1int
        } else {
            0int
        },
{
}

/// Whether a task's reminder fires at this minute.
pub open spec fn task_due(t: TaskModel, now_hhmm: Seq<char>) -> bool {
    !t.completed && t.time.len() > 0 && t.time == now_hhmm
}

/// The task-fired events from task `i` on, in task order.
pub open spec fn reminder_events_from(
    tasks: Seq<TaskModel>,
    now_hhmm: Seq<char>,
    i: int,
) -> Seq<AppEventModel>
    decreases tasks.len() - i,
{
    if 0 <= i < tasks.len() {
        (if task_due(tasks[i], now_hhmm) {
            seq![AppEventModel::TaskCompleted(tasks[i].title)]
        } else {
            seq![]
        }) + reminder_events_from(tasks, now_hhmm, i + 1)
    } else {
        seq![]
    }
}

/// The reminder notifications from task `i` on, in task order.
pub open spec fn reminder_notices_from(
    tasks: Seq<TaskModel>,
    now_hhmm: Seq<char>,
    i: int,
) -> Seq<NoticeModel>
    decreases tasks.len() - i,
{
    if 0 <= i < tasks.len() {
        (if task_due(tasks[i], now_hhmm) {
            seq![spec_reminder_notice(tasks[i])]
        } else {
            seq![]
        }) + reminder_notices_from(tasks, now_hhmm, i + 1)
    } else {
        seq![]
    }
}

/// One status after one probe: the online flag and latency follow the
/// probe directly (a single failed probe flips the status to offline with
/// no debouncing), and the history advances FIFO by one sample.
pub open spec fn tick_status(st: ServerStatusModel, probe: (bool, u128)) -> ServerStatusModel {
    ServerStatusModel {
        name: st.name,
        is_online: probe.0,
        latency: probe.1,
        history: st.history.subrange(1, st.history.len() as int).push(
            spec_history_sample(probe.0, probe.1),
        ),
    }
}

/// One failed or timed-out probe flips the status to offline immediately:
/// there is no debouncing window, and the recorded sample is then exactly
/// the offline sentinel.
pub proof fn lemma_single_failed_probe_flips(st: ServerStatusModel, probe: (bool, u128))
    requires
        st.history.len() == HISTORY_LEN,
    ensures
        !probe.0 ==> !tick_status(st, probe).is_online,
        !probe.0 ==> tick_status(st, probe).history.last() == crate::types::OFFLINE_SAMPLE,
        probe.0 ==> tick_status(st, probe).is_online && tick_status(st, probe).history.last()
            == probe.1,
{
}

/// All statuses after one probe round.
pub open spec fn tick_statuses(
    sts: Seq<ServerStatusModel>,
    probes: Seq<(bool, u128)>,
) -> Seq<ServerStatusModel> {
    Seq::new(sts.len(), |i: int| tick_status(sts[i], probes[i]))
}

/// The events one tick emits, in order: the transition log lines, then one
/// aggregated status snapshot, then (only when the wall-clock minute
/// changed) one task-fired event per due task.
pub open spec fn spec_tick_events(
    m: MonitorStateModel,
    probes: Seq<(bool, u128)>,
    now_hms: Seq<char>,
    now_hhmm: Seq<char>,
) -> Seq<AppEventModel> {
    flip_logs_from(m.prev_online, probes, target_names(m.targets), now_hms, 0) + seq![
        AppEventModel::ServerUpdate(tick_statuses(m.statuses, probes)),
    ] + if now_hhmm != m.last_checked_minute {
        reminder_events_from(m.tasks, now_hhmm, 0)
    } else {
        seq![]
    }
}

/// The notifications one tick fires: one per online-to-offline flip, then
/// (only on a minute change) one per due task.
pub open spec fn spec_tick_notices(
    m: MonitorStateModel,
    probes: Seq<(bool, u128)>,
    now_hhmm: Seq<char>,
) -> Seq<NoticeModel> {
    flip_notices_from(m.prev_online, probes, target_names(m.targets), 0)
        + if now_hhmm != m.last_checked_minute {
        reminder_notices_from(m.tasks, now_hhmm, 0)
    } else {
        seq![]
    }
}

fn offline_log_msg(now_hms: &str, name: &str) -> (r: String)
    ensures
        r@ == spec_offline_log(now_hms@, name@),
{
    let mut s = String::new();
    s.append("[");
    s.append(now_hms);
    s.append("] ALERT: Server '");
    s.append(name);
    s.append("' went OFFLINE!");
    proof {
        assert(s@ =~= spec_offline_log(now_hms@, name@));
    }
    s
}

fn online_log_msg(now_hms: &str, name: &str) -> (r: String)
    ensures
        r@ == spec_online_log(now_hms@, name@),
{
    let mut s = String::new();
    s.append("[");
    s.append(now_hms);
    s.append("] INFO: Server '");
    s.append(name);
    s.append("' is back ONLINE.");
    proof {
        assert(s@ =~= spec_online_log(now_hms@, name@));
    }
    s
}

fn down_notice(name: &str) -> (r: Notice)
    ensures
        r@ == spec_down_notice(name@),
{
    let mut body = String::new();
    body.append("Server '");
    body.append(name);
    body.append("' stopped responding.");
    let summary = String::from_str("SERVER DOWN");
    proof {
        assert(body@ =~= spec_down_notice(name@).body);
    }
    Notice { summary, body }
}

fn reminder_notice(task: &Task) -> (r: Notice)
    ensures
        r@ == spec_reminder_notice(task@),
{
    let mut summary = String::new();
    summary.append("Reminder: ");
    summary.append(task.title.as_str());
    proof {
        assert(summary@ =~= spec_reminder_notice(task@).summary);
    }
    Notice { summary, body: task.description.clone() }
}

impl MonitorState {
    /// One monitor tick, given the probe outcomes for every current target
    /// (in target order) and the wall clock formatted as "HH:MM:SS" and
    /// "HH:MM". Updates every status and the previous-online flags, and
    /// returns the events and the notifications to deliver, exactly as the
    /// tick models prescribe.
    pub fn tick(&mut self, probes: &Vec<(bool, u128)>, now_hms: &str, now_hhmm: &str) -> (out: (
        Vec<AppEvent>,
        Vec<Notice>,
    ))
        requires
            old(self).wf(),
            probes@.len() == old(self)@.targets.len(),
        ensures
            final(self).wf(),
            final(self)@.targets == old(self)@.targets,
            final(self)@.tasks == old(self)@.tasks,
            final(self)@.statuses == tick_statuses(old(self)@.statuses, probes@),
            final(self)@.prev_online == Seq::new(probes@.len(), |i: int| probes@[i].0),
            final(self)@.last_checked_minute == now_hhmm@,
            out.0.deep_view() == spec_tick_events(old(self)@, probes@, now_hms@, now_hhmm@),
            out.1.deep_view() == spec_tick_notices(old(self)@, probes@, now_hhmm@),
    {
        let ghost m0 = old(self)@;
        let ghost names = target_names(m0.targets);
        let ghost all_logs = flip_logs_from(m0.prev_online, probes@, names, now_hms@, 0);
        let ghost all_notices = flip_notices_from(m0.prev_online, probes@, names, 0);
        let n = self.targets.len();
        let mut events: Vec<AppEvent> = Vec::new();
        let mut notices: Vec<Notice> = Vec::new();
        proof {
            assert(events.deep_view() + all_logs =~= all_logs);
            assert(notices.deep_view() + all_notices =~= all_notices);
        }
        let mut i: usize = 0;
        while i < n
            invariant
                0 <= i <= n,
                n == m0.targets.len(),
                n == self.targets@.len(),
                probes@.len() == n,
                self@.targets == m0.targets,
                self@.tasks == m0.tasks,
                self@.last_checked_minute == m0.last_checked_minute,
                self.statuses@.len() == n,
                self.prev_online@.len() == n,
                names == target_names(m0.targets),
                all_logs == flip_logs_from(m0.prev_online, probes@, names, now_hms@, 0),
                all_notices == flip_notices_from(m0.prev_online, probes@, names, 0),
                forall|k: int|
                    0 <= k < n ==> (#[trigger] m0.statuses[k]).history.len() == HISTORY_LEN,
                forall|k: int| 0 <= k < n ==> (#[trigger] m0.statuses[k]).name == m0.targets[k].name,
                forall|k: int|
                    0 <= k < i ==> (#[trigger] self.statuses@[k])@ == tick_status(
                        m0.statuses[k],
                        probes@[k],
                    ),
                forall|k: int| i <= k < n ==> (#[trigger] self.statuses@[k])@ == m0.statuses[k],
                forall|k: int| 0 <= k < i ==> self.prev_online@[k] == probes@[k].0,
                forall|k: int| i <= k < n ==> self.prev_online@[k] == m0.prev_online[k],
                events.deep_view() + flip_logs_from(m0.prev_online, probes@, names, now_hms@, i as int)
                    == all_logs,
                notices.deep_view() + flip_notices_from(m0.prev_online, probes@, names, i as int)
                    == all_notices,
            decreases n - i,
        {
            let ghost ev0 = events.deep_view();
            let ghost no0 = notices.deep_view();
            let online = probes[i].0;
            let lat = probes[i].1;
            let prev = self.prev_online[i];
            let mut st = self.statuses[i].clone();
            st.apply_sample(online, lat);
            proof {
                assert(st@ =~~= tick_status(m0.statuses[i as int], probes@[i as int]));
            }
            self.statuses.set(i, st);
            if prev && !online {
                let msg = offline_log_msg(now_hms, self.targets[i].name.as_str());
                events.push(AppEvent::LogOutput(msg));
                notices.push(down_notice(self.targets[i].name.as_str()));
                proof {
                    assert(events.deep_view() =~= ev0 + flip_log_at(
                        m0.prev_online,
                        probes@,
                        names,
                        now_hms@,
                        i as int,
                    ));
                    assert(notices.deep_view() =~= no0 + flip_notice_at(
                        m0.prev_online,
                        probes@,
                        names,
                        i as int,
                    ));
                }
            } else if !prev && online {
                let msg = online_log_msg(now_hms, self.targets[i].name.as_str());
                events.push(AppEvent::LogOutput(msg));
                proof {
                    assert(events.deep_view() =~= ev0 + flip_log_at(
                        m0.prev_online,
                        probes@,
                        names,
                        now_hms@,
                        i as int,
                    ));
                    assert(notices.deep_view() =~= no0 + flip_notice_at(
                        m0.prev_online,
                        probes@,
                        names,
                        i as int,
                    ));
                }
            } else {
                proof {
                    assert(events.deep_view() =~= ev0 + flip_log_at(
                        m0.prev_online,
                        probes@,
                        names,
                        now_hms@,
                        i as int,
                    ));
                    assert(notices.deep_view() =~= no0 + flip_notice_at(
                        m0.prev_online,
                        probes@,
                        names,
                        i as int,
                    ));
                }
            }
            self.prev_online.set(i, online);
            proof {
                assert(flip_logs_from(m0.prev_online, probes@, names, now_hms@, i as int)
                    == flip_log_at(m0.prev_online, probes@, names, now_hms@, i as int)
                    + flip_logs_from(m0.prev_online, probes@, names, now_hms@, i as int + 1));
                assert(events.deep_view() + flip_logs_from(
                    m0.prev_online,
                    probes@,
                    names,
                    now_hms@,
                    i as int + 1,
                ) =~= all_logs);
                assert(notices.deep_view() + flip_notices_from(
                    m0.prev_online,
                    probes@,
                    names,
                    i as int + 1,
                ) =~= all_notices);
            }
            i = i + 1;
        }
        proof {
            assert(flip_logs_from(m0.prev_online, probes@, names, now_hms@, n as int)
                == Seq::<AppEventModel>::empty());
            assert(events.deep_view() =~= all_logs);
            assert(flip_notices_from(m0.prev_online, probes@, names, n as int)
                == Seq::<NoticeModel>::empty());
            assert(notices.deep_view() =~= all_notices);
        }
        let snap = clone_statuses(&self.statuses);
        proof {
            assert(snap.deep_view() =~~= tick_statuses(m0.statuses, probes@));
        }
        events.push(AppEvent::ServerUpdate(snap));
        proof {
            assert(events.deep_view() =~~= all_logs + seq![
                AppEventModel::ServerUpdate(tick_statuses(m0.statuses, probes@)),
            ]);
        }
        let changed = !str_eq(now_hhmm, self.last_checked_minute.as_str());
        if changed {
            let ghost all_rev = reminder_events_from(m0.tasks, now_hhmm@, 0);
            let ghost all_rno = reminder_notices_from(m0.tasks, now_hhmm@, 0);
            let ghost ev2 = events.deep_view();
            let ghost no2 = notices.deep_view();
            let tn = self.tasks.len();
            let mut j: usize = 0;
            while j < tn
                invariant
                    0 <= j <= tn,
                    tn == m0.tasks.len(),
                    tn == self.tasks@.len(),
                    self@.tasks == m0.tasks,
                    all_rev == reminder_events_from(m0.tasks, now_hhmm@, 0),
                    all_rno == reminder_notices_from(m0.tasks, now_hhmm@, 0),
                    events.deep_view() + reminder_events_from(m0.tasks, now_hhmm@, j as int) == ev2
                        + all_rev,
                    notices.deep_view() + reminder_notices_from(m0.tasks, now_hhmm@, j as int)
                        == no2 + all_rno,
                decreases tn - j,
            {
                let ghost ev0 = events.deep_view();
                let ghost no0 = notices.deep_view();
                let due = !self.tasks[j].completed && !self.tasks[j].time.as_str().is_empty()
                    && str_eq(self.tasks[j].time.as_str(), now_hhmm);
                proof {
                    assert(due == task_due(m0.tasks[j as int], now_hhmm@));
                }
                if due {
                    let notice = reminder_notice(&self.tasks[j]);
                    notices.push(notice);
                    let title = self.tasks[j].title.clone();
                    events.push(AppEvent::TaskCompleted(title));
                }
                proof {
                    if due {
                        assert(events.deep_view() =~= ev0 + seq![
                            AppEventModel::TaskCompleted(m0.tasks[j as int].title),
                        ]);
                        assert(notices.deep_view() =~= no0 + seq![
                            spec_reminder_notice(m0.tasks[j as int]),
                        ]);
                    }
                    assert(reminder_events_from(m0.tasks, now_hhmm@, j as int) == (if task_due(
                        m0.tasks[j as int],
                        now_hhmm@,
                    ) {
                        seq![AppEventModel::TaskCompleted(m0.tasks[j as int].title)]
                    } else {
                        seq![]
                    }) + reminder_events_from(m0.tasks, now_hhmm@, j as int + 1));
                    assert(events.deep_view() + reminder_events_from(
                        m0.tasks,
                        now_hhmm@,
                        j as int + 1,
                    ) =~= ev2 + all_rev);
                    assert(notices.deep_view() + reminder_notices_from(
                        m0.tasks,
                        now_hhmm@,
                        j as int + 1,
                    ) =~= no2 + all_rno);
                }
                j = j + 1;
            }
            self.last_checked_minute = now_hhmm.to_owned();
            proof {
                assert(reminder_events_from(m0.tasks, now_hhmm@, tn as int)
                    == Seq::<AppEventModel>::empty());
                assert(reminder_notices_from(m0.tasks, now_hhmm@, tn as int)
                    == Seq::<NoticeModel>::empty());
                assert(events.deep_view() =~= ev2 + all_rev);
                assert(notices.deep_view() =~= no2 + all_rno);
                assert(events.deep_view() =~= spec_tick_events(m0, probes@, now_hms@, now_hhmm@));
                assert(notices.deep_view() =~= spec_tick_notices(m0, probes@, now_hhmm@));
            }
        } else {
            proof {
                assert(now_hhmm@ == m0.last_checked_minute);
                assert(events.deep_view() =~= spec_tick_events(m0, probes@, now_hms@, now_hhmm@));
                assert(notices.deep_view() =~= spec_tick_notices(m0, probes@, now_hhmm@));
            }
        }
        proof {
            assert(self@.statuses =~~= tick_statuses(m0.statuses, probes@));
            assert(self@.prev_online =~= Seq::new(probes@.len(), |k: int| probes@[k].0));
        }
        (events, notices)
    }
}

/// A field-for-field copy of every status, for the aggregated snapshot
/// event: the foreground receives clones, never the monitor's own values.
fn clone_statuses(statuses: &Vec<ServerStatus>) -> (r: Vec<ServerStatus>)
    ensures
        r.deep_view() == statuses.deep_view(),
{
    let n = statuses.len();
    let mut out: Vec<ServerStatus> = Vec::new();
    let mut i: usize = 0;
    while i < n
        invariant
            0 <= i <= n,
            n == statuses@.len(),
            out@.len() == i,
            forall|k: int| 0 <= k < i ==> (#[trigger] out@[k])@ == statuses@[k]@,
        decreases n - i,
    {
        let st = statuses[i].clone();
        out.push(st);
        i = i + 1;
    }
    proof {
        assert(out.deep_view() =~~= statuses.deep_view());
    }
    out
}

/// Build the fresh status and previous-online vectors for a target list.
fn fresh_state_vecs(targets: &Vec<Target>) -> (r: (Vec<ServerStatus>, Vec<bool>))
    ensures
        r.0.deep_view() == fresh_statuses(targets.deep_view()),
        r.1.deep_view() == Seq::new(targets.deep_view().len(), |i: int| true),
        forall|i: int| 0 <= i < r.0.deep_view().len() ==> (#[trigger] r.0.deep_view()[i]).history.len()
            == HISTORY_LEN,
{
    let n = targets.len();
    let mut statuses: Vec<ServerStatus> = Vec::new();
    let mut prev_online: Vec<bool> = Vec::new();
    let mut i: usize = 0;
    while i < n
        invariant
            0 <= i <= n,
            n == targets.deep_view().len(),
            n == targets@.len(),
            statuses@.len() == i,
            prev_online@.len() == i,
            forall|k: int|
                0 <= k < i ==> (#[trigger] statuses@[k])@ =~~= fresh_statuses(
                    targets.deep_view(),
                )[k],
            forall|k: int| 0 <= k < i ==> prev_online@[k] == true,
        decreases n - i,
    {
        let st = ServerStatus::new(targets[i].name.clone());
        proof {
            assert(st@ =~~= fresh_statuses(targets.deep_view())[i as int]);
        }
        statuses.push(st);
        prev_online.push(true);
        i = i + 1;
    }
    proof {
        assert(statuses.deep_view() =~~= fresh_statuses(targets.deep_view()));
        assert(prev_online.deep_view() =~= Seq::new(targets.deep_view().len(), |k: int| true));
    }
    (statuses, prev_online)
}

} // verus!
