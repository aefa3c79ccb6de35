//! The view state machine: a pure transition function from the active view
//! and one decoded input to the next view plus side-effect descriptors.
//! The caller decodes raw key events into `InputEvent`s, performs the
//! effects (buffer edits, searches, command launches, appends) and owns
//! the rendering; every mode change is decided here.

use vstd::prelude::*;
use crate::config::{AdminCommand, AdminCommandModel};
use crate::codec::spec_render_task;
use crate::codec::render_task;
use crate::runner::{has_placeholder, spec_has_placeholder, spec_substitute, substitute_args};
use crate::text::{pop_char, push_char, spec_trim, trim_str};
use crate::types::{ActiveView, ActiveViewModel, EditorMode, Task, TaskModel, WizardStep};
use crate::utils::{is_valid_time, spec_valid_time};

verus! {

/// One decoded key input, as the dispatcher understands it. The caller
/// maps raw key events (with their modifiers) to these.
pub enum InputEvent {
    /// The global quit combination.
    Quit,
    /// The global open-task-wizard combination.
    OpenWizard,
    Esc,
    Enter,
    Tab,
    Up,
    Down,
    Backspace,
    Char(char),
    /// Bracketed paste into the active editor.
    Paste(String),
    /// Jump straight to one editor buffer.
    SwitchEditor(EditorMode),
    /// Open incremental search over the active buffer.
    OpenSearch,
    Copy,
    Cut,
    PasteClipboard,
    Undo,
    Redo,
    SelectAll,
    WordLeft,
    WordRight,
    SelectWordLeft,
    SelectWordRight,
    DeleteWord,
    /// A plain cursor-movement key, forwarded to the active editor.
    NavKey,
    /// Any other editing key (such as Delete), forwarded to the editor.
    EditKey,
}

#[verifier::ext_equal]
pub ghost enum InputModel {
    Quit,
    OpenWizard,
    Esc,
    Enter,
    Tab,
    Up,
    Down,
    Backspace,
    Char(char),
    Paste(Seq<char>),
    SwitchEditor(EditorMode),
    OpenSearch,
    Copy,
    Cut,
    PasteClipboard,
    Undo,
    Redo,
    SelectAll,
    WordLeft,
    WordRight,
    SelectWordLeft,
    SelectWordRight,
    DeleteWord,
    NavKey,
    EditKey,
}

impl View for InputEvent {
    type V = InputModel;

    open spec fn view(&self) -> InputModel {
        match self {
            InputEvent::Quit => InputModel::Quit,
            InputEvent::OpenWizard => InputModel::OpenWizard,
            InputEvent::Esc => InputModel::Esc,
            InputEvent::Enter => InputModel::Enter,
            InputEvent::Tab => InputModel::Tab,
            InputEvent::Up => InputModel::Up,
            InputEvent::Down => InputModel::Down,
            InputEvent::Backspace => InputModel::Backspace,
            InputEvent::Char(c) => InputModel::Char(*c),
            InputEvent::Paste(s) => InputModel::Paste(s@),
            InputEvent::SwitchEditor(m) => InputModel::SwitchEditor(*m),
            InputEvent::OpenSearch => InputModel::OpenSearch,
            InputEvent::Copy => InputModel::Copy,
            InputEvent::Cut => InputModel::Cut,
            InputEvent::PasteClipboard => InputModel::PasteClipboard,
            InputEvent::Undo => InputModel::Undo,
            InputEvent::Redo => InputModel::Redo,
            InputEvent::SelectAll => InputModel::SelectAll,
            InputEvent::WordLeft => InputModel::WordLeft,
            InputEvent::WordRight => InputModel::WordRight,
            InputEvent::SelectWordLeft => InputModel::SelectWordLeft,
            InputEvent::SelectWordRight => InputModel::SelectWordRight,
            InputEvent::DeleteWord => InputModel::DeleteWord,
            InputEvent::NavKey => InputModel::NavKey,
            InputEvent::EditKey => InputModel::EditKey,
        }
    }
}

/// A structural editor operation the caller applies to a buffer's
/// textarea.
#[derive(PartialEq, Eq, Structural, Copy, Clone, Debug)]
pub enum EditorOp {
    Copy,
    Cut,
    PasteClipboard,
    Undo,
    Redo,
    SelectAll,
    WordLeft,
    WordRight,
    SelectWordLeft,
    SelectWordRight,
    DeleteWord,
}

/// Whether an editor operation changes the buffer, so the caller must mark
/// it dirty.
pub open spec fn spec_op_edits(op: EditorOp) -> bool {
    match op {
        EditorOp::Cut => true,
        EditorOp::PasteClipboard => true,
        EditorOp::Undo => true,
        EditorOp::Redo => true,
        EditorOp::DeleteWord => true,
        _ => false,
    }
}

pub fn op_marks_dirty(op: EditorOp) -> (r: bool)
    ensures
        r == spec_op_edits(op),
{
    match op {
        EditorOp::Cut => true,
        EditorOp::PasteClipboard => true,
        EditorOp::Undo => true,
        EditorOp::Redo => true,
        EditorOp::DeleteWord => true,
        _ => false,
    }
}

/// A side effect the transition asks the caller to perform.
pub enum Effect {
    /// Save every dirty buffer and leave the session.
    QuitApp,
    /// Forward the raw key to this buffer's textarea; `edit` means the
    /// buffer changes and must be marked dirty.
    Forward { buffer: EditorMode, edit: bool },
    /// Insert pasted text into this buffer and mark it dirty.
    Insert { buffer: EditorMode, text: String },
    /// Apply a structural editor operation to this buffer; see
    /// `op_marks_dirty` for whether it dirties the buffer.
    EditorOp { buffer: EditorMode, op: EditorOp },
    /// Set this buffer's live search pattern to the query.
    SetSearch { buffer: EditorMode, query: String },
    /// Jump to the next forward match in this buffer.
    SearchNext { buffer: EditorMode },
    /// Clear this buffer's search pattern.
    ClearSearch { buffer: EditorMode },
    /// Launch the command at this index with these final arguments and
    /// deliver its output as a log event.
    RunCommand { command_idx: usize, args: Vec<String> },
    /// Append this rendered task block to the Todo buffer and mark it
    /// dirty.
    AppendTodo { text: String },
}

#[verifier::ext_equal]
pub ghost enum EffectModel {
    QuitApp,
    Forward { buffer: EditorMode, edit: bool },
    Insert { buffer: EditorMode, text: Seq<char> },
    EditorOp { buffer: EditorMode, op: EditorOp },
    SetSearch { buffer: EditorMode, query: Seq<char> },
    SearchNext { buffer: EditorMode },
    ClearSearch { buffer: EditorMode },
    RunCommand { command_idx: int, args: Seq<Seq<char>> },
    AppendTodo { text: Seq<char> },
}

impl View for Effect {
    type V = EffectModel;

    open spec fn view(&self) -> EffectModel {
        match self {
            Effect::QuitApp => EffectModel::QuitApp,
            Effect::Forward { buffer, edit } => EffectModel::Forward {
                buffer: *buffer,
                edit: *edit,
            },
            Effect::Insert { buffer, text } => EffectModel::Insert {
                buffer: *buffer,
                text: text@,
            },
            Effect::EditorOp { buffer, op } => EffectModel::EditorOp { buffer: *buffer, op: *op },
            Effect::SetSearch { buffer, query } => EffectModel::SetSearch {
                buffer: *buffer,
                query: query@,
            },
            Effect::SearchNext { buffer } => EffectModel::SearchNext { buffer: *buffer },
            Effect::ClearSearch { buffer } => EffectModel::ClearSearch { buffer: *buffer },
            Effect::RunCommand { command_idx, args } => EffectModel::RunCommand {
                command_idx: *command_idx as int,
                args: args.deep_view(),
            },
            Effect::AppendTodo { text } => EffectModel::AppendTodo { text: text@ },
        }
    }
}

impl DeepView for Effect {
    type V = EffectModel;

    open spec fn deep_view(&self) -> EffectModel {
        self.view()
    }
}

/// The wizard as the global shortcut opens it: at the title step with
/// everything empty.
pub open spec fn wizard_fresh() -> ActiveViewModel {
    ActiveViewModel::TodoWizard {
        step: WizardStep::Title,
        buffer: Seq::empty(),
        temp_title: Seq::empty(),
        temp_desc: Seq::empty(),
    }
}

/// The buffer after a backspace: one character shorter, or still empty.
pub open spec fn pop_model(s: Seq<char>) -> Seq<char> {
    if s.len() > 0 {
        s.drop_last()
    } else {
        s
    }
}

/// Editor mode: structural operations and forwarded keys stay in the same
/// buffer; Tab opens the actions list, Escape quits the whole session.
pub open spec fn spec_step_editor(m: EditorMode, inp: InputModel) -> (
    ActiveViewModel,
    Seq<EffectModel>,
) {
    let stay = ActiveViewModel::Editor(m);
    match inp {
        InputModel::Esc => (stay, seq![EffectModel::QuitApp]),
        InputModel::Tab => (ActiveViewModel::Actions { selected: 0 }, seq![]),
        InputModel::SwitchEditor(m2) => (ActiveViewModel::Editor(m2), seq![]),
        InputModel::OpenSearch => (
            ActiveViewModel::Search { mode_return_to: m, query: Seq::empty() },
            seq![],
        ),
        InputModel::Copy => (stay, seq![EffectModel::EditorOp { buffer: m, op: EditorOp::Copy }]),
        InputModel::Cut => (stay, seq![EffectModel::EditorOp { buffer: m, op: EditorOp::Cut }]),
        InputModel::PasteClipboard => (
            stay,
            seq![EffectModel::EditorOp { buffer: m, op: EditorOp::PasteClipboard }],
        ),
        InputModel::Undo => (stay, seq![EffectModel::EditorOp { buffer: m, op: EditorOp::Undo }]),
        InputModel::Redo => (stay, seq![EffectModel::EditorOp { buffer: m, op: EditorOp::Redo }]),
        InputModel::SelectAll => (
            stay,
            seq![EffectModel::EditorOp { buffer: m, op: EditorOp::SelectAll }],
        ),
        InputModel::WordLeft => (
            stay,
            seq![EffectModel::EditorOp { buffer: m, op: EditorOp::WordLeft }],
        ),
        InputModel::WordRight => (
            stay,
            seq![EffectModel::EditorOp { buffer: m, op: EditorOp::WordRight }],
        ),
        InputModel::SelectWordLeft => (
            stay,
            seq![EffectModel::EditorOp { buffer: m, op: EditorOp::SelectWordLeft }],
        ),
        InputModel::SelectWordRight => (
            stay,
            seq![EffectModel::EditorOp { buffer: m, op: EditorOp::SelectWordRight }],
        ),
        InputModel::DeleteWord => (
            stay,
            seq![EffectModel::EditorOp { buffer: m, op: EditorOp::DeleteWord }],
        ),
        InputModel::Char(_) => (stay, seq![EffectModel::Forward { buffer: m, edit: true }]),
        InputModel::Enter => (stay, seq![EffectModel::Forward { buffer: m, edit: true }]),
        InputModel::Backspace => (stay, seq![EffectModel::Forward { buffer: m, edit: true }]),
        InputModel::EditKey => (stay, seq![EffectModel::Forward { buffer: m, edit: true }]),
        InputModel::Up => (stay, seq![EffectModel::Forward { buffer: m, edit: false }]),
        InputModel::Down => (stay, seq![EffectModel::Forward { buffer: m, edit: false }]),
        InputModel::NavKey => (stay, seq![EffectModel::Forward { buffer: m, edit: false }]),
        InputModel::Paste(s) => (stay, seq![EffectModel::Insert { buffer: m, text: s }]),
        _ => (stay, seq![]),
    }
}

/// Search mode: every character updates the live query and searches
/// forward; Escape clears the pattern and returns to the same editor.
pub open spec fn spec_step_search(ret: EditorMode, query: Seq<char>, inp: InputModel) -> (
    ActiveViewModel,
    Seq<EffectModel>,
) {
    match inp {
        InputModel::Esc => (
            ActiveViewModel::Editor(ret),
            seq![EffectModel::ClearSearch { buffer: ret }],
        ),
        InputModel::Enter => (
            ActiveViewModel::Search { mode_return_to: ret, query },
            seq![EffectModel::SearchNext { buffer: ret }],
        ),
        InputModel::Backspace => (
            ActiveViewModel::Search { mode_return_to: ret, query: pop_model(query) },
            seq![EffectModel::SetSearch { buffer: ret, query: pop_model(query) }],
        ),
        InputModel::Char(c) => (
            ActiveViewModel::Search { mode_return_to: ret, query: query.push(c) },
            seq![
                EffectModel::SetSearch { buffer: ret, query: query.push(c) },
                EffectModel::SearchNext { buffer: ret },
            ],
        ),
        _ => (ActiveViewModel::Search { mode_return_to: ret, query }, seq![]),
    }
}

/// Actions mode: Up and Down move a wrap-around selection over the command
/// list; Enter on a command with the placeholder opens the input popup and
/// runs nothing, otherwise it launches the command and shows the Logs
/// buffer.
pub open spec fn spec_step_actions(
    selected: int,
    inp: InputModel,
    commands: Seq<AdminCommandModel>,
) -> (ActiveViewModel, Seq<EffectModel>) {
    let stay = ActiveViewModel::Actions { selected };
    match inp {
        InputModel::Esc => (ActiveViewModel::Editor(EditorMode::Notes), seq![]),
        InputModel::Tab => (ActiveViewModel::Editor(EditorMode::Notes), seq![]),
        InputModel::Down => if commands.len() == 0 {
            (stay, seq![])
        } else {
            (
                ActiveViewModel::Actions {
                    selected: if selected >= commands.len() - 1 {
                        0
                    } else {
                        selected + 1
                    },
                },
                seq![],
            )
        },
        InputModel::Up => if commands.len() == 0 {
            (stay, seq![])
        } else {
            (
                ActiveViewModel::Actions {
                    selected: if selected == 0 {
                        commands.len() - 1
                    } else {
                        selected - 1
                    },
                },
                seq![],
            )
        },
        InputModel::Enter => if 0 <= selected < commands.len() {
            if spec_has_placeholder(commands[selected].args) {
                (
                    ActiveViewModel::InputPopup {
                        command_idx: selected,
                        input_buffer: Seq::empty(),
                    },
                    seq![],
                )
            } else {
                (
                    ActiveViewModel::Editor(EditorMode::Logs),
                    seq![
                        EffectModel::RunCommand {
                            command_idx: selected,
                            args: commands[selected].args,
                        },
                    ],
                )
            }
        } else {
            (stay, seq![])
        },
        _ => (stay, seq![]),
    }
}

/// Input popup: Enter substitutes the entered text for every placeholder
/// argument and launches the command; Escape discards and returns to the
/// actions list.
pub open spec fn spec_step_popup(
    command_idx: int,
    input_buffer: Seq<char>,
    inp: InputModel,
    commands: Seq<AdminCommandModel>,
) -> (ActiveViewModel, Seq<EffectModel>) {
    let stay = ActiveViewModel::InputPopup { command_idx, input_buffer };
    match inp {
        InputModel::Enter => if 0 <= command_idx < commands.len() {
            (
                ActiveViewModel::Editor(EditorMode::Logs),
                seq![
                    EffectModel::RunCommand {
                        command_idx,
                        args: spec_substitute(commands[command_idx].args, input_buffer),
                    },
                ],
            )
        } else {
            (stay, seq![])
        },
        InputModel::Esc => (ActiveViewModel::Actions { selected: command_idx }, seq![]),
        InputModel::Backspace => (
            ActiveViewModel::InputPopup { command_idx, input_buffer: pop_model(input_buffer) },
            seq![],
        ),
        InputModel::Char(c) => (
            ActiveViewModel::InputPopup { command_idx, input_buffer: input_buffer.push(c) },
            seq![],
        ),
        _ => (stay, seq![]),
    }
}

/// The task the wizard creates when its last step is confirmed.
pub open spec fn wizard_task(
    temp_title: Seq<char>,
    temp_desc: Seq<char>,
    time_input: Seq<char>,
) -> TaskModel {
    TaskModel {
        title: temp_title,
        description: temp_desc,
        time: spec_trim(time_input),
        completed: false,
    }
}

/// Task wizard: Enter advances Title (non-empty required), Description
/// (anything), Time (must validate, else the step keeps the text for
/// correction); finishing appends the rendered task to the Todo buffer and
/// returns to the Todo editor; Escape discards everything.
pub open spec fn spec_step_wizard(
    step: WizardStep,
    buffer: Seq<char>,
    temp_title: Seq<char>,
    temp_desc: Seq<char>,
    inp: InputModel,
) -> (ActiveViewModel, Seq<EffectModel>) {
    let stay = ActiveViewModel::TodoWizard { step, buffer, temp_title, temp_desc };
    match inp {
        InputModel::Esc => (ActiveViewModel::Editor(EditorMode::Todo), seq![]),
        InputModel::Backspace => (
            ActiveViewModel::TodoWizard {
                step,
                buffer: pop_model(buffer),
                temp_title,
                temp_desc,
            },
            seq![],
        ),
        InputModel::Char(c) => (
            ActiveViewModel::TodoWizard {
                step,
                buffer: buffer.push(c),
                temp_title,
                temp_desc,
            },
            seq![],
        ),
        InputModel::Enter => match step {
            WizardStep::Title => if buffer.len() > 0 {
                (
                    ActiveViewModel::TodoWizard {
                        step: WizardStep::Description,
                        buffer: Seq::empty(),
                        temp_title: buffer,
                        temp_desc,
                    },
                    seq![],
                )
            } else {
                (stay, seq![])
            },
            WizardStep::Description => (
                ActiveViewModel::TodoWizard {
                    step: WizardStep::Time,
                    buffer: Seq::empty(),
                    temp_title,
                    temp_desc: buffer,
                },
                seq![],
            ),
            WizardStep::Time => if spec_valid_time(buffer) {
                (
                    ActiveViewModel::Editor(EditorMode::Todo),
                    seq![
                        EffectModel::AppendTodo {
                            text: spec_render_task(wizard_task(temp_title, temp_desc, buffer)),
                        },
                    ],
                )
            } else {
                (stay, seq![])
            },
        },
        _ => (stay, seq![]),
    }
}

/// The whole transition relation: quit and the wizard shortcut are global;
/// everything else dispatches on the active mode. Every reachable state
/// has a defined result for every input.
pub open spec fn spec_step(
    v: ActiveViewModel,
    inp: InputModel,
    commands: Seq<AdminCommandModel>,
) -> (ActiveViewModel, Seq<EffectModel>) {
    match inp {
        InputModel::Quit => (v, seq![EffectModel::QuitApp]),
        InputModel::OpenWizard => (wizard_fresh(), seq![]),
        _ => match v {
            ActiveViewModel::Editor(m) => spec_step_editor(m, inp),
            ActiveViewModel::Actions { selected } => spec_step_actions(selected, inp, commands),
            ActiveViewModel::InputPopup { command_idx, input_buffer } => spec_step_popup(
                command_idx,
                input_buffer,
                inp,
                commands,
            ),
            ActiveViewModel::Search { mode_return_to, query } => spec_step_search(
                mode_return_to,
                query,
                inp,
            ),
            ActiveViewModel::TodoWizard { step, buffer, temp_title, temp_desc } => {
                spec_step_wizard(step, buffer, temp_title, temp_desc, inp)
            },
        },
    }
}

/// A task the wizard creates from a tidy title, header-free description
/// lines and a validated time renders to a block that parses back to the
/// same task (see `lemma_parse_render_round_trip`): the wizard's appends
/// never destroy the task they encode.
pub proof fn lemma_wizard_task_renderable(
    temp_title: Seq<char>,
    temp_desc: Seq<char>,
    time_input: Seq<char>,
)
    requires
        spec_trim(temp_title) == temp_title,
        !crate::text::contains_char(temp_title, '\n'),
        crate::codec::desc_lines_plain(temp_desc),
        spec_valid_time(time_input),
    ensures
        crate::codec::renderable(wizard_task(temp_title, temp_desc, time_input)),
{
    crate::utils::lemma_valid_time_plain(time_input);
}

/// Enter on an Actions-selected command whose arguments contain the
/// placeholder token always transitions to the input popup seeded with
/// that command's index, and never emits any effect: the command cannot
/// run before its input is collected.
pub proof fn lemma_placeholder_never_runs(selected: int, commands: Seq<AdminCommandModel>)
    requires
        0 <= selected < commands.len(),
        spec_has_placeholder(commands[selected].args),
    ensures
        spec_step(ActiveViewModel::Actions { selected }, InputModel::Enter, commands) == (
            ActiveViewModel::InputPopup { command_idx: selected, input_buffer: Seq::<char>::empty() },
            Seq::<EffectModel>::empty(),
        ),
{
    assert(Seq::<EffectModel>::empty() =~= seq![]);
}

fn no_effects() -> (r: Vec<Effect>)
    ensures
        r.deep_view() == Seq::<EffectModel>::empty(),
{
    let r: Vec<Effect> = Vec::new();
    proof {
        assert(r.deep_view() =~= Seq::<EffectModel>::empty());
    }
    r
}

fn one_effect(e: Effect) -> (r: Vec<Effect>)
    ensures
        r.deep_view() == seq![e@],
{
    let ghost em = e@;
    let mut r: Vec<Effect> = Vec::new();
    r.push(e);
    proof {
        assert(r.deep_view() =~= seq![em]);
    }
    r
}

fn two_effects(a: Effect, b: Effect) -> (r: Vec<Effect>)
    ensures
        r.deep_view() == seq![a@, b@],
{
    let ghost am = a@;
    let ghost bm = b@;
    let mut r: Vec<Effect> = Vec::new();
    r.push(a);
    r.push(b);
    proof {
        assert(r.deep_view() =~= seq![am, bm]);
    }
    r
}

fn step_editor(m: EditorMode, input: InputEvent) -> (r: (ActiveView, Vec<Effect>))
    ensures
        r.0@ == spec_step_editor(m, input@).0,
        r.1.deep_view() == spec_step_editor(m, input@).1,
{
    match input {
        InputEvent::Esc => (ActiveView::Editor(m), one_effect(Effect::QuitApp)),
        InputEvent::Tab => (ActiveView::Actions { selected: 0 }, no_effects()),
        InputEvent::SwitchEditor(m2) => (ActiveView::Editor(m2), no_effects()),
        InputEvent::OpenSearch => (
            ActiveView::Search { mode_return_to: m, query: String::new() },
            no_effects(),
        ),
        InputEvent::Copy => (
            ActiveView::Editor(m),
            one_effect(Effect::EditorOp { buffer: m, op: EditorOp::Copy }),
        ),
        InputEvent::Cut => (
            ActiveView::Editor(m),
            one_effect(Effect::EditorOp { buffer: m, op: EditorOp::Cut }),
        ),
        InputEvent::PasteClipboard => (
            ActiveView::Editor(m),
            one_effect(Effect::EditorOp { buffer: m, op: EditorOp::PasteClipboard }),
        ),
        InputEvent::Undo => (
            ActiveView::Editor(m),
            one_effect(Effect::EditorOp { buffer: m, op: EditorOp::Undo }),
        ),
        InputEvent::Redo => (
            ActiveView::Editor(m),
            one_effect(Effect::EditorOp { buffer: m, op: EditorOp::Redo }),
        ),
        InputEvent::SelectAll => (
            ActiveView::Editor(m),
            one_effect(Effect::EditorOp { buffer: m, op: EditorOp::SelectAll }),
        ),
        InputEvent::WordLeft => (
            ActiveView::Editor(m),
            one_effect(Effect::EditorOp { buffer: m, op: EditorOp::WordLeft }),
        ),
        InputEvent::WordRight => (
            ActiveView::Editor(m),
            one_effect(Effect::EditorOp { buffer: m, op: EditorOp::WordRight }),
        ),
        InputEvent::SelectWordLeft => (
            ActiveView::Editor(m),
            one_effect(Effect::EditorOp { buffer: m, op: EditorOp::SelectWordLeft }),
        ),
        InputEvent::SelectWordRight => (
            ActiveView::Editor(m),
            one_effect(Effect::EditorOp { buffer: m, op: EditorOp::SelectWordRight }),
        ),
        InputEvent::DeleteWord => (
            ActiveView::Editor(m),
            one_effect(Effect::EditorOp { buffer: m, op: EditorOp::DeleteWord }),
        ),
        InputEvent::Char(_) => (
            ActiveView::Editor(m),
            one_effect(Effect::Forward { buffer: m, edit: true }),
        ),
        InputEvent::Enter => (
            ActiveView::Editor(m),
            one_effect(Effect::Forward { buffer: m, edit: true }),
        ),
        InputEvent::Backspace => (
            ActiveView::Editor(m),
            one_effect(Effect::Forward { buffer: m, edit: true }),
        ),
        InputEvent::EditKey => (
            ActiveView::Editor(m),
            one_effect(Effect::Forward { buffer: m, edit: true }),
        ),
        InputEvent::Up => (
            ActiveView::Editor(m),
            one_effect(Effect::Forward { buffer: m, edit: false }),
        ),
        InputEvent::Down => (
            ActiveView::Editor(m),
            one_effect(Effect::Forward { buffer: m, edit: false }),
        ),
        InputEvent::NavKey => (
            ActiveView::Editor(m),
            one_effect(Effect::Forward { buffer: m, edit: false }),
        ),
        InputEvent::Paste(s) => (
            ActiveView::Editor(m),
            one_effect(Effect::Insert { buffer: m, text: s }),
        ),
        _ => (ActiveView::Editor(m), no_effects()),
    }
}

fn step_search(ret: EditorMode, query: String, input: InputEvent) -> (r: (ActiveView, Vec<Effect>))
    ensures
        r.0@ == spec_step_search(ret, query@, input@).0,
        r.1.deep_view() == spec_step_search(ret, query@, input@).1,
{
    match input {
        InputEvent::Esc => (
            ActiveView::Editor(ret),
            one_effect(Effect::ClearSearch { buffer: ret }),
        ),
        InputEvent::Enter => (
            ActiveView::Search { mode_return_to: ret, query },
            one_effect(Effect::SearchNext { buffer: ret }),
        ),
        InputEvent::Backspace => {
            let mut q = query;
            pop_char(&mut q);
            let q2 = q.clone();
            (
                ActiveView::Search { mode_return_to: ret, query: q },
                one_effect(Effect::SetSearch { buffer: ret, query: q2 }),
            )
        },
        InputEvent::Char(c) => {
            let mut q = query;
            push_char(&mut q, c);
            let q2 = q.clone();
            (
                ActiveView::Search { mode_return_to: ret, query: q },
                two_effects(
                    Effect::SetSearch { buffer: ret, query: q2 },
                    Effect::SearchNext { buffer: ret },
                ),
            )
        },
        _ => (ActiveView::Search { mode_return_to: ret, query }, no_effects()),
    }
}

fn step_actions(selected: usize, input: InputEvent, commands: &Vec<AdminCommand>) -> (r: (
    ActiveView,
    Vec<Effect>,
))
    ensures
        r.0@ == spec_step_actions(selected as int, input@, commands.deep_view()).0,
        r.1.deep_view() == spec_step_actions(selected as int, input@, commands.deep_view()).1,
{
    match input {
        InputEvent::Esc => (ActiveView::Editor(EditorMode::Notes), no_effects()),
        InputEvent::Tab => (ActiveView::Editor(EditorMode::Notes), no_effects()),
        InputEvent::Down => {
            if commands.len() == 0 {
                (ActiveView::Actions { selected }, no_effects())
            } else {
                let next = if selected >= commands.len() - 1 {
                    0
                } else {
                    selected + 1
                };
                (ActiveView::Actions { selected: next }, no_effects())
            }
        },
        InputEvent::Up => {
            if commands.len() == 0 {
                (ActiveView::Actions { selected }, no_effects())
            } else {
                let next = if selected == 0 {
                    commands.len() - 1
                } else {
                    selected - 1
                };
                (ActiveView::Actions { selected: next }, no_effects())
            }
        },
        InputEvent::Enter => {
            if selected < commands.len() {
                if has_placeholder(&commands[selected].args) {
                    (
                        ActiveView::InputPopup {
                            command_idx: selected,
                            input_buffer: String::new(),
                        },
                        no_effects(),
                    )
                } else {
                    let args = clone_args(&commands[selected].args);
                    (
                        ActiveView::Editor(EditorMode::Logs),
                        one_effect(Effect::RunCommand { command_idx: selected, args }),
                    )
                }
            } else {
                (ActiveView::Actions { selected }, no_effects())
            }
        },
        _ => (ActiveView::Actions { selected }, no_effects()),
    }
}

fn step_popup(
    command_idx: usize,
    input_buffer: String,
    input: InputEvent,
    commands: &Vec<AdminCommand>,
) -> (r: (ActiveView, Vec<Effect>))
    ensures
        r.0@ == spec_step_popup(
            command_idx as int,
            input_buffer@,
            input@,
            commands.deep_view(),
        ).0,
        r.1.deep_view() == spec_step_popup(
            command_idx as int,
            input_buffer@,
            input@,
            commands.deep_view(),
        ).1,
{
    match input {
        InputEvent::Enter => {
            if command_idx < commands.len() {
                let args = substitute_args(&commands[command_idx].args, input_buffer.as_str());
                (
                    ActiveView::Editor(EditorMode::Logs),
                    one_effect(Effect::RunCommand { command_idx, args }),
                )
            } else {
                (ActiveView::InputPopup { command_idx, input_buffer }, no_effects())
            }
        },
        InputEvent::Esc => (ActiveView::Actions { selected: command_idx }, no_effects()),
        InputEvent::Backspace => {
            let mut b = input_buffer;
            pop_char(&mut b);
            (ActiveView::InputPopup { command_idx, input_buffer: b }, no_effects())
        },
        InputEvent::Char(c) => {
            let mut b = input_buffer;
            push_char(&mut b, c);
            (ActiveView::InputPopup { command_idx, input_buffer: b }, no_effects())
        },
        _ => (ActiveView::InputPopup { command_idx, input_buffer }, no_effects()),
    }
}

fn step_wizard(
    step: WizardStep,
    buffer: String,
    temp_title: String,
    temp_desc: String,
    input: InputEvent,
) -> (r: (ActiveView, Vec<Effect>))
    ensures
        r.0@ == spec_step_wizard(step, buffer@, temp_title@, temp_desc@, input@).0,
        r.1.deep_view() == spec_step_wizard(step, buffer@, temp_title@, temp_desc@, input@).1,
{
    match input {
        InputEvent::Esc => (ActiveView::Editor(EditorMode::Todo), no_effects()),
        InputEvent::Backspace => {
            let mut b = buffer;
            pop_char(&mut b);
            (
                ActiveView::TodoWizard { step, buffer: b, temp_title, temp_desc },
                no_effects(),
            )
        },
        InputEvent::Char(c) => {
            let mut b = buffer;
            push_char(&mut b, c);
            (
                ActiveView::TodoWizard { step, buffer: b, temp_title, temp_desc },
                no_effects(),
            )
        },
        InputEvent::Enter => {
            match step {
                WizardStep::Title => {
                    if !buffer.as_str().is_empty() {
                        (
                            ActiveView::TodoWizard {
                                step: WizardStep::Description,
                                buffer: String::new(),
                                temp_title: buffer,
                                temp_desc,
                            },
                            no_effects(),
                        )
                    } else {
                        (
                            ActiveView::TodoWizard { step, buffer, temp_title, temp_desc },
                            no_effects(),
                        )
                    }
                },
                WizardStep::Description => (
                    ActiveView::TodoWizard {
                        step: WizardStep::Time,
                        buffer: String::new(),
                        temp_title,
                        temp_desc: buffer,
                    },
                    no_effects(),
                ),
                WizardStep::Time => {
                    if is_valid_time(buffer.as_str()) {
                        let time = trim_str(buffer.as_str()).to_owned();
                        let task = Task {
                            title: temp_title,
                            description: temp_desc,
                            time,
                            completed: false,
                        };
                        let text = render_task(&task);
                        (
                            ActiveView::Editor(EditorMode::Todo),
                            one_effect(Effect::AppendTodo { text }),
                        )
                    } else {
                        (
                            ActiveView::TodoWizard { step, buffer, temp_title, temp_desc },
                            no_effects(),
                        )
                    }
                },
            }
        },
        _ => (
            ActiveView::TodoWizard { step, buffer, temp_title, temp_desc },
            no_effects(),
        ),
    }
}

/// Dispatch one decoded input against the active view: the pure transition
/// function of the whole foreground, exactly as `spec_step` prescribes.
pub fn step_view(view: ActiveView, input: InputEvent, commands: &Vec<AdminCommand>) -> (r: (
    ActiveView,
    Vec<Effect>,
))
    ensures
        r.0@ == spec_step(view@, input@, commands.deep_view()).0,
        r.1.deep_view() == spec_step(view@, input@, commands.deep_view()).1,
{
    match input {
        InputEvent::Quit => (view, one_effect(Effect::QuitApp)),
        InputEvent::OpenWizard => (
            ActiveView::TodoWizard {
                step: WizardStep::Title,
                buffer: String::new(),
                temp_title: String::new(),
                temp_desc: String::new(),
            },
            no_effects(),
        ),
        other => match view {
            ActiveView::Editor(m) => step_editor(m, other),
            ActiveView::Actions { selected } => step_actions(selected, other, commands),
            ActiveView::InputPopup { command_idx, input_buffer } => step_popup(
                command_idx,
                input_buffer,
                other,
                commands,
            ),
            ActiveView::Search { mode_return_to, query } => step_search(
                mode_return_to,
                query,
                other,
            ),
            ActiveView::TodoWizard { step, buffer, temp_title, temp_desc } => step_wizard(
                step,
                buffer,
                temp_title,
                temp_desc,
                other,
            ),
        },
    }
}

fn clone_args(args: &Vec<String>) -> (r: Vec<String>)
    ensures
        r.deep_view() == args.deep_view(),
{
    let n = args.len();
    let mut out: Vec<String> = Vec::new();
    let mut i: usize = 0;
    while i < n
        invariant
            0 <= i <= n,
            n == args@.len(),
            out@.len() == i,
            forall|k: int| 0 <= k < i ==> (#[trigger] out@[k])@ == args@[k]@,
        decreases n - i,
    {
        out.push(args[i].clone());
        i = i + 1;
    }
    proof {
        assert(out.deep_view() =~~= args.deep_view());
    }
    out
}

} // verus!
