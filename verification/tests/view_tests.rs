use admin_console::config::AdminCommand;
use admin_console::types::{ActiveView, EditorMode, WizardStep};
use admin_console::view::{step_view, Effect, InputEvent};

fn commands() -> Vec<AdminCommand> {
    vec![
        AdminCommand {
            name: String::from("ping host"),
            cmd: String::from("ping"),
            args: vec![String::from("-n"), String::from("1"), String::from("%INPUT%")],
        },
        AdminCommand {
            name: String::from("list dir"),
            cmd: String::from("cmd"),
            args: vec![String::from("/C"), String::from("dir")],
        },
    ]
}

fn type_text(mut view: ActiveView, text: &str, cmds: &Vec<AdminCommand>) -> ActiveView {
    for c in text.chars() {
        let (next, effects) = step_view(view, InputEvent::Char(c), cmds);
        assert!(effects.is_empty());
        view = next;
    }
    view
}

#[test]
fn wizard_scenario_appends_one_task_block_and_returns_to_todo() {
    let cmds = commands();
    let (view, effects) = step_view(
        ActiveView::Editor(EditorMode::Notes),
        InputEvent::OpenWizard,
        &cmds,
    );
    assert!(effects.is_empty());
    assert!(matches!(
        view,
        ActiveView::TodoWizard { step: WizardStep::Title, .. }
    ));

    let view = type_text(view, "Water plants", &cmds);
    let (view, effects) = step_view(view, InputEvent::Enter, &cmds);
    assert!(effects.is_empty());
    assert!(matches!(
        view,
        ActiveView::TodoWizard { step: WizardStep::Description, .. }
    ));

    let (view, effects) = step_view(view, InputEvent::Enter, &cmds);
    assert!(effects.is_empty());
    assert!(matches!(view, ActiveView::TodoWizard { step: WizardStep::Time, .. }));

    let view = type_text(view, "07:00", &cmds);
    let (view, effects) = step_view(view, InputEvent::Enter, &cmds);
    assert!(matches!(view, ActiveView::Editor(EditorMode::Todo)));
    assert_eq!(effects.len(), 1);
    match &effects[0] {
        Effect::AppendTodo { text } => {
            assert_eq!(text, "- [07:00] Water plants\n  \n");
        },
        _ => panic!("expected an append effect"),
    }
}

#[test]
fn wizard_title_step_requires_non_empty_title() {
    let cmds = commands();
    let (view, _) = step_view(ActiveView::Editor(EditorMode::Notes), InputEvent::OpenWizard, &cmds);
    let (view, effects) = step_view(view, InputEvent::Enter, &cmds);
    assert!(effects.is_empty());
    assert!(matches!(
        view,
        ActiveView::TodoWizard { step: WizardStep::Title, .. }
    ));
}

#[test]
fn wizard_rejects_invalid_time_and_keeps_the_text() {
    let cmds = commands();
    let (view, _) = step_view(ActiveView::Editor(EditorMode::Notes), InputEvent::OpenWizard, &cmds);
    let view = type_text(view, "Task", &cmds);
    let (view, _) = step_view(view, InputEvent::Enter, &cmds);
    let (view, _) = step_view(view, InputEvent::Enter, &cmds);
    let view = type_text(view, "24:00", &cmds);
    let (view, effects) = step_view(view, InputEvent::Enter, &cmds);
    assert!(effects.is_empty());
    match view {
        ActiveView::TodoWizard { step, buffer, .. } => {
            assert_eq!(step, WizardStep::Time);
            assert_eq!(buffer, "24:00");
        },
        _ => panic!("expected to stay on the time step"),
    }
}

#[test]
fn wizard_escape_discards_everything() {
    let cmds = commands();
    let (view, _) = step_view(ActiveView::Editor(EditorMode::Logs), InputEvent::OpenWizard, &cmds);
    let view = type_text(view, "Half-typed", &cmds);
    let (view, effects) = step_view(view, InputEvent::Esc, &cmds);
    assert!(effects.is_empty());
    assert!(matches!(view, ActiveView::Editor(EditorMode::Todo)));
}

#[test]
fn placeholder_command_opens_popup_and_never_runs() {
    let cmds = commands();
    let (view, effects) = step_view(
        ActiveView::Actions { selected: 0 },
        InputEvent::Enter,
        &cmds,
    );
    assert!(effects.is_empty());
    match view {
        ActiveView::InputPopup { command_idx, input_buffer } => {
            assert_eq!(command_idx, 0);
            assert_eq!(input_buffer, "");
        },
        _ => panic!("expected the input popup"),
    }
}

#[test]
fn plain_command_runs_immediately_and_shows_logs() {
    let cmds = commands();
    let (view, effects) = step_view(
        ActiveView::Actions { selected: 1 },
        InputEvent::Enter,
        &cmds,
    );
    assert!(matches!(view, ActiveView::Editor(EditorMode::Logs)));
    assert_eq!(effects.len(), 1);
    match &effects[0] {
        Effect::RunCommand { command_idx, args } => {
            assert_eq!(*command_idx, 1);
            assert_eq!(args, &vec![String::from("/C"), String::from("dir")]);
        },
        _ => panic!("expected a run effect"),
    }
}

#[test]
fn popup_enter_substitutes_every_placeholder() {
    let cmds = commands();
    let view = ActiveView::InputPopup { command_idx: 0, input_buffer: String::new() };
    let view = type_text(view, "10.0.0.9", &cmds);
    let (view, effects) = step_view(view, InputEvent::Enter, &cmds);
    assert!(matches!(view, ActiveView::Editor(EditorMode::Logs)));
    assert_eq!(effects.len(), 1);
    match &effects[0] {
        Effect::RunCommand { command_idx, args } => {
            assert_eq!(*command_idx, 0);
            assert_eq!(
                args,
                &vec![String::from("-n"), String::from("1"), String::from("10.0.0.9")]
            );
        },
        _ => panic!("expected a run effect"),
    }
}

#[test]
fn popup_escape_returns_to_actions() {
    let cmds = commands();
    let view = ActiveView::InputPopup { command_idx: 0, input_buffer: String::from("half") };
    let (view, effects) = step_view(view, InputEvent::Esc, &cmds);
    assert!(effects.is_empty());
    assert!(matches!(view, ActiveView::Actions { selected: 0 }));
}

#[test]
fn actions_selection_wraps_at_both_ends() {
    let cmds = commands();
    let (view, _) = step_view(ActiveView::Actions { selected: 1 }, InputEvent::Down, &cmds);
    assert!(matches!(view, ActiveView::Actions { selected: 0 }));
    let (view, _) = step_view(view, InputEvent::Up, &cmds);
    assert!(matches!(view, ActiveView::Actions { selected: 1 }));
}

#[test]
fn tab_switches_between_editor_and_actions() {
    let cmds = commands();
    let (view, effects) = step_view(ActiveView::Editor(EditorMode::Todo), InputEvent::Tab, &cmds);
    assert!(effects.is_empty());
    assert!(matches!(view, ActiveView::Actions { selected: 0 }));
    let (view, _) = step_view(view, InputEvent::Tab, &cmds);
    assert!(matches!(view, ActiveView::Editor(EditorMode::Notes)));
}

#[test]
fn search_typing_updates_query_and_searches_forward() {
    let cmds = commands();
    let (view, effects) = step_view(
        ActiveView::Editor(EditorMode::Notes),
        InputEvent::OpenSearch,
        &cmds,
    );
    assert!(effects.is_empty());
    let (view, effects) = step_view(view, InputEvent::Char('a'), &cmds);
    assert_eq!(effects.len(), 2);
    assert!(matches!(
        &effects[0],
        Effect::SetSearch { buffer: EditorMode::Notes, query } if query == "a"
    ));
    assert!(matches!(&effects[1], Effect::SearchNext { buffer: EditorMode::Notes }));
    let (view, effects) = step_view(view, InputEvent::Backspace, &cmds);
    assert!(matches!(
        &effects[0],
        Effect::SetSearch { buffer: EditorMode::Notes, query } if query == ""
    ));
    let (view, effects) = step_view(view, InputEvent::Esc, &cmds);
    assert_eq!(effects.len(), 1);
    assert!(matches!(&effects[0], Effect::ClearSearch { buffer: EditorMode::Notes }));
    assert!(matches!(view, ActiveView::Editor(EditorMode::Notes)));
}

#[test]
fn editor_character_input_marks_the_buffer_dirty() {
    let cmds = commands();
    let (view, effects) = step_view(
        ActiveView::Editor(EditorMode::Todo),
        InputEvent::Char('h'),
        &cmds,
    );
    assert!(matches!(view, ActiveView::Editor(EditorMode::Todo)));
    assert_eq!(effects.len(), 1);
    assert!(matches!(
        &effects[0],
        Effect::Forward { buffer: EditorMode::Todo, edit: true }
    ));
}

#[test]
fn editor_navigation_does_not_mark_dirty() {
    let cmds = commands();
    let (_, effects) = step_view(ActiveView::Editor(EditorMode::Todo), InputEvent::Up, &cmds);
    assert!(matches!(
        &effects[0],
        Effect::Forward { buffer: EditorMode::Todo, edit: false }
    ));
}

#[test]
fn quit_is_global_and_editor_escape_quits() {
    let cmds = commands();
    let (_, effects) = step_view(ActiveView::Actions { selected: 0 }, InputEvent::Quit, &cmds);
    assert_eq!(effects.len(), 1);
    assert!(matches!(&effects[0], Effect::QuitApp));
    let (_, effects) = step_view(ActiveView::Editor(EditorMode::Notes), InputEvent::Esc, &cmds);
    assert_eq!(effects.len(), 1);
    assert!(matches!(&effects[0], Effect::QuitApp));
}
