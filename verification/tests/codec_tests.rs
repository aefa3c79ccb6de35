use admin_console::codec::{parse_tasks_from_text, render_task, toggle_task_completed};
use admin_console::types::Task;

#[test]
fn parses_two_tasks_with_description() {
    let tasks = parse_tasks_from_text("- [x] Buy milk\n  get 2%  \n- [14:30] Call Bob\n");
    assert_eq!(tasks.len(), 2);
    assert_eq!(tasks[0].title, "Buy milk");
    assert!(tasks[0].completed);
    assert_eq!(tasks[0].time, "");
    assert_eq!(tasks[0].description, "get 2%");
    assert_eq!(tasks[1].title, "Call Bob");
    assert!(!tasks[1].completed);
    assert_eq!(tasks[1].time, "14:30");
    assert_eq!(tasks[1].description, "");
}

#[test]
fn empty_text_parses_to_no_tasks() {
    assert_eq!(parse_tasks_from_text("").len(), 0);
    assert_eq!(parse_tasks_from_text("\n\n  \n").len(), 0);
}

#[test]
fn preamble_lines_are_dropped() {
    let tasks = parse_tasks_from_text("shopping notes\nremember the list\n- [ ] First task\n");
    assert_eq!(tasks.len(), 1);
    assert_eq!(tasks[0].title, "First task");
    assert_eq!(tasks[0].description, "");
}

#[test]
fn empty_marker_means_open_task_without_time() {
    let tasks = parse_tasks_from_text("- [] Water the garden\n");
    assert_eq!(tasks.len(), 1);
    assert!(!tasks[0].completed);
    assert_eq!(tasks[0].time, "");
    assert_eq!(tasks[0].title, "Water the garden");
}

#[test]
fn uppercase_marker_counts_as_completed() {
    let tasks = parse_tasks_from_text("- [X] Done thing\n");
    assert_eq!(tasks.len(), 1);
    assert!(tasks[0].completed);
    assert_eq!(tasks[0].time, "");
}

#[test]
fn malformed_time_marker_is_preserved_verbatim() {
    let tasks = parse_tasks_from_text("- [25:99] Odd hour\n");
    assert_eq!(tasks.len(), 1);
    assert!(!tasks[0].completed);
    assert_eq!(tasks[0].time, "25:99");
}

#[test]
fn multi_line_description_is_newline_joined_and_trimmed() {
    let tasks = parse_tasks_from_text("- [ ] Pack\n   socks  \n\n   shoes\n");
    assert_eq!(tasks.len(), 1);
    assert_eq!(tasks[0].description, "socks\nshoes");
}

#[test]
fn marker_with_x_among_other_characters_is_completed() {
    let tasks = parse_tasks_from_text("- [ x ] Mixed marker\n");
    assert_eq!(tasks.len(), 1);
    assert!(tasks[0].completed);
    assert_eq!(tasks[0].time, "");
}

#[test]
fn pattern_without_closing_bracket_is_description_text() {
    let tasks = parse_tasks_from_text("- [ ] Task\n- [ no bracket\n");
    assert_eq!(tasks.len(), 1);
    assert_eq!(tasks[0].title, "Task");
    assert_eq!(tasks[0].description, "- [ no bracket");
}

#[test]
fn render_emits_one_task_line_and_one_description_line() {
    let task = Task {
        title: String::from("Water plants"),
        description: String::new(),
        time: String::from("07:00"),
        completed: false,
    };
    assert_eq!(render_task(&task), "- [07:00] Water plants\n  \n");
}

#[test]
fn render_of_completed_task_uses_x_marker() {
    let task = Task {
        title: String::from("Ship it"),
        description: String::from("with care"),
        time: String::new(),
        completed: true,
    };
    assert_eq!(render_task(&task), "- [x] Ship it\n  with care\n");
}

#[test]
fn parse_render_round_trip_preserves_task() {
    let task = Task {
        title: String::from("Call Bob"),
        description: String::from("about the meeting"),
        time: String::from("14:30"),
        completed: false,
    };
    let text = render_task(&task);
    let parsed = parse_tasks_from_text(&text);
    assert_eq!(parsed.len(), 1);
    assert_eq!(parsed[0].title, "Call Bob");
    assert_eq!(parsed[0].description, "about the meeting");
    assert_eq!(parsed[0].time, "14:30");
    assert!(!parsed[0].completed);
}

#[test]
fn round_trip_normalizes_description_whitespace() {
    let task = Task {
        title: String::from("Tidy"),
        description: String::from("first\n\n  second  "),
        time: String::new(),
        completed: false,
    };
    let parsed = parse_tasks_from_text(&render_task(&task));
    assert_eq!(parsed.len(), 1);
    assert_eq!(parsed[0].description, "first\nsecond");
}

#[test]
fn toggle_rewrites_first_open_matching_line_in_place() {
    let text = "- [x] Call Bob\n- [14:30] Call Bob\n  notes\n";
    let toggled = toggle_task_completed(text, "Call Bob");
    assert_eq!(toggled, "- [x] Call Bob\n- [x] Call Bob\n  notes\n");
}

#[test]
fn toggle_leaves_text_unchanged_when_nothing_matches() {
    let text = "preamble\n- [x] Done already\n";
    assert_eq!(toggle_task_completed(text, "Done already"), text);
    assert_eq!(toggle_task_completed(text, "Missing"), text);
}

#[test]
fn toggle_only_touches_the_bracket_contents() {
    let text = "- [09:15] Stretch\n  keep [this] intact\n";
    let toggled = toggle_task_completed(text, "Stretch");
    assert_eq!(toggled, "- [x] Stretch\n  keep [this] intact\n");
}
