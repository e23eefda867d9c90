use todo_app::actions::{Pending, ProjectAction, TaskAction};
use todo_app::model::{Project, Task, TodoApp};

fn task(id: usize, text: &str, completed: bool) -> Task {
    Task { id, text: text.to_string(), completed }
}

fn project(id: usize, name: &str, tasks: Vec<Task>) -> Project {
    Project { id, name: name.to_string(), tasks, expanded: true }
}

fn app_with(names: &[&str]) -> TodoApp {
    let mut app = TodoApp::default();
    for name in names {
        app.new_project_name = name.to_string();
        app.add_project();
    }
    app
}

fn names(app: &TodoApp) -> Vec<String> {
    app.projects.iter().map(|p| p.name.clone()).collect()
}

#[test]
fn default_state_is_empty() {
    let app = TodoApp::default();
    assert!(app.projects.is_empty());
    assert_eq!(app.next_project_id, 1);
    assert_eq!(app.next_task_id, 1);
    assert_eq!(app.new_project_name, "");
    assert_eq!(app.editing_project, None);
    assert_eq!(app.editing_task, None);
    assert!(app.new_task_texts.is_empty());
    assert_eq!(app.edit_project_text, "");
    assert_eq!(app.edit_task_text, "");
    assert_eq!(app.adding_task_to_project, None);
    assert!(app.right_click_task_text.is_empty());
}

#[test]
fn add_project_appends_and_empties_the_field() {
    let mut app = TodoApp::default();
    app.new_project_name = "Home".to_string();
    app.add_project();
    assert_eq!(app.projects, vec![project(1, "Home", vec![])]);
    assert_eq!(app.next_project_id, 2);
    assert_eq!(app.new_project_name, "");
}

#[test]
fn add_project_numbers_in_order() {
    let app = app_with(&["a", "b", "c"]);
    let ids: Vec<usize> = app.projects.iter().map(|p| p.id).collect();
    assert_eq!(ids, vec![1, 2, 3]);
    assert_eq!(names(&app), vec!["a", "b", "c"]);
    assert_eq!(app.next_project_id, 4);
}

#[test]
fn add_project_ignores_a_blank_name() {
    let mut app = app_with(&["a"]);
    for blank in ["", "   ", "\t\n", "\u{3000}"] {
        app.new_project_name = blank.to_string();
        app.add_project();
        assert_eq!(app.projects.len(), 1);
        assert_eq!(app.next_project_id, 2);
        assert_eq!(app.new_project_name, blank);
    }
}

#[test]
fn add_project_keeps_the_name_as_typed() {
    let mut app = TodoApp::default();
    app.new_project_name = "  Garden  ".to_string();
    app.add_project();
    assert_eq!(app.projects[0].name, "  Garden  ");
}

#[test]
fn add_project_starts_expanded() {
    let app = app_with(&["a"]);
    assert!(app.projects[0].expanded);
    assert!(app.projects[0].tasks.is_empty());
}

#[test]
fn add_task_appends_the_trimmed_text() {
    let mut app = app_with(&["a", "b"]);
    app.add_task_to_project(2, "  water plants \n".to_string());
    assert!(app.projects[0].tasks.is_empty());
    assert_eq!(app.projects[1].tasks, vec![task(1, "water plants", false)]);
    assert_eq!(app.next_task_id, 2);
}

#[test]
fn add_task_numbers_across_projects() {
    let mut app = app_with(&["a", "b"]);
    app.add_task_to_project(1, "x".to_string());
    app.add_task_to_project(2, "y".to_string());
    app.add_task_to_project(1, "z".to_string());
    assert_eq!(app.projects[0].tasks, vec![task(1, "x", false), task(3, "z", false)]);
    assert_eq!(app.projects[1].tasks, vec![task(2, "y", false)]);
    assert_eq!(app.next_task_id, 4);
}

#[test]
fn add_task_ignores_an_unknown_project() {
    let mut app = app_with(&["a"]);
    app.add_task_to_project(7, "x".to_string());
    assert!(app.projects[0].tasks.is_empty());
    assert_eq!(app.next_task_id, 1);
}

#[test]
fn add_task_ignores_a_blank_text() {
    let mut app = app_with(&["a"]);
    app.add_task_to_project(1, " \t ".to_string());
    app.add_task_to_project(1, String::new());
    assert!(app.projects[0].tasks.is_empty());
    assert_eq!(app.next_task_id, 1);
}

#[test]
fn add_task_goes_to_the_first_project_with_the_id() {
    let mut app = TodoApp::default();
    app.projects = vec![project(4, "first", vec![]), project(4, "second", vec![])];
    app.next_project_id = 5;
    app.add_task_to_project(4, "x".to_string());
    assert_eq!(app.projects[0].tasks.len(), 1);
    assert!(app.projects[1].tasks.is_empty());
}

#[test]
fn add_task_leaves_the_editors_alone() {
    let mut app = app_with(&["a"]);
    app.editing_project = Some(1);
    app.edit_project_text = "draft".to_string();
    app.new_project_name = "next".to_string();
    app.add_task_to_project(1, "x".to_string());
    assert_eq!(app.editing_project, Some(1));
    assert_eq!(app.edit_project_text, "draft");
    assert_eq!(app.new_project_name, "next");
    assert_eq!(app.next_project_id, 2);
}

#[test]
fn start_edit_opens_the_name_editor() {
    let mut app = app_with(&["a", "b"]);
    app.apply_project_action(ProjectAction::StartEdit { project_id: 2, name: "b".to_string() });
    assert_eq!(app.editing_project, Some(2));
    assert_eq!(app.edit_project_text, "b");
    assert_eq!(names(&app), vec!["a", "b"]);
}

#[test]
fn stop_edit_closes_the_name_editor_and_keeps_its_text() {
    let mut app = app_with(&["a"]);
    app.editing_project = Some(1);
    app.edit_project_text = "draft".to_string();
    app.apply_project_action(ProjectAction::StopEdit);
    assert_eq!(app.editing_project, None);
    assert_eq!(app.edit_project_text, "draft");
}

#[test]
fn add_task_action_shows_the_row_with_an_empty_text() {
    let mut app = app_with(&["a"]);
    app.apply_project_action(ProjectAction::AddTask { project_id: 1 });
    assert_eq!(app.adding_task_to_project, Some(1));
    assert_eq!(app.right_click_task_text.get(&1), Some(&String::new()));
    assert_eq!(app.right_click_task_text.len(), 1);
}

#[test]
fn add_task_action_keeps_a_text_that_is_there() {
    let mut app = app_with(&["a"]);
    app.right_click_task_text.insert(1, "half typed".to_string());
    app.apply_project_action(ProjectAction::AddTask { project_id: 1 });
    assert_eq!(app.adding_task_to_project, Some(1));
    assert_eq!(app.right_click_task_text.get(&1), Some(&"half typed".to_string()));
}

#[test]
fn create_task_action_adds_the_task() {
    let mut app = app_with(&["a"]);
    app.apply_project_action(ProjectAction::CreateTask { project_id: 1, text: " x ".to_string() });
    assert_eq!(app.projects[0].tasks, vec![task(1, "x", false)]);
}

#[test]
fn cancel_add_task_hides_the_row_and_empties_the_text() {
    let mut app = app_with(&["a", "b"]);
    app.adding_task_to_project = Some(1);
    app.right_click_task_text.insert(1, "typed".to_string());
    app.right_click_task_text.insert(2, "other".to_string());
    app.apply_project_action(ProjectAction::CancelAddTask { project_id: 1 });
    assert_eq!(app.adding_task_to_project, None);
    assert_eq!(app.right_click_task_text.get(&1), Some(&String::new()));
    assert_eq!(app.right_click_task_text.get(&2), Some(&"other".to_string()));
}

#[test]
fn cancel_add_task_makes_no_text_where_there_was_none() {
    let mut app = app_with(&["a"]);
    app.adding_task_to_project = Some(1);
    app.apply_project_action(ProjectAction::CancelAddTask { project_id: 1 });
    assert_eq!(app.adding_task_to_project, None);
    assert!(app.right_click_task_text.is_empty());
}

#[test]
fn project_actions_apply_in_order() {
    let mut app = app_with(&["a"]);
    app.apply_project_actions(vec![
        ProjectAction::StartEdit { project_id: 1, name: "one".to_string() },
        ProjectAction::StopEdit,
        ProjectAction::StartEdit { project_id: 1, name: "two".to_string() },
    ]);
    assert_eq!(app.editing_project, Some(1));
    assert_eq!(app.edit_project_text, "two");

    app.apply_project_actions(vec![
        ProjectAction::StartEdit { project_id: 1, name: "three".to_string() },
        ProjectAction::StopEdit,
    ]);
    assert_eq!(app.editing_project, None);
    assert_eq!(app.edit_project_text, "three");
}

#[test]
fn project_actions_of_an_empty_queue_change_nothing() {
    let mut app = app_with(&["a"]);
    app.editing_project = Some(1);
    app.apply_project_actions(vec![]);
    assert_eq!(app.editing_project, Some(1));
    assert_eq!(names(&app), vec!["a"]);
}

#[test]
fn create_then_cancel_is_what_the_new_task_row_queues() {
    let mut app = app_with(&["a"]);
    app.apply_project_action(ProjectAction::AddTask { project_id: 1 });
    app.right_click_task_text.insert(1, "call bank".to_string());
    app.apply_project_actions(vec![
        ProjectAction::CreateTask { project_id: 1, text: "call bank".to_string() },
        ProjectAction::CancelAddTask { project_id: 1 },
    ]);
    assert_eq!(app.projects[0].tasks, vec![task(1, "call bank", false)]);
    assert_eq!(app.adding_task_to_project, None);
    assert_eq!(app.right_click_task_text.get(&1), Some(&String::new()));
}

#[test]
fn task_start_edit_opens_the_text_editor() {
    let mut app = app_with(&["a"]);
    app.apply_task_action(TaskAction::StartEdit {
        project_id: 1,
        task_id: 9,
        text: "old".to_string(),
    });
    assert_eq!(app.editing_task, Some((1, 9)));
    assert_eq!(app.edit_task_text, "old");
}

#[test]
fn task_stop_edit_closes_the_text_editor() {
    let mut app = app_with(&["a"]);
    app.editing_task = Some((1, 9));
    app.edit_task_text = "old".to_string();
    app.apply_task_action(TaskAction::StopEdit);
    assert_eq!(app.editing_task, None);
    assert_eq!(app.edit_task_text, "old");
}

#[test]
fn task_actions_apply_in_order() {
    let mut app = app_with(&["a"]);
    app.apply_task_actions(vec![
        TaskAction::StopEdit,
        TaskAction::StartEdit { project_id: 1, task_id: 2, text: "x".to_string() },
        TaskAction::StartEdit { project_id: 1, task_id: 3, text: "y".to_string() },
    ]);
    assert_eq!(app.editing_task, Some((1, 3)));
    assert_eq!(app.edit_task_text, "y");
}

#[test]
fn task_actions_leave_the_name_editor_alone() {
    let mut app = app_with(&["a"]);
    app.editing_project = Some(1);
    app.apply_task_actions(vec![TaskAction::StopEdit]);
    assert_eq!(app.editing_project, Some(1));
}

#[test]
fn remove_projects_deletes_by_position() {
    let mut app = app_with(&["a", "b", "c", "d", "e"]);
    app.remove_projects(&vec![0, 2, 3]);
    assert_eq!(names(&app), vec!["b", "e"]);
    assert_eq!(app.projects[0].id, 2);
    assert_eq!(app.projects[1].id, 5);
    assert_eq!(app.next_project_id, 6);
}

#[test]
fn remove_projects_with_no_position_changes_nothing() {
    let mut app = app_with(&["a", "b"]);
    app.remove_projects(&vec![]);
    assert_eq!(names(&app), vec!["a", "b"]);
}

#[test]
fn remove_projects_can_delete_all() {
    let mut app = app_with(&["a", "b"]);
    app.remove_projects(&vec![0, 1]);
    assert!(app.projects.is_empty());
    assert_eq!(app.next_project_id, 3);
}

#[test]
fn remove_projects_deletes_the_last() {
    let mut app = app_with(&["a", "b", "c"]);
    app.remove_projects(&vec![2]);
    assert_eq!(names(&app), vec!["a", "b"]);
}

#[test]
fn remove_projects_forgets_the_text_for_a_new_task() {
    let mut app = app_with(&["a", "b", "c"]);
    app.new_task_texts.insert(1, "for a".to_string());
    app.new_task_texts.insert(2, "for b".to_string());
    app.new_task_texts.insert(3, "for c".to_string());
    app.right_click_task_text.insert(2, "row of b".to_string());
    app.remove_projects(&vec![1]);
    assert_eq!(app.new_task_texts.len(), 2);
    assert_eq!(app.new_task_texts.get(&1), Some(&"for a".to_string()));
    assert_eq!(app.new_task_texts.get(&2), None);
    assert_eq!(app.new_task_texts.get(&3), Some(&"for c".to_string()));
    assert_eq!(app.right_click_task_text.get(&2), Some(&"row of b".to_string()));
}

#[test]
fn remove_projects_keeps_the_tasks_of_the_others() {
    let mut app = app_with(&["a", "b"]);
    app.add_task_to_project(1, "x".to_string());
    app.add_task_to_project(2, "y".to_string());
    app.remove_projects(&vec![0]);
    assert_eq!(app.projects, vec![project(2, "b", vec![task(2, "y", false)])]);
    assert_eq!(app.next_task_id, 3);
}

#[test]
fn numbers_are_not_given_twice_after_a_deletion() {
    let mut app = app_with(&["a", "b"]);
    app.remove_projects(&vec![1]);
    app.new_project_name = "c".to_string();
    app.add_project();
    let ids: Vec<usize> = app.projects.iter().map(|p| p.id).collect();
    assert_eq!(ids, vec![1, 3]);
}

#[test]
fn pending_starts_empty() {
    let pending = Pending::new();
    assert!(pending.removed_projects.is_empty());
    assert!(pending.project_actions.is_empty());
    assert!(pending.task_actions.is_empty());
}

#[test]
fn finish_frame_with_nothing_queued_changes_nothing() {
    let mut app = app_with(&["a"]);
    app.editing_project = Some(1);
    app.finish_frame(Pending::new());
    assert_eq!(names(&app), vec!["a"]);
    assert_eq!(app.editing_project, Some(1));
}

#[test]
fn finish_frame_applies_actions_before_deletions() {
    let mut app = app_with(&["a", "b"]);
    let pending = Pending {
        removed_projects: vec![0],
        project_actions: vec![
            ProjectAction::CreateTask { project_id: 1, text: "lost".to_string() },
            ProjectAction::CreateTask { project_id: 2, text: "kept".to_string() },
            ProjectAction::StartEdit { project_id: 2, name: "b".to_string() },
        ],
        task_actions: vec![TaskAction::StartEdit {
            project_id: 2,
            task_id: 2,
            text: "kept".to_string(),
        }],
    };
    assert!(app.has_room_for(&pending));
    app.finish_frame(pending);
    assert_eq!(app.projects, vec![project(2, "b", vec![task(2, "kept", false)])]);
    assert_eq!(app.next_task_id, 3);
    assert_eq!(app.editing_project, Some(2));
    assert_eq!(app.edit_project_text, "b");
    assert_eq!(app.editing_task, Some((2, 2)));
    assert_eq!(app.edit_task_text, "kept");
}

#[test]
fn has_room_for_refuses_a_bad_deletion_list() {
    let app = app_with(&["a", "b"]);
    let mut pending = Pending::new();
    pending.removed_projects = vec![2];
    assert!(!app.has_room_for(&pending));
    pending.removed_projects = vec![1, 0];
    assert!(!app.has_room_for(&pending));
    pending.removed_projects = vec![0, 0];
    assert!(!app.has_room_for(&pending));
    pending.removed_projects = vec![0, 1];
    assert!(app.has_room_for(&pending));
}

#[test]
fn has_room_for_counts_the_project_actions() {
    let mut app = app_with(&["a"]);
    let mut pending = Pending::new();
    pending.project_actions = vec![ProjectAction::StopEdit, ProjectAction::StopEdit];
    app.next_task_id = usize::MAX - 2;
    assert!(app.has_room_for(&pending));
    app.next_task_id = usize::MAX - 1;
    assert!(!app.has_room_for(&pending));
    app.next_task_id = usize::MAX;
    assert!(!app.has_room_for(&pending));
    assert!(app.has_room_for(&Pending::new()));
}

#[test]
fn last_task_number_can_still_be_given() {
    let mut app = app_with(&["a"]);
    app.next_task_id = usize::MAX - 1;
    app.add_task_to_project(1, "x".to_string());
    assert_eq!(app.projects[0].tasks[0].id, usize::MAX - 1);
    assert_eq!(app.next_task_id, usize::MAX);
    app.add_task_to_project(1, "  ".to_string());
    app.add_task_to_project(5, "y".to_string());
    assert_eq!(app.projects[0].tasks.len(), 1);
    assert_eq!(app.next_task_id, usize::MAX);
}
