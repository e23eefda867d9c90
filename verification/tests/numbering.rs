use std::collections::HashSet;
use todo_app::actions::{Pending, ProjectAction, TaskAction};
use todo_app::model::TodoApp;
use todo_app::rows::EditorInput;

/// Numbers are below the counters, none is given twice, and the project
/// that shows the row for a new task has a text for it.
fn well_formed(app: &TodoApp) -> bool {
    let mut project_ids = HashSet::new();
    let mut task_ids = HashSet::new();
    for project in &app.projects {
        if project.id >= app.next_project_id || !project_ids.insert(project.id) {
            return false;
        }
        for task in &project.tasks {
            if task.id >= app.next_task_id || !task_ids.insert(task.id) {
                return false;
            }
        }
    }
    match app.adding_task_to_project {
        Some(id) => app.right_click_task_text.contains_key(&id),
        None => true,
    }
}

fn add_project(app: &mut TodoApp, name: &str) {
    app.new_project_name = name.to_string();
    app.add_project();
}

fn accept() -> EditorInput {
    EditorInput {
        lost_focus: false,
        enter_pressed: false,
        escape_pressed: false,
        accept_clicked: true,
        cancel_clicked: false,
    }
}

#[test]
fn first_state_is_well_formed() {
    assert!(well_formed(&TodoApp::default()));
}

#[test]
fn adding_keeps_the_state_well_formed() {
    let mut app = TodoApp::default();
    for name in ["a", "", "b", "  ", "c"] {
        add_project(&mut app, name);
        assert!(well_formed(&app));
    }
    for (id, text) in [(1, "x"), (3, "y"), (9, "z"), (1, " "), (2, "w"), (1, "v")] {
        app.add_task_to_project(id, text.to_string());
        assert!(well_formed(&app));
    }
    assert_eq!(app.projects.len(), 3);
    assert_eq!(app.next_task_id, 5);
}

#[test]
fn frames_keep_the_state_well_formed() {
    let mut app = TodoApp::default();
    for name in ["a", "b", "c", "d"] {
        add_project(&mut app, name);
    }
    let frames = vec![
        Pending {
            removed_projects: vec![],
            project_actions: vec![
                ProjectAction::AddTask { project_id: 2 },
                ProjectAction::CreateTask { project_id: 2, text: "one".to_string() },
                ProjectAction::CreateTask { project_id: 4, text: "two".to_string() },
            ],
            task_actions: vec![],
        },
        Pending {
            removed_projects: vec![1, 2],
            project_actions: vec![
                ProjectAction::CreateTask { project_id: 2, text: "three".to_string() },
                ProjectAction::StartEdit { project_id: 1, name: "a".to_string() },
            ],
            task_actions: vec![TaskAction::StartEdit {
                project_id: 4,
                task_id: 2,
                text: "two".to_string(),
            }],
        },
        Pending {
            removed_projects: vec![0],
            project_actions: vec![
                ProjectAction::CancelAddTask { project_id: 2 },
                ProjectAction::AddTask { project_id: 4 },
                ProjectAction::StopEdit,
            ],
            task_actions: vec![TaskAction::StopEdit],
        },
    ];
    for pending in frames {
        assert!(app.has_room_for(&pending));
        app.finish_frame(pending);
        assert!(well_formed(&app));
    }
    assert_eq!(app.projects.len(), 1);
    assert_eq!(app.projects[0].id, 4);
    assert_eq!(app.adding_task_to_project, Some(4));

    add_project(&mut app, "e");
    app.add_task_to_project(5, "four".to_string());
    assert!(well_formed(&app));
    assert_eq!(app.projects[1].id, 5);
    assert_eq!(app.projects[1].tasks[0].id, 4);
}

#[test]
fn rows_keep_the_state_well_formed() {
    let mut app = TodoApp::default();
    add_project(&mut app, "a");
    add_project(&mut app, "b");
    for text in ["x", "y", "z"] {
        app.add_task_to_project(1, text.to_string());
    }
    app.add_task_to_project(2, "w".to_string());
    let mut pending = Pending::new();

    app.expand_button(0, true, true, &mut pending);
    assert!(well_formed(&app));

    app.edit_project_text = "alpha".to_string();
    app.project_editor(0, accept(), &mut pending);
    assert!(well_formed(&app));

    app.edit_task_text = "changed".to_string();
    app.task_editor(0, 1, accept(), &mut pending);
    assert!(well_formed(&app));

    app.remove_tasks(0, &vec![0, 2]);
    assert!(well_formed(&app));
    assert_eq!(app.projects[0].tasks.len(), 1);
    assert_eq!(app.projects[0].tasks[0].id, 2);

    app.finish_frame(pending);
    assert!(well_formed(&app));
}

#[test]
fn one_row_at_most_shows_an_editor() {
    let mut app = TodoApp::default();
    for name in ["a", "b", "c"] {
        add_project(&mut app, name);
    }
    for id in [1, 1, 2, 3, 3] {
        app.add_task_to_project(id, "t".to_string());
    }
    app.apply_project_action(ProjectAction::StartEdit { project_id: 2, name: "b".to_string() });
    app.apply_project_action(ProjectAction::AddTask { project_id: 3 });
    app.apply_task_action(TaskAction::StartEdit {
        project_id: 3,
        task_id: 4,
        text: "t".to_string(),
    });

    let mut name_editors = 0;
    let mut new_task_rows = 0;
    let mut text_editors = 0;
    for i in 0..app.projects.len() {
        if app.is_editing_project(i) {
            name_editors += 1;
        }
        if app.is_adding_task(i) {
            new_task_rows += 1;
            assert!(app.right_click_task_text.contains_key(&app.projects[i].id));
        }
        for k in 0..app.projects[i].tasks.len() {
            if app.is_editing_task(i, k) {
                text_editors += 1;
            }
        }
    }
    assert_eq!(name_editors, 1);
    assert_eq!(new_task_rows, 1);
    assert_eq!(text_editors, 1);
}

#[test]
fn a_deleted_project_takes_no_task_any_more() {
    let mut app = TodoApp::default();
    for name in ["a", "b", "c"] {
        add_project(&mut app, name);
    }
    app.remove_projects(&vec![1]);
    app.add_task_to_project(2, "lost".to_string());
    app.add_task_to_project(3, "kept".to_string());
    assert_eq!(app.projects.len(), 2);
    assert!(app.projects[0].tasks.is_empty());
    assert_eq!(app.projects[1].tasks.len(), 1);
    assert_eq!(app.next_task_id, 2);
}
