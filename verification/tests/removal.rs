use todo_app::removal::is_ascending_below;

#[test]
fn empty_list_is_ascending() {
    assert!(is_ascending_below(&vec![], 0));
    assert!(is_ascending_below(&vec![], 7));
}

#[test]
fn ascending_list_below_the_bound() {
    assert!(is_ascending_below(&vec![0], 1));
    assert!(is_ascending_below(&vec![0, 2, 3], 4));
    assert!(is_ascending_below(&vec![1, 5], 100));
}

#[test]
fn position_at_the_bound_is_refused() {
    assert!(!is_ascending_below(&vec![0], 0));
    assert!(!is_ascending_below(&vec![0, 2, 4], 4));
}

#[test]
fn repeated_position_is_refused() {
    assert!(!is_ascending_below(&vec![1, 1], 5));
}

#[test]
fn descending_list_is_refused() {
    assert!(!is_ascending_below(&vec![2, 0], 5));
    assert!(!is_ascending_below(&vec![0, 3, 2], 5));
}

#[test]
fn deleting_takes_as_many_as_are_named() {
    for list in [vec![], vec![0], vec![3], vec![0, 1, 2, 3], vec![1, 3]] {
        let mut app = todo_app::model::TodoApp::default();
        for name in ["a", "b", "c", "d"] {
            app.new_project_name = name.to_string();
            app.add_project();
        }
        assert!(is_ascending_below(&list, app.projects.len()));
        app.remove_projects(&list);
        assert_eq!(app.projects.len(), 4 - list.len());
        for project in &app.projects {
            assert!(!list.contains(&(project.id - 1)));
        }
    }
}
