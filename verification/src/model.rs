//! The to-do list: projects, their tasks, and the state of the editors.

use std::collections::HashMap;
use vstd::prelude::*;

verus! {

/// One entry of a project.
#[derive(Clone, Debug, PartialEq, Eq)]
pub struct Task {
    pub id: usize,
    pub text: String,
    pub completed: bool,
}

/// What a [`Task`] holds, as plain values.
pub struct TaskView {
    pub id: usize,
    pub text: Seq<char>,
    pub completed: bool,
}

impl View for Task {
    type V = TaskView;

    open spec fn view(&self) -> TaskView {
        TaskView { id: self.id, text: self.text@, completed: self.completed }
    }
}

/// A named list of tasks.
#[derive(Clone, Debug, PartialEq, Eq)]
pub struct Project {
    pub id: usize,
    pub name: String,
    pub tasks: Vec<Task>,
    /// Whether the tasks are shown.
    pub expanded: bool,
}

/// What a [`Project`] holds, as plain values.
pub struct ProjectView {
    pub id: usize,
    pub name: Seq<char>,
    pub tasks: Seq<TaskView>,
    pub expanded: bool,
}

/// The views of a sequence of tasks, in the same order.
pub open spec fn task_views(tasks: Seq<Task>) -> Seq<TaskView> {
    tasks.map_values(|t: Task| t@)
}

/// The views of a sequence of projects, in the same order.
pub open spec fn project_views(projects: Seq<Project>) -> Seq<ProjectView> {
    projects.map_values(|p: Project| p@)
}

impl View for Project {
    type V = ProjectView;

    open spec fn view(&self) -> ProjectView {
        ProjectView {
            id: self.id,
            name: self.name@,
            tasks: task_views(self.tasks@),
            expanded: self.expanded,
        }
    }
}

/// The whole state: the projects, the counters that number new projects and
/// tasks, and what the editors hold between two frames.
#[derive(Debug)]
pub struct TodoApp {
    pub projects: Vec<Project>,
    pub next_project_id: usize,
    pub next_task_id: usize,
    /// The name typed for the next project.
    pub new_project_name: String,
    /// The project whose name is being edited.
    pub editing_project: Option<usize>,
    /// The project and the task whose text is being edited.
    pub editing_task: Option<(usize, usize)>,
    /// Text typed for a new task, by project.
    pub new_task_texts: HashMap<usize, String>,
    /// The name as edited so far.
    pub edit_project_text: String,
    /// The task text as edited so far.
    pub edit_task_text: String,
    /// The project that shows the row for a new task.
    pub adding_task_to_project: Option<usize>,
    /// Text typed in the row for a new task, by project.
    pub right_click_task_text: HashMap<usize, String>,
}

/// The texts of a map, by the same keys.
pub open spec fn text_views(texts: Map<usize, String>) -> Map<usize, Seq<char>> {
    texts.map_values(|s: String| s@)
}

/// What a [`TodoApp`] holds, as plain values.
pub struct TodoAppView {
    pub projects: Seq<ProjectView>,
    pub next_project_id: usize,
    pub next_task_id: usize,
    pub new_project_name: Seq<char>,
    pub editing_project: Option<usize>,
    pub editing_task: Option<(usize, usize)>,
    pub new_task_texts: Map<usize, Seq<char>>,
    pub edit_project_text: Seq<char>,
    pub edit_task_text: Seq<char>,
    pub adding_task_to_project: Option<usize>,
    pub right_click_task_text: Map<usize, Seq<char>>,
}

impl View for TodoApp {
    type V = TodoAppView;

    open spec fn view(&self) -> TodoAppView {
        TodoAppView {
            projects: project_views(self.projects@),
            next_project_id: self.next_project_id,
            next_task_id: self.next_task_id,
            new_project_name: self.new_project_name@,
            editing_project: self.editing_project,
            editing_task: self.editing_task,
            new_task_texts: text_views(self.new_task_texts@),
            edit_project_text: self.edit_project_text@,
            edit_task_text: self.edit_task_text@,
            adding_task_to_project: self.adding_task_to_project,
            right_click_task_text: text_views(self.right_click_task_text@),
        }
    }
}

impl TodoAppView {
    /// The state of a fresh list: no project, both counters at 1, every
    /// editor closed and empty.
    pub open spec fn initial() -> TodoAppView {
        TodoAppView {
            projects: Seq::empty(),
            next_project_id: 1,
            next_task_id: 1,
            new_project_name: Seq::empty(),
            editing_project: None,
            editing_task: None,
            new_task_texts: Map::empty(),
            edit_project_text: Seq::empty(),
            edit_task_text: Seq::empty(),
            adding_task_to_project: None,
            right_click_task_text: Map::empty(),
        }
    }
}

impl Default for TodoApp {
    fn default() -> (app: TodoApp)
        ensures
            app@ == TodoAppView::initial(),
    {
        let app = TodoApp {
            projects: Vec::new(),
            next_project_id: 1,
            next_task_id: 1,
            new_project_name: String::new(),
            editing_project: None,
            editing_task: None,
            new_task_texts: HashMap::new(),
            edit_project_text: String::new(),
            edit_task_text: String::new(),
            adding_task_to_project: None,
            right_click_task_text: HashMap::new(),
        };
        assert(app@.projects == Seq::<ProjectView>::empty());
        assert(app@.new_task_texts == Map::<usize, Seq<char>>::empty());
        assert(app@.right_click_task_text == Map::<usize, Seq<char>>::empty());
        app
    }
}

} // verus!
