//! What the rows of the list do with the input of one frame.
//!
//! A front end draws one row after the other and hands each the clicks and
//! keys that its widgets saw. A row changes what it shows at once and queues
//! the rest in a [`Pending`], which the end of the frame applies.

use crate::actions::{
    Pending, PendingView, ProjectAction, ProjectActionView, TaskAction, TaskActionView,
};
use crate::model::{Project, ProjectView, Task, TaskView, TodoApp, TodoAppView};
use crate::removal::{
    ascending_below, lemma_positions_from, lemma_without_map, lemma_without_nothing,
    lemma_without_one_more, positions, without,
};
use crate::text::{blank, is_blank};
use vstd::prelude::*;

verus! {

broadcast use vstd::std_specs::hash::group_hash_axioms;

/// What the widgets of an editor saw in one frame: a text field, a button to
/// accept and a button to cancel.
#[derive(Clone, Copy, Debug, PartialEq, Eq)]
pub struct EditorInput {
    /// The text field lost the focus.
    pub lost_focus: bool,
    pub enter_pressed: bool,
    pub escape_pressed: bool,
    pub accept_clicked: bool,
    pub cancel_clicked: bool,
}

impl EditorInput {
    /// Enter was pressed in the field.
    pub open spec fn submitted(self) -> bool {
        self.lost_focus && self.enter_pressed
    }

    /// Escape was pressed in the field, and Enter was not.
    pub open spec fn dismissed(self) -> bool {
        self.lost_focus && self.escape_pressed && !self.enter_pressed
    }

    /// The text is to be taken: by Enter or by the button.
    pub open spec fn accepts(self) -> bool {
        self.submitted() || self.accept_clicked
    }

    /// How often the input asks to close the editor: once by a key, once by
    /// each button.
    pub open spec fn closings(self) -> nat {
        let by_key: nat = if self.submitted() || self.dismissed() {
            1
        } else {
            0
        };
        let by_accept: nat = if self.accept_clicked {
            1
        } else {
            0
        };
        let by_cancel: nat = if self.cancel_clicked {
            1
        } else {
            0
        };
        by_key + by_accept + by_cancel
    }
}

/// `n` times the same action.
pub open spec fn repeated<A>(action: A, n: nat) -> Seq<A> {
    Seq::new(n, |k: int| action)
}

impl TodoAppView {
    /// Whether the name editor is open on the project at `i`.
    pub open spec fn is_editing_project(self, i: int) -> bool {
        self.editing_project == Some(self.projects[i].id)
    }

    /// Whether the text editor is open on the task at `k` of the project at
    /// `i`.
    pub open spec fn is_editing_task(self, i: int, k: int) -> bool {
        self.editing_task == Some((self.projects[i].id, self.projects[i].tasks[k].id))
    }

    /// Whether the project at `i` shows the row for a new task.
    pub open spec fn is_adding_task(self, i: int) -> bool {
        self.adding_task_to_project == Some(self.projects[i].id)
    }

    /// The state with the project at `i` shown if it was hidden, and hidden
    /// if it was shown.
    pub open spec fn toggle_expanded(self, i: int) -> TodoAppView {
        let project = self.projects[i];
        TodoAppView {
            projects: self.projects.update(
                i,
                ProjectView { expanded: !project.expanded, ..project },
            ),
            ..self
        }
    }

    /// The state after the project at `i` is offered the edited name: it
    /// takes the name, as typed, unless that is blank.
    pub open spec fn take_project_name(self, i: int) -> TodoAppView {
        if blank(self.edit_project_text) {
            self
        } else {
            let project = self.projects[i];
            TodoAppView {
                projects: self.projects.update(
                    i,
                    ProjectView { name: self.edit_project_text, ..project },
                ),
                ..self
            }
        }
    }

    /// The state after the name editor of the project at `i` saw `input`:
    /// where the input accepts the text, the project is offered it.
    pub open spec fn commit_project_name(self, i: int, input: EditorInput) -> TodoAppView {
        if input.accepts() {
            self.take_project_name(i)
        } else {
            self
        }
    }

    /// The state after the task at `k` of the project at `i` is offered the
    /// edited text: it takes the text, as typed, unless that is blank.
    pub open spec fn take_task_text(self, i: int, k: int) -> TodoAppView {
        if blank(self.edit_task_text) {
            self
        } else {
            let project = self.projects[i];
            let task = project.tasks[k];
            TodoAppView {
                projects: self.projects.update(
                    i,
                    ProjectView {
                        tasks: project.tasks.update(
                            k,
                            TaskView { text: self.edit_task_text, ..task },
                        ),
                        ..project
                    },
                ),
                ..self
            }
        }
    }

    /// The state after the text editor of the task at `k` of the project at
    /// `i` saw `input`: where the input accepts the text, the task is
    /// offered it.
    pub open spec fn commit_task_text(self, i: int, k: int, input: EditorInput) -> TodoAppView {
        if input.accepts() {
            self.take_task_text(i, k)
        } else {
            self
        }
    }

    /// The state without the tasks at the positions in `list` of the project
    /// at `i`.
    pub open spec fn remove_tasks(self, i: int, list: Seq<usize>) -> TodoAppView {
        let project = self.projects[i];
        TodoAppView {
            projects: self.projects.update(
                i,
                ProjectView { tasks: without(project.tasks, positions(list)), ..project },
            ),
            ..self
        }
    }

    /// What the row for a new task of the project at `i` queues on `input`.
    /// To accept queues the text as a task, unless it is blank, and then
    /// the end of the row; to cancel queues the end of the row.
    pub open spec fn new_task_actions(self, i: int, input: EditorInput) -> Seq<ProjectActionView> {
        let project_id = self.projects[i].id;
        let text = self.right_click_task_text[project_id];
        let on_accept = if input.accept_clicked || input.submitted() {
            if blank(text) {
                seq![ProjectActionView::CancelAddTask { project_id }]
            } else {
                seq![
                    ProjectActionView::CreateTask { project_id, text },
                    ProjectActionView::CancelAddTask { project_id },
                ]
            }
        } else {
            Seq::empty()
        };
        let on_cancel = if input.cancel_clicked || (input.lost_focus && input.escape_pressed) {
            seq![ProjectActionView::CancelAddTask { project_id }]
        } else {
            Seq::empty()
        };
        on_accept + on_cancel
    }
}

impl TodoApp {
    /// Tells whether the name editor is open on the project at
    /// `project_index`.
    pub fn is_editing_project(&self, project_index: usize) -> (b: bool)
        requires
            project_index < self.projects.len(),
        ensures
            b == self@.is_editing_project(project_index as int),
    {
        match self.editing_project {
            Some(id) => id == self.projects[project_index].id,
            None => false,
        }
    }

    /// Tells whether the text editor is open on the task at `task_index` of
    /// the project at `project_index`.
    pub fn is_editing_task(&self, project_index: usize, task_index: usize) -> (b: bool)
        requires
            project_index < self.projects.len(),
            task_index < self.projects[project_index as int].tasks.len(),
        ensures
            b == self@.is_editing_task(project_index as int, task_index as int),
    {
        let project = &self.projects[project_index];
        match self.editing_task {
            Some((project_id, task_id)) => project_id == project.id && task_id
                == project.tasks[task_index].id,
            None => false,
        }
    }

    /// Tells whether the project at `project_index` shows the row for a new
    /// task.
    pub fn is_adding_task(&self, project_index: usize) -> (b: bool)
        requires
            project_index < self.projects.len(),
        ensures
            b == self@.is_adding_task(project_index as int),
    {
        match self.adding_task_to_project {
            Some(id) => id == self.projects[project_index].id,
            None => false,
        }
    }

    /// The button that shows or hides the tasks of a project. A click
    /// toggles at once; a secondary click queues the row for a new task.
    pub fn expand_button(
        &mut self,
        project_index: usize,
        clicked: bool,
        secondary_clicked: bool,
        pending: &mut Pending,
    )
        requires
            project_index < old(self).projects.len(),
        ensures
            final(self)@ == if clicked {
                old(self)@.toggle_expanded(project_index as int)
            } else {
                old(self)@
            },
            final(pending)@ == (PendingView {
                project_actions: if secondary_clicked {
                    old(pending)@.project_actions.push(
                        ProjectActionView::AddTask {
                            project_id: old(self).projects[project_index as int].id,
                        },
                    )
                } else {
                    old(pending)@.project_actions
                },
                ..old(pending)@
            }),
    {
        if clicked {
            let shown = self.projects[project_index].expanded;
            self.projects[project_index].expanded = !shown;
            assert(self@.projects == old(self)@.toggle_expanded(project_index as int).projects);
        }
        if secondary_clicked {
            let action = ProjectAction::AddTask { project_id: self.projects[project_index].id };
            pending.project_actions.push(action);
            assert(pending@.project_actions == old(pending)@.project_actions.push(action@));
        }
    }
    /// The name editor of a project. Where the input accepts the text and
    /// the text is not blank, the project takes it as its name at once. Each
    /// way in which the input leaves the editor queues its closing.
    pub fn project_editor(
        &mut self,
        project_index: usize,
        input: EditorInput,
        pending: &mut Pending,
    )
        requires
            project_index < old(self).projects.len(),
        ensures
            final(self)@ == old(self)@.commit_project_name(project_index as int, input),
            final(pending)@ == (PendingView {
                project_actions: old(pending)@.project_actions + repeated(
                    ProjectActionView::StopEdit,
                    input.closings(),
                ),
                ..old(pending)@
            }),
    {
        let ghost queued = old(pending)@.project_actions;
        let ghost stop = ProjectActionView::StopEdit;
        assert(queued + repeated(stop, 0) == queued);
        if input.lost_focus && input.enter_pressed {
            self.take_project_name(project_index);
            pending.project_actions.push(ProjectAction::StopEdit);
            assert(pending@.project_actions == queued + repeated(stop, 1));
        } else if input.lost_focus && input.escape_pressed {
            pending.project_actions.push(ProjectAction::StopEdit);
            assert(pending@.project_actions == queued + repeated(stop, 1));
        }
        if input.accept_clicked {
            let ghost n = (pending@.project_actions.len() - queued.len()) as nat;
            self.take_project_name(project_index);
            assert(self@.projects == old(self)@.commit_project_name(
                project_index as int,
                input,
            ).projects);
            pending.project_actions.push(ProjectAction::StopEdit);
            assert(pending@.project_actions == queued + repeated(stop, n + 1));
        }
        if input.cancel_clicked {
            let ghost n = (pending@.project_actions.len() - queued.len()) as nat;
            pending.project_actions.push(ProjectAction::StopEdit);
            assert(pending@.project_actions == queued + repeated(stop, n + 1));
        }
    }

    /// Offers the project at `project_index` the edited name.
    fn take_project_name(&mut self, project_index: usize)
        requires
            project_index < old(self).projects.len(),
        ensures
            final(self).projects.len() == old(self).projects.len(),
            final(self)@ == old(self)@.take_project_name(project_index as int),
    {
        if !is_blank(self.edit_project_text.as_str()) {
            self.projects[project_index].name = self.edit_project_text.clone();
        }
        assert(self@.projects == old(self)@.take_project_name(project_index as int).projects);
    }

    /// The name of a project with its buttons. To delete queues the
    /// project's position; to edit queues the opening of the name editor
    /// with the name as its text.
    pub fn project_label(
        &self,
        project_index: usize,
        delete_clicked: bool,
        edit_clicked: bool,
        pending: &mut Pending,
    )
        requires
            project_index < self.projects.len(),
        ensures
            final(pending)@ == (PendingView {
                removed_projects: if delete_clicked {
                    old(pending)@.removed_projects.push(project_index)
                } else {
                    old(pending)@.removed_projects
                },
                project_actions: if edit_clicked {
                    old(pending)@.project_actions.push(
                        ProjectActionView::StartEdit {
                            project_id: self@.projects[project_index as int].id,
                            name: self@.projects[project_index as int].name,
                        },
                    )
                } else {
                    old(pending)@.project_actions
                },
                ..old(pending)@
            }),
            ascending_below(old(pending)@.removed_projects, project_index as int)
                ==> ascending_below(final(pending)@.removed_projects, project_index + 1),
    {
        if delete_clicked {
            pending.removed_projects.push(project_index);
        }
        if edit_clicked {
            let project = &self.projects[project_index];
            let action = ProjectAction::StartEdit {
                project_id: project.id,
                name: project.name.clone(),
            };
            pending.project_actions.push(action);
            assert(pending@.project_actions == old(pending)@.project_actions.push(action@));
        }
    }

    /// The text editor of a task. Where the input accepts the text and the
    /// text is not blank, the task takes it at once. Each way in which the
    /// input leaves the editor queues its closing.
    pub fn task_editor(
        &mut self,
        project_index: usize,
        task_index: usize,
        input: EditorInput,
        pending: &mut Pending,
    )
        requires
            project_index < old(self).projects.len(),
            task_index < old(self).projects[project_index as int].tasks.len(),
        ensures
            final(self)@ == old(self)@.commit_task_text(
                project_index as int,
                task_index as int,
                input,
            ),
            final(pending)@ == (PendingView {
                task_actions: old(pending)@.task_actions + repeated(
                    TaskActionView::StopEdit,
                    input.closings(),
                ),
                ..old(pending)@
            }),
    {
        let ghost queued = old(pending)@.task_actions;
        let ghost stop = TaskActionView::StopEdit;
        assert(queued + repeated(stop, 0) == queued);
        if input.lost_focus && input.enter_pressed {
            self.take_task_text(project_index, task_index);
            pending.task_actions.push(TaskAction::StopEdit);
            assert(pending@.task_actions == queued + repeated(stop, 1));
        } else if input.lost_focus && input.escape_pressed {
            pending.task_actions.push(TaskAction::StopEdit);
            assert(pending@.task_actions == queued + repeated(stop, 1));
        }
        if input.accept_clicked {
            let ghost n = (pending@.task_actions.len() - queued.len()) as nat;
            self.take_task_text(project_index, task_index);
            proof {
                let after = old(self)@.commit_task_text(
                    project_index as int,
                    task_index as int,
                    input,
                );
                assert(self@.projects[project_index as int].tasks
                    == after.projects[project_index as int].tasks);
                assert(self@.projects == after.projects);
            }
            pending.task_actions.push(TaskAction::StopEdit);
            assert(pending@.task_actions == queued + repeated(stop, n + 1));
        }
        if input.cancel_clicked {
            let ghost n = (pending@.task_actions.len() - queued.len()) as nat;
            pending.task_actions.push(TaskAction::StopEdit);
            assert(pending@.task_actions == queued + repeated(stop, n + 1));
        }
    }

    /// Offers the task at `task_index` of the project at `project_index` the
    /// edited text.
    fn take_task_text(&mut self, project_index: usize, task_index: usize)
        requires
            project_index < old(self).projects.len(),
            task_index < old(self).projects[project_index as int].tasks.len(),
        ensures
            final(self).projects.len() == old(self).projects.len(),
            final(self).projects[project_index as int].tasks.len() == old(
                self,
            ).projects[project_index as int].tasks.len(),
            final(self)@ == old(self)@.take_task_text(project_index as int, task_index as int),
    {
        let ghost after = old(self)@.take_task_text(project_index as int, task_index as int);
        if !is_blank(self.edit_task_text.as_str()) {
            self.projects[project_index].tasks[task_index].text = self.edit_task_text.clone();
        }
        assert(self@.projects[project_index as int].tasks
            == after.projects[project_index as int].tasks);
        assert(self@.projects == after.projects);
    }

    /// The text of a task with its buttons. To delete adds the task's
    /// position to `removed_tasks`; to edit queues the opening of the text
    /// editor with the task's text as its text.
    pub fn task_label(
        &self,
        project_index: usize,
        task_index: usize,
        delete_clicked: bool,
        edit_clicked: bool,
        removed_tasks: &mut Vec<usize>,
        pending: &mut Pending,
    )
        requires
            project_index < self.projects.len(),
            task_index < self.projects[project_index as int].tasks.len(),
        ensures
            final(removed_tasks)@ == if delete_clicked {
                old(removed_tasks)@.push(task_index)
            } else {
                old(removed_tasks)@
            },
            final(pending)@ == (PendingView {
                task_actions: if edit_clicked {
                    old(pending)@.task_actions.push(
                        TaskActionView::StartEdit {
                            project_id: self@.projects[project_index as int].id,
                            task_id: self.projects[project_index as int].tasks[task_index as int].id,
                            text: self.projects[project_index as int].tasks[task_index as int].text@,
                        },
                    )
                } else {
                    old(pending)@.task_actions
                },
                ..old(pending)@
            }),
            ascending_below(old(removed_tasks)@, task_index as int) ==> ascending_below(
                final(removed_tasks)@,
                task_index + 1,
            ),
    {
        if delete_clicked {
            removed_tasks.push(task_index);
        }
        if edit_clicked {
            let project = &self.projects[project_index];
            let task = &project.tasks[task_index];
            let action = TaskAction::StartEdit {
                project_id: project.id,
                task_id: task.id,
                text: task.text.clone(),
            };
            pending.task_actions.push(action);
            assert(pending@.task_actions == old(pending)@.task_actions.push(action@));
        }
    }

    /// Deletes the tasks at the positions that `list` names from the project
    /// at `project_index`.
    pub fn remove_tasks(&mut self, project_index: usize, list: &Vec<usize>)
        requires
            project_index < old(self).projects.len(),
            ascending_below(list@, old(self).projects[project_index as int].tasks.len() as int),
        ensures
            final(self)@ == old(self)@.remove_tasks(project_index as int, list@),
    {
        let ghost i = project_index as int;
        let ghost before = old(self).projects[i].tasks@;
        let ghost end = list.len() as int;
        let mut k: usize = list.len();
        proof {
            lemma_without_nothing(before, positions(list@.subrange(end, end)));
        }
        while k > 0
            invariant
                k <= list.len(),
                end == list.len(),
                i == project_index,
                i < self.projects.len(),
                self.projects.len() == old(self).projects.len(),
                before == old(self).projects[i].tasks@,
                ascending_below(list@, before.len() as int),
                self.projects[i].tasks@ == without(
                    before,
                    positions(list@.subrange(k as int, end)),
                ),
                self.projects@ == old(self).projects@.update(i, self.projects[i]),
                self.projects[i] == (Project {
                    tasks: self.projects[i].tasks,
                    ..old(self).projects[i]
                }),
                *self == (TodoApp { projects: self.projects, ..*old(self) }),
            decreases k,
        {
            k = k - 1;
            let index = list[k];
            proof {
                let later = list@.subrange(k + 1, end);
                assert forall|p: int| positions(later).contains(p) implies index < p by {
                    let j = choose|j: int| 0 <= j < later.len() && #[trigger] later[j] == p;
                    assert(later[j] == list@[j + k + 1]);
                }
                lemma_without_one_more(before, positions(later), index as int);
                lemma_positions_from(list@, k as int);
            }
            self.projects[project_index].tasks.remove(index);
        }
        proof {
            assert(list@.subrange(0, end) == list@);
            lemma_without_map(before, positions(list@), |t: Task| t@);
            assert(self@.projects == old(self)@.remove_tasks(i, list@).projects);
        }
    }

    /// The row for a new task of a project. To accept queues the text as a
    /// task, unless it is blank, and then the end of the row; to cancel
    /// queues the end of the row.
    pub fn new_task_row(&self, project_index: usize, input: EditorInput, pending: &mut Pending)
        requires
            project_index < self.projects.len(),
            self@.right_click_task_text.contains_key(self@.projects[project_index as int].id),
        ensures
            final(pending)@ == (PendingView {
                project_actions: old(pending)@.project_actions + self@.new_task_actions(
                    project_index as int,
                    input,
                ),
                ..old(pending)@
            }),
    {
        let project_id = self.projects[project_index].id;
        let ghost queued = old(pending)@.project_actions;
        let ghost cancel = ProjectActionView::CancelAddTask { project_id };
        assert(queued + Seq::<ProjectActionView>::empty() == queued);
        if input.accept_clicked || (input.lost_focus && input.enter_pressed) {
            let text = self.right_click_task_text.get(&project_id).unwrap();
            assert(text@ == self@.right_click_task_text[project_id]);
            if !is_blank(text.as_str()) {
                let action = ProjectAction::CreateTask { project_id, text: text.clone() };
                pending.project_actions.push(action);
                assert(pending@.project_actions == queued.push(action@));
            }
            pending.project_actions.push(ProjectAction::CancelAddTask { project_id });
            assert(pending@.project_actions == queued + if blank(text@) {
                seq![cancel]
            } else {
                seq![ProjectActionView::CreateTask { project_id, text: text@ }, cancel]
            });
        }
        let ghost first = pending@.project_actions;
        assert(first + Seq::<ProjectActionView>::empty() == first);
        if input.cancel_clicked || (input.lost_focus && input.escape_pressed) {
            pending.project_actions.push(ProjectAction::CancelAddTask { project_id });
            assert(pending@.project_actions == first + seq![cancel]);
        }
        assert(pending@.project_actions == queued + self@.new_task_actions(
            project_index as int,
            input,
        ));
    }
}

} // verus!
