//! What a frame queues while it is drawn, and how the queue changes the state
//! once the frame is done.

use crate::model::{Project, ProjectView, Task, TaskView, TodoApp, TodoAppView};
use crate::removal::{
    ascending_below, is_ascending_below, lemma_positions_from, lemma_without_keeps_prefix,
    lemma_without_map, lemma_without_nothing, lemma_without_one_more, positions, without,
};
use crate::text::{blank, is_blank, trim, trimmed};
use vstd::prelude::*;

verus! {

broadcast use vstd::std_specs::hash::group_hash_axioms;

/// A change to the project editors, queued while the projects are drawn.
#[derive(Clone, Debug, PartialEq, Eq)]
pub enum ProjectAction {
    /// Open the name editor on a project, with its name as the text.
    StartEdit { project_id: usize, name: String },
    /// Close the name editor.
    StopEdit,
    /// Show the row for a new task under a project.
    AddTask { project_id: usize },
    /// Add a task with this text to a project.
    CreateTask { project_id: usize, text: String },
    /// Hide the row for a new task and empty what was typed in it.
    CancelAddTask { project_id: usize },
}

/// A [`ProjectAction`] as plain values.
pub enum ProjectActionView {
    StartEdit { project_id: usize, name: Seq<char> },
    StopEdit,
    AddTask { project_id: usize },
    CreateTask { project_id: usize, text: Seq<char> },
    CancelAddTask { project_id: usize },
}

impl View for ProjectAction {
    type V = ProjectActionView;

    open spec fn view(&self) -> ProjectActionView {
        match *self {
            ProjectAction::StartEdit { project_id, name } => ProjectActionView::StartEdit {
                project_id,
                name: name@,
            },
            ProjectAction::StopEdit => ProjectActionView::StopEdit,
            ProjectAction::AddTask { project_id } => ProjectActionView::AddTask { project_id },
            ProjectAction::CreateTask { project_id, text } => ProjectActionView::CreateTask {
                project_id,
                text: text@,
            },
            ProjectAction::CancelAddTask { project_id } => ProjectActionView::CancelAddTask {
                project_id,
            },
        }
    }
}

/// A change to the task editor, queued while the tasks are drawn.
#[derive(Clone, Debug, PartialEq, Eq)]
pub enum TaskAction {
    /// Open the text editor on a task, with its text as the text.
    StartEdit { project_id: usize, task_id: usize, text: String },
    /// Close the text editor.
    StopEdit,
}

/// A [`TaskAction`] as plain values.
pub enum TaskActionView {
    StartEdit { project_id: usize, task_id: usize, text: Seq<char> },
    StopEdit,
}

impl View for TaskAction {
    type V = TaskActionView;

    open spec fn view(&self) -> TaskActionView {
        match *self {
            TaskAction::StartEdit { project_id, task_id, text } => TaskActionView::StartEdit {
                project_id,
                task_id,
                text: text@,
            },
            TaskAction::StopEdit => TaskActionView::StopEdit,
        }
    }
}

/// The views of a sequence of project actions, in the same order.
pub open spec fn project_action_views(actions: Seq<ProjectAction>) -> Seq<ProjectActionView> {
    actions.map_values(|a: ProjectAction| a@)
}

/// The views of a sequence of task actions, in the same order.
pub open spec fn task_action_views(actions: Seq<TaskAction>) -> Seq<TaskActionView> {
    actions.map_values(|a: TaskAction| a@)
}

/// What a frame has queued so far.
#[derive(Debug)]
pub struct Pending {
    /// Positions of the projects to delete.
    pub removed_projects: Vec<usize>,
    pub project_actions: Vec<ProjectAction>,
    pub task_actions: Vec<TaskAction>,
}

/// A [`Pending`] as plain values.
pub struct PendingView {
    pub removed_projects: Seq<usize>,
    pub project_actions: Seq<ProjectActionView>,
    pub task_actions: Seq<TaskActionView>,
}

impl View for Pending {
    type V = PendingView;

    open spec fn view(&self) -> PendingView {
        PendingView {
            removed_projects: self.removed_projects@,
            project_actions: project_action_views(self.project_actions@),
            task_actions: task_action_views(self.task_actions@),
        }
    }
}

impl PendingView {
    /// Nothing queued.
    pub open spec fn empty() -> PendingView {
        PendingView {
            removed_projects: Seq::empty(),
            project_actions: Seq::empty(),
            task_actions: Seq::empty(),
        }
    }
}

impl Pending {
    /// The queue of a frame that has drawn nothing yet.
    pub fn new() -> (pending: Pending)
        ensures
            pending@ == PendingView::empty(),
    {
        let pending = Pending {
            removed_projects: Vec::new(),
            project_actions: Vec::new(),
            task_actions: Vec::new(),
        };
        assert(pending@.project_actions == Seq::<ProjectActionView>::empty());
        assert(pending@.task_actions == Seq::<TaskActionView>::empty());
        pending
    }
}

impl TodoAppView {
    /// Whether some project has this id.
    pub open spec fn has_project(self, project_id: usize) -> bool {
        exists|i: int| self.is_first_with_id(project_id, i)
    }

    /// Whether the project at `i` is the first one with this id.
    pub open spec fn is_first_with_id(self, project_id: usize, i: int) -> bool {
        &&& 0 <= i < self.projects.len()
        &&& self.projects[i].id == project_id
        &&& forall|j: int| 0 <= j < i ==> (#[trigger] self.projects[j]).id != project_id
    }

    /// The position of the first project with this id.
    pub open spec fn project_position(self, project_id: usize) -> int {
        choose|i: int| self.is_first_with_id(project_id, i)
    }

    /// Adding a project needs a number for it, unless the name is blank and
    /// nothing is added.
    pub open spec fn can_add_project(self) -> bool {
        !blank(self.new_project_name) ==> self.next_project_id < usize::MAX
    }

    /// The state after the name typed for a new project is submitted. A
    /// blank name changes nothing. Any other name becomes, as typed, the
    /// name of a new project at the end of the list, expanded and without
    /// tasks, and the field is emptied.
    pub open spec fn add_project(self) -> TodoAppView {
        if blank(self.new_project_name) {
            self
        } else {
            TodoAppView {
                projects: self.projects.push(
                    ProjectView {
                        id: self.next_project_id,
                        name: self.new_project_name,
                        tasks: Seq::empty(),
                        expanded: true,
                    },
                ),
                next_project_id: (self.next_project_id + 1) as usize,
                new_project_name: Seq::empty(),
                ..self
            }
        }
    }

    /// Whether `text` would become a task of the project `project_id`.
    pub open spec fn adds_task(self, project_id: usize, text: Seq<char>) -> bool {
        self.has_project(project_id) && !blank(text)
    }

    /// Adding a task needs a number for it, unless nothing is added.
    pub open spec fn can_add_task(self, project_id: usize, text: Seq<char>) -> bool {
        self.adds_task(project_id, text) ==> self.next_task_id < usize::MAX
    }

    /// The state after `text` is submitted as a task of the project
    /// `project_id`. Nothing changes where no project has that id or the
    /// text is blank. Otherwise the first project with that id gets a task
    /// at its end, not completed, with the trimmed text.
    pub open spec fn add_task_to_project(self, project_id: usize, text: Seq<char>) -> TodoAppView {
        if self.adds_task(project_id, text) {
            let i = self.project_position(project_id);
            let project = self.projects[i];
            TodoAppView {
                projects: self.projects.update(
                    i,
                    ProjectView {
                        tasks: project.tasks.push(
                            TaskView {
                                id: self.next_task_id,
                                text: trimmed(text),
                                completed: false,
                            },
                        ),
                        ..project
                    },
                ),
                next_task_id: (self.next_task_id + 1) as usize,
                ..self
            }
        } else {
            self
        }
    }

    /// Whether the counters have room for what `action` adds.
    pub open spec fn can_apply_project_action(self, action: ProjectActionView) -> bool {
        match action {
            ProjectActionView::CreateTask { project_id, text } => self.can_add_task(
                project_id,
                text,
            ),
            _ => true,
        }
    }

    /// The state after one project action.
    pub open spec fn apply_project_action(self, action: ProjectActionView) -> TodoAppView {
        match action {
            ProjectActionView::StartEdit { project_id, name } => TodoAppView {
                editing_project: Some(project_id),
                edit_project_text: name,
                ..self
            },
            ProjectActionView::StopEdit => TodoAppView { editing_project: None, ..self },
            ProjectActionView::AddTask { project_id } => TodoAppView {
                adding_task_to_project: Some(project_id),
                right_click_task_text: if self.right_click_task_text.contains_key(project_id) {
                    self.right_click_task_text
                } else {
                    self.right_click_task_text.insert(project_id, Seq::empty())
                },
                ..self
            },
            ProjectActionView::CreateTask { project_id, text } => self.add_task_to_project(
                project_id,
                text,
            ),
            ProjectActionView::CancelAddTask { project_id } => TodoAppView {
                adding_task_to_project: None,
                right_click_task_text: if self.right_click_task_text.contains_key(project_id) {
                    self.right_click_task_text.insert(project_id, Seq::empty())
                } else {
                    self.right_click_task_text
                },
                ..self
            },
        }
    }

    /// Whether the counters have room for what `actions` add, one after the
    /// other.
    pub open spec fn can_apply_project_actions(self, actions: Seq<ProjectActionView>) -> bool
        decreases actions.len(),
    {
        if actions.len() == 0 {
            true
        } else {
            &&& self.can_apply_project_actions(actions.drop_last())
            &&& self.apply_project_actions(actions.drop_last()).can_apply_project_action(
                actions.last(),
            )
        }
    }

    /// The state after `actions`, applied from the first to the last.
    pub open spec fn apply_project_actions(self, actions: Seq<ProjectActionView>) -> TodoAppView
        decreases actions.len(),
    {
        if actions.len() == 0 {
            self
        } else {
            self.apply_project_actions(actions.drop_last()).apply_project_action(actions.last())
        }
    }

    /// The state after one task action.
    pub open spec fn apply_task_action(self, action: TaskActionView) -> TodoAppView {
        match action {
            TaskActionView::StartEdit { project_id, task_id, text } => TodoAppView {
                editing_task: Some((project_id, task_id)),
                edit_task_text: text,
                ..self
            },
            TaskActionView::StopEdit => TodoAppView { editing_task: None, ..self },
        }
    }

    /// The state after `actions`, applied from the first to the last.
    pub open spec fn apply_task_actions(self, actions: Seq<TaskActionView>) -> TodoAppView
        decreases actions.len(),
    {
        if actions.len() == 0 {
            self
        } else {
            self.apply_task_actions(actions.drop_last()).apply_task_action(actions.last())
        }
    }

    /// The ids of the projects at the positions that `list` names.
    pub open spec fn ids_at(self, list: Seq<usize>) -> Set<usize> {
        Set::new(
            |id: usize|
                exists|k: int|
                    0 <= k < list.len() && (#[trigger] list[k]) < self.projects.len()
                        && self.projects[list[k] as int].id == id,
        )
    }

    /// The state after the projects at the positions in `list` are deleted:
    /// the others stay in their order, and what was typed for a new task of
    /// a deleted project goes with it.
    pub open spec fn remove_projects(self, list: Seq<usize>) -> TodoAppView {
        TodoAppView {
            projects: without(self.projects, positions(list)),
            new_task_texts: self.new_task_texts.remove_keys(self.ids_at(list)),
            ..self
        }
    }

    /// Whether the state can take what a frame queued: the counters have
    /// room for the tasks to create, and the projects to delete are named
    /// by position, each once, from the first to the last.
    pub open spec fn can_finish_frame(self, pending: PendingView) -> bool {
        &&& self.can_apply_project_actions(pending.project_actions)
        &&& ascending_below(pending.removed_projects, self.projects.len() as int)
    }

    /// The state after a frame: first its project actions, then its task
    /// actions, then the deletions.
    pub open spec fn finish_frame(self, pending: PendingView) -> TodoAppView {
        self.apply_project_actions(pending.project_actions).apply_task_actions(
            pending.task_actions,
        ).remove_projects(pending.removed_projects)
    }
}

impl TodoApp {
    /// Submits the name typed for a new project.
    pub fn add_project(&mut self)
        requires
            old(self)@.can_add_project(),
        ensures
            final(self)@ == old(self)@.add_project(),
    {
        if !is_blank(self.new_project_name.as_str()) {
            let project = Project {
                id: self.next_project_id,
                name: self.new_project_name.clone(),
                tasks: Vec::new(),
                expanded: true,
            };
            assert(project@.tasks == Seq::<TaskView>::empty());
            self.projects.push(project);
            self.next_project_id += 1;
            self.new_project_name = String::new();
            assert(self@.projects == old(self)@.projects.push(project@));
        }
    }

    /// Submits `task_text` as a task of the project `project_id`.
    pub fn add_task_to_project(&mut self, project_id: usize, task_text: String)
        requires
            old(self)@.can_add_task(project_id, task_text@),
        ensures
            final(self)@ == old(self)@.add_task_to_project(project_id, task_text@),
    {
        let mut i: usize = 0;
        while i < self.projects.len() && self.projects[i].id != project_id
            invariant
                *self == *old(self),
                i <= self.projects.len(),
                forall|j: int| 0 <= j < i ==> (#[trigger] self@.projects[j]).id != project_id,
            decreases self.projects.len() - i,
        {
            i = i + 1;
        }
        if i < self.projects.len() {
            assert(self@.is_first_with_id(project_id, i as int));
            assert(self@.project_position(project_id) == i);
            if !is_blank(task_text.as_str()) {
                let task = Task {
                    id: self.next_task_id,
                    text: trim(task_text.as_str()),
                    completed: false,
                };
                self.projects[i].tasks.push(task);
                self.next_task_id += 1;
                proof {
                    let k = i as int;
                    assert(self@.projects[k].tasks == old(self)@.projects[k].tasks.push(task@));
                    assert(self@.projects == old(self)@.add_task_to_project(
                        project_id,
                        task_text@,
                    ).projects);
                }
            }
        } else {
            assert(!self@.has_project(project_id));
        }
    }
    /// Applies one project action.
    pub fn apply_project_action(&mut self, action: ProjectAction)
        requires
            old(self)@.can_apply_project_action(action@),
        ensures
            final(self)@ == old(self)@.apply_project_action(action@),
    {
        match action {
            ProjectAction::StartEdit { project_id, name } => {
                self.editing_project = Some(project_id);
                self.edit_project_text = name;
            },
            ProjectAction::StopEdit => {
                self.editing_project = None;
            },
            ProjectAction::AddTask { project_id } => {
                self.adding_task_to_project = Some(project_id);
                if !self.right_click_task_text.contains_key(&project_id) {
                    self.right_click_task_text.insert(project_id, String::new());
                    assert(self@.right_click_task_text == old(self)@.right_click_task_text.insert(
                        project_id,
                        Seq::empty(),
                    ));
                }
            },
            ProjectAction::CreateTask { project_id, text } => {
                self.add_task_to_project(project_id, text);
            },
            ProjectAction::CancelAddTask { project_id } => {
                self.adding_task_to_project = None;
                if self.right_click_task_text.contains_key(&project_id) {
                    self.right_click_task_text.insert(project_id, String::new());
                    assert(self@.right_click_task_text == old(self)@.right_click_task_text.insert(
                        project_id,
                        Seq::empty(),
                    ));
                }
            },
        }
    }

    /// Applies one task action.
    pub fn apply_task_action(&mut self, action: TaskAction)
        ensures
            final(self)@ == old(self)@.apply_task_action(action@),
    {
        match action {
            TaskAction::StartEdit { project_id, task_id, text } => {
                self.editing_task = Some((project_id, task_id));
                self.edit_task_text = text;
            },
            TaskAction::StopEdit => {
                self.editing_task = None;
            },
        }
    }

    /// Applies the project actions of a frame, in the order in which they
    /// were queued.
    pub fn apply_project_actions(&mut self, actions: Vec<ProjectAction>)
        requires
            old(self)@.can_apply_project_actions(project_action_views(actions@)),
        ensures
            final(self)@ == old(self)@.apply_project_actions(project_action_views(actions@)),
    {
        let ghost all = project_action_views(actions@);
        for action in it: actions
            invariant
                it.seq() == actions@,
                all == project_action_views(actions@),
                old(self)@.can_apply_project_actions(all),
                self@ == old(self)@.apply_project_actions(all.take(it.index() as int)),
        {
            proof {
                let k = it.index() as int;
                assert(all.take(k + 1).drop_last() == all.take(k));
                assert(all.take(k + 1).last() == action@);
                lemma_can_apply_prefix(old(self)@, all, k + 1);
            }
            self.apply_project_action(action);
        }
        assert(all.take(all.len() as int) == all);
    }

    /// Applies the task actions of a frame, in the order in which they were
    /// queued.
    pub fn apply_task_actions(&mut self, actions: Vec<TaskAction>)
        ensures
            final(self)@ == old(self)@.apply_task_actions(task_action_views(actions@)),
    {
        let ghost all = task_action_views(actions@);
        for action in it: actions
            invariant
                it.seq() == actions@,
                all == task_action_views(actions@),
                self@ == old(self)@.apply_task_actions(all.take(it.index() as int)),
        {
            proof {
                let k = it.index() as int;
                assert(all.take(k + 1).drop_last() == all.take(k));
                assert(all.take(k + 1).last() == action@);
            }
            self.apply_task_action(action);
        }
        assert(all.take(all.len() as int) == all);
    }

    /// Deletes the projects at the positions that `list` names.
    pub fn remove_projects(&mut self, list: &Vec<usize>)
        requires
            ascending_below(list@, old(self).projects.len() as int),
        ensures
            final(self)@ == old(self)@.remove_projects(list@),
    {
        let ghost before = old(self).projects@;
        let ghost end = list.len() as int;
        let mut k: usize = list.len();
        proof {
            lemma_without_nothing(before, positions(list@.subrange(end, end)));
            assert(old(self).new_task_texts@.remove_keys(
                old(self)@.ids_at(list@.subrange(end, end)),
            ) == old(self).new_task_texts@);
        }
        while k > 0
            invariant
                k <= list.len(),
                end == list.len(),
                before == old(self).projects@,
                ascending_below(list@, before.len() as int),
                self.projects@ == without(before, positions(list@.subrange(k as int, end))),
                self.new_task_texts@ == old(self).new_task_texts@.remove_keys(
                    old(self)@.ids_at(list@.subrange(k as int, end)),
                ),
                *self == (TodoApp {
                    projects: self.projects,
                    new_task_texts: self.new_task_texts,
                    ..*old(self)
                }),
            decreases k,
        {
            k = k - 1;
            let index = list[k];
            proof {
                let later = list@.subrange(k + 1, end);
                assert forall|i: int| positions(later).contains(i) implies index < i by {
                    let j = choose|j: int| 0 <= j < later.len() && #[trigger] later[j] == i;
                    assert(later[j] == list@[j + k + 1]);
                }
                lemma_without_one_more(before, positions(later), index as int);
                lemma_without_keeps_prefix(before, positions(later), index + 1);
                assert(self.projects@[index as int] == without(before, positions(later)).subrange(
                    0,
                    index + 1,
                )[index as int]);
                assert(before.subrange(0, index + 1)[index as int] == before[index as int]);
                lemma_positions_from(list@, k as int);
            }
            let project_id = self.projects[index].id;
            self.projects.remove(index);
            self.new_task_texts.remove(&project_id);
            proof {
                let later = list@.subrange(k + 1, end);
                let now = list@.subrange(k as int, end);
                assert(now[0] == index);
                assert(old(self)@.projects[index as int].id == project_id);
                assert forall|id: usize| old(self)@.ids_at(now).contains(id) == old(self)@.ids_at(
                    later,
                ).insert(project_id).contains(id) by {
                    if old(self)@.ids_at(now).contains(id) {
                        let j = choose|j: int|
                            0 <= j < now.len() && (#[trigger] now[j]) < old(self)@.projects.len()
                                && old(self)@.projects[now[j] as int].id == id;
                        if j > 0 {
                            assert(later[j - 1] == now[j]);
                        }
                    }
                    if old(self)@.ids_at(later).contains(id) {
                        let j = choose|j: int|
                            0 <= j < later.len() && (#[trigger] later[j]) < old(
                                self,
                            )@.projects.len() && old(self)@.projects[later[j] as int].id == id;
                        assert(now[j + 1] == later[j]);
                    }
                }
                assert(old(self)@.ids_at(now) == old(self)@.ids_at(later).insert(project_id));
                assert(self.new_task_texts@ == old(self).new_task_texts@.remove_keys(
                    old(self)@.ids_at(now),
                ));
            }
        }
        proof {
            assert(list@.subrange(0, end) == list@);
            lemma_without_map(before, positions(list@), |p: Project| p@);
            assert(self@.new_task_texts == old(self)@.new_task_texts.remove_keys(
                old(self)@.ids_at(list@),
            ));
        }
    }

    /// Tells whether the state can take what a frame queued, going by the
    /// number of project actions instead of by what each of them adds.
    pub fn has_room_for(&self, pending: &Pending) -> (b: bool)
        ensures
            b == (self.next_task_id + pending.project_actions.len() <= usize::MAX
                && ascending_below(pending.removed_projects@, self.projects.len() as int)),
            b ==> self@.can_finish_frame(pending@),
    {
        let room = pending.project_actions.len() <= usize::MAX - self.next_task_id;
        let b = room && is_ascending_below(&pending.removed_projects, self.projects.len());
        proof {
            if b {
                lemma_room_for_actions(self@, pending@.project_actions);
            }
        }
        b
    }

    /// Ends a frame: applies what it queued.
    pub fn finish_frame(&mut self, pending: Pending)
        requires
            old(self)@.can_finish_frame(pending@),
        ensures
            final(self)@ == old(self)@.finish_frame(pending@),
    {
        let Pending { removed_projects, project_actions, task_actions } = pending;
        proof {
            lemma_project_actions_keep_list(old(self)@, pending@.project_actions);
            lemma_task_actions_keep_list(
                old(self)@.apply_project_actions(pending@.project_actions),
                pending@.task_actions,
            );
        }
        self.apply_project_actions(project_actions);
        self.apply_task_actions(task_actions);
        self.remove_projects(&removed_projects);
    }
}

/// Project actions neither add nor delete a project, and take one task
/// number at most each.
pub proof fn lemma_project_actions_keep_list(state: TodoAppView, actions: Seq<ProjectActionView>)
    requires
        state.can_apply_project_actions(actions),
    ensures
        state.apply_project_actions(actions).projects.len() == state.projects.len(),
        state.apply_project_actions(actions).next_project_id == state.next_project_id,
        state.next_task_id <= state.apply_project_actions(actions).next_task_id,
        state.apply_project_actions(actions).next_task_id <= state.next_task_id + actions.len(),
    decreases actions.len(),
{
    if actions.len() > 0 {
        lemma_project_actions_keep_list(state, actions.drop_last());
    }
}

/// Task actions change nothing but the task editor.
pub proof fn lemma_task_actions_keep_list(state: TodoAppView, actions: Seq<TaskActionView>)
    ensures
        state.apply_task_actions(actions) == (TodoAppView {
            editing_task: state.apply_task_actions(actions).editing_task,
            edit_task_text: state.apply_task_actions(actions).edit_task_text,
            ..state
        }),
    decreases actions.len(),
{
    if actions.len() > 0 {
        lemma_task_actions_keep_list(state, actions.drop_last());
    }
}

/// The counters have room for a sequence of actions where the task counter
/// is as far from its limit as the sequence is long.
pub proof fn lemma_room_for_actions(state: TodoAppView, actions: Seq<ProjectActionView>)
    requires
        state.next_task_id + actions.len() <= usize::MAX,
    ensures
        state.can_apply_project_actions(actions),
    decreases actions.len(),
{
    if actions.len() > 0 {
        lemma_room_for_actions(state, actions.drop_last());
        lemma_project_actions_keep_list(state, actions.drop_last());
    }
}

/// Where the counters have room for a sequence of actions, they have room
/// for each of its beginnings.
pub proof fn lemma_can_apply_prefix(state: TodoAppView, actions: Seq<ProjectActionView>, n: int)
    requires
        state.can_apply_project_actions(actions),
        0 <= n <= actions.len(),
    ensures
        state.can_apply_project_actions(actions.take(n)),
    decreases actions.len(),
{
    if n < actions.len() {
        lemma_can_apply_prefix(state, actions.drop_last(), n);
        assert(actions.drop_last().take(n) == actions.take(n));
    } else {
        assert(actions.take(n) == actions);
    }
}

} // verus!
