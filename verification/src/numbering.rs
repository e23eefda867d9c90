//! What holds of the list from its first state on: numbers are given once.

use crate::actions::{PendingView, ProjectActionView, TaskActionView};
use crate::model::{ProjectView, TaskView, TodoAppView};
use crate::removal::{
    lemma_without_is_part, lemma_without_keeps_distinct, lemma_without_keeps_others, positions,
    without,
};
use crate::rows::EditorInput;
use vstd::prelude::*;

verus! {

impl TodoAppView {
    /// Every project has a number that the counter has passed.
    pub open spec fn project_ids_given(self) -> bool {
        forall|i: int|
            0 <= i < self.projects.len() ==> (#[trigger] self.projects[i]).id
                < self.next_project_id
    }

    /// No two projects have the same number.
    pub open spec fn project_ids_distinct(self) -> bool {
        forall|i: int, j: int|
            0 <= i < j < self.projects.len() ==> (#[trigger] self.projects[i]).id
                != (#[trigger] self.projects[j]).id
    }

    /// Every task has a number that the counter has passed.
    pub open spec fn task_ids_given(self) -> bool {
        forall|i: int, k: int|
            0 <= i < self.projects.len() && 0 <= k < self.projects[i].tasks.len() ==> (
            #[trigger] self.projects[i].tasks[k]).id < self.next_task_id
    }

    /// No two tasks have the same number, whether in one project or in two.
    pub open spec fn task_ids_distinct(self) -> bool {
        forall|i: int, k: int, j: int, l: int|
            0 <= i < self.projects.len() && 0 <= k < self.projects[i].tasks.len() && 0 <= j
                < self.projects.len() && 0 <= l < self.projects[j].tasks.len() && (
            #[trigger] self.projects[i].tasks[k]).id == (#[trigger] self.projects[j].tasks[l]).id
                ==> i == j && k == l
    }

    /// The project that shows the row for a new task has a text for it.
    pub open spec fn draft_ready(self) -> bool {
        self.adding_task_to_project matches Some(id) ==> self.right_click_task_text.contains_key(
            id,
        )
    }

    /// The state is one that the list can reach from its first state.
    pub open spec fn well_formed(self) -> bool {
        &&& self.project_ids_given()
        &&& self.project_ids_distinct()
        &&& self.task_ids_given()
        &&& self.task_ids_distinct()
        &&& self.draft_ready()
    }
}

/// The first state is well formed.
pub proof fn lemma_initial_well_formed()
    ensures
        TodoAppView::initial().well_formed(),
{
}

/// Adding a project keeps the state well formed.
pub proof fn lemma_add_project_well_formed(state: TodoAppView)
    requires
        state.well_formed(),
        state.can_add_project(),
    ensures
        state.add_project().well_formed(),
{
}

/// In a well-formed state a project is found by its number: the first one
/// with a number is the only one.
pub proof fn lemma_project_position_unique(state: TodoAppView, i: int)
    requires
        state.project_ids_distinct(),
        0 <= i < state.projects.len(),
    ensures
        state.has_project(state.projects[i].id),
        state.project_position(state.projects[i].id) == i,
{
    assert(state.is_first_with_id(state.projects[i].id, i));
}

/// In a well-formed state the name editor is open on one project at most,
/// and so is the row for a new task.
pub proof fn lemma_one_project_row(state: TodoAppView, i: int, j: int)
    requires
        state.well_formed(),
        0 <= i < state.projects.len(),
        0 <= j < state.projects.len(),
    ensures
        state.is_editing_project(i) && state.is_editing_project(j) ==> i == j,
        state.is_adding_task(i) && state.is_adding_task(j) ==> i == j,
{
    if i < j {
        assert(state.projects[i].id != state.projects[j].id);
    } else if j < i {
        assert(state.projects[j].id != state.projects[i].id);
    }
}

/// In a well-formed state the text editor is open on one task at most.
pub proof fn lemma_one_task_row(state: TodoAppView, i: int, k: int, j: int, l: int)
    requires
        state.well_formed(),
        0 <= i < state.projects.len(),
        0 <= k < state.projects[i].tasks.len(),
        0 <= j < state.projects.len(),
        0 <= l < state.projects[j].tasks.len(),
    ensures
        state.is_editing_task(i, k) && state.is_editing_task(j, l) ==> i == j && k == l,
{
    if state.is_editing_task(i, k) && state.is_editing_task(j, l) {
        assert(state.projects[i].tasks[k].id == state.projects[j].tasks[l].id);
    }
}

/// In a well-formed state a project that shows the row for a new task has a
/// text for that row.
pub proof fn lemma_new_task_row_has_text(state: TodoAppView, i: int)
    requires
        state.well_formed(),
        0 <= i < state.projects.len(),
        state.is_adding_task(i),
    ensures
        state.right_click_task_text.contains_key(state.projects[i].id),
{
}

/// Adding a task keeps the state well formed.
pub proof fn lemma_add_task_well_formed(state: TodoAppView, project_id: usize, text: Seq<char>)
    requires
        state.well_formed(),
        state.can_add_task(project_id, text),
    ensures
        state.add_task_to_project(project_id, text).well_formed(),
{
    if state.adds_task(project_id, text) {
        let after = state.add_task_to_project(project_id, text);
        let at = state.project_position(project_id);
        assert(state.is_first_with_id(project_id, at));
        assert forall|i: int, k: int|
            0 <= i < after.projects.len() && 0 <= k < after.projects[i].tasks.len() implies (
        #[trigger] after.projects[i].tasks[k]).id < after.next_task_id by {
            if i == at && k == state.projects[i].tasks.len() {
            } else {
                assert(after.projects[i].tasks[k] == state.projects[i].tasks[k]);
            }
        }
        assert forall|i: int, k: int, j: int, l: int|
            0 <= i < after.projects.len() && 0 <= k < after.projects[i].tasks.len() && 0 <= j
                < after.projects.len() && 0 <= l < after.projects[j].tasks.len() && (
            #[trigger] after.projects[i].tasks[k]).id == (
            #[trigger] after.projects[j].tasks[l]).id implies i == j && k == l by {
            let new_ik = i == at && k == state.projects[at].tasks.len();
            let new_jl = j == at && l == state.projects[at].tasks.len();
            if !new_ik {
                assert(after.projects[i].tasks[k] == state.projects[i].tasks[k]);
            }
            if !new_jl {
                assert(after.projects[j].tasks[l] == state.projects[j].tasks[l]);
            }
        }
    }
}

/// A project action keeps the state well formed.
pub proof fn lemma_project_action_well_formed(state: TodoAppView, action: ProjectActionView)
    requires
        state.well_formed(),
        state.can_apply_project_action(action),
    ensures
        state.apply_project_action(action).well_formed(),
{
    if let ProjectActionView::CreateTask { project_id, text } = action {
        lemma_add_task_well_formed(state, project_id, text);
    }
}

/// The project actions of a frame keep the state well formed.
pub proof fn lemma_project_actions_well_formed(state: TodoAppView, actions: Seq<ProjectActionView>)
    requires
        state.well_formed(),
        state.can_apply_project_actions(actions),
    ensures
        state.apply_project_actions(actions).well_formed(),
    decreases actions.len(),
{
    if actions.len() > 0 {
        lemma_project_actions_well_formed(state, actions.drop_last());
        lemma_project_action_well_formed(
            state.apply_project_actions(actions.drop_last()),
            actions.last(),
        );
    }
}

/// The task actions of a frame keep the state well formed.
pub proof fn lemma_task_actions_well_formed(state: TodoAppView, actions: Seq<TaskActionView>)
    requires
        state.well_formed(),
    ensures
        state.apply_task_actions(actions).well_formed(),
    decreases actions.len(),
{
    if actions.len() > 0 {
        lemma_task_actions_well_formed(state, actions.drop_last());
    }
}

/// Deleting projects keeps the state well formed.
pub proof fn lemma_remove_projects_well_formed(state: TodoAppView, list: Seq<usize>)
    requires
        state.well_formed(),
    ensures
        state.remove_projects(list).well_formed(),
{
    let after = state.remove_projects(list);
    let gone = positions(list);
    assert forall|i: int| 0 <= i < after.projects.len() implies (#[trigger] after.projects[i]).id
        < after.next_project_id by {
        lemma_without_is_part(state.projects, gone, i);
    }
    lemma_without_keeps_distinct(state.projects, gone, |p: ProjectView| p.id);
    assert forall|i: int, k: int|
        0 <= i < after.projects.len() && 0 <= k < after.projects[i].tasks.len() implies (
    #[trigger] after.projects[i].tasks[k]).id < after.next_task_id by {
        lemma_without_is_part(state.projects, gone, i);
        let a = choose|a: int|
            0 <= a < state.projects.len() && !gone.contains(a) && #[trigger] state.projects[a]
                == after.projects[i];
        assert(state.projects[a].tasks[k].id < state.next_task_id);
    }
    assert forall|i: int, k: int, j: int, l: int|
        0 <= i < after.projects.len() && 0 <= k < after.projects[i].tasks.len() && 0 <= j
            < after.projects.len() && 0 <= l < after.projects[j].tasks.len() && (
        #[trigger] after.projects[i].tasks[k]).id == (
        #[trigger] after.projects[j].tasks[l]).id implies i == j && k == l by {
        lemma_without_is_part(state.projects, gone, i);
        lemma_without_is_part(state.projects, gone, j);
        let a = choose|a: int|
            0 <= a < state.projects.len() && !gone.contains(a) && #[trigger] state.projects[a]
                == after.projects[i];
        let b = choose|b: int|
            0 <= b < state.projects.len() && !gone.contains(b) && #[trigger] state.projects[b]
                == after.projects[j];
        assert(state.projects[a].tasks[k].id == state.projects[b].tasks[l].id);
        assert(a == b && k == l);
        assert(after.projects[i].id == after.projects[j].id);
    }
}

/// A project that is deleted from a well-formed state is gone: no project
/// has its number afterwards.
pub proof fn lemma_removed_project_is_gone(state: TodoAppView, list: Seq<usize>, k: int)
    requires
        state.well_formed(),
        0 <= k < list.len(),
        list[k] < state.projects.len(),
    ensures
        !state.remove_projects(list).has_project(state.projects[list[k] as int].id),
{
    let after = state.remove_projects(list);
    let gone = positions(list);
    let id = state.projects[list[k] as int].id;
    assert(gone.contains(list[k] as int));
    if after.has_project(id) {
        let m = choose|m: int| after.is_first_with_id(id, m);
        lemma_without_is_part(state.projects, gone, m);
        let a = choose|a: int|
            0 <= a < state.projects.len() && !gone.contains(a) && #[trigger] state.projects[a]
                == after.projects[m];
        if a < list[k] {
            assert(state.projects[a].id != state.projects[list[k] as int].id);
        } else {
            assert(state.projects[list[k] as int].id != state.projects[a].id);
        }
    }
}

/// A project that is not deleted stays, with its number.
pub proof fn lemma_other_project_stays(state: TodoAppView, list: Seq<usize>, i: int)
    requires
        0 <= i < state.projects.len(),
        !positions(list).contains(i),
    ensures
        state.remove_projects(list).has_project(state.projects[i].id),
{
    let after = state.remove_projects(list);
    let id = state.projects[i].id;
    lemma_without_keeps_others(state.projects, positions(list), i);
    let k = choose|k: int|
        0 <= k < after.projects.len() && #[trigger] after.projects[k] == state.projects[i];
    lemma_first_with_id(after, id, k);
}

/// Where a project has a number, some project is the first with it.
proof fn lemma_first_with_id(state: TodoAppView, id: usize, k: int)
    requires
        0 <= k < state.projects.len(),
        state.projects[k].id == id,
    ensures
        state.has_project(id),
    decreases k,
{
    if exists|j: int| 0 <= j < k && (#[trigger] state.projects[j]).id == id {
        let j = choose|j: int| 0 <= j < k && (#[trigger] state.projects[j]).id == id;
        lemma_first_with_id(state, id, j);
    } else {
        assert(state.is_first_with_id(id, k));
    }
}

/// The end of a frame keeps the state well formed.
pub proof fn lemma_finish_frame_well_formed(state: TodoAppView, pending: PendingView)
    requires
        state.well_formed(),
        state.can_finish_frame(pending),
    ensures
        state.finish_frame(pending).well_formed(),
{
    lemma_project_actions_well_formed(state, pending.project_actions);
    let second = state.apply_project_actions(pending.project_actions);
    lemma_task_actions_well_formed(second, pending.task_actions);
    lemma_remove_projects_well_formed(
        second.apply_task_actions(pending.task_actions),
        pending.removed_projects,
    );
}

/// To show or hide a project keeps the state well formed.
pub proof fn lemma_toggle_expanded_well_formed(state: TodoAppView, i: int)
    requires
        state.well_formed(),
        0 <= i < state.projects.len(),
    ensures
        state.toggle_expanded(i).well_formed(),
{
    let after = state.toggle_expanded(i);
    assert forall|j: int| 0 <= j < after.projects.len() implies (#[trigger] after.projects[j]).id
        == state.projects[j].id && after.projects[j].tasks == state.projects[j].tasks by {}
    lemma_same_numbers_well_formed(state, after);
}

/// To rename a project keeps the state well formed.
pub proof fn lemma_commit_project_name_well_formed(state: TodoAppView, i: int, input: EditorInput)
    requires
        state.well_formed(),
        0 <= i < state.projects.len(),
    ensures
        state.commit_project_name(i, input).well_formed(),
{
    let after = state.commit_project_name(i, input);
    assert forall|j: int| 0 <= j < after.projects.len() implies (#[trigger] after.projects[j]).id
        == state.projects[j].id && after.projects[j].tasks == state.projects[j].tasks by {}
    lemma_same_numbers_well_formed(state, after);
}

/// A state that differs from a well-formed one in neither counters nor
/// numbers nor the row for a new task is well formed too.
proof fn lemma_same_numbers_well_formed(state: TodoAppView, after: TodoAppView)
    requires
        state.well_formed(),
        after.projects.len() == state.projects.len(),
        after.next_project_id == state.next_project_id,
        after.next_task_id == state.next_task_id,
        after.adding_task_to_project == state.adding_task_to_project,
        after.right_click_task_text == state.right_click_task_text,
        forall|j: int|
            0 <= j < after.projects.len() ==> (#[trigger] after.projects[j]).id
                == state.projects[j].id && after.projects[j].tasks.len()
                == state.projects[j].tasks.len(),
        forall|j: int, k: int|
            0 <= j < after.projects.len() && 0 <= k < after.projects[j].tasks.len() ==> (
            #[trigger] after.projects[j].tasks[k]).id == state.projects[j].tasks[k].id,
    ensures
        after.well_formed(),
{
    assert forall|i: int| 0 <= i < after.projects.len() implies (#[trigger] after.projects[i]).id
        < after.next_project_id by {
        assert(state.projects[i].id < state.next_project_id);
    }
    assert forall|i: int, j: int| 0 <= i < j < after.projects.len() implies (
    #[trigger] after.projects[i]).id != (#[trigger] after.projects[j]).id by {
        assert(state.projects[i].id != state.projects[j].id);
    }
    assert forall|i: int, k: int|
        0 <= i < after.projects.len() && 0 <= k < after.projects[i].tasks.len() implies (
    #[trigger] after.projects[i].tasks[k]).id < after.next_task_id by {
        assert(state.projects[i].tasks[k].id < state.next_task_id);
    }
    assert forall|i: int, k: int, j: int, l: int|
        0 <= i < after.projects.len() && 0 <= k < after.projects[i].tasks.len() && 0 <= j
            < after.projects.len() && 0 <= l < after.projects[j].tasks.len() && (
        #[trigger] after.projects[i].tasks[k]).id == (
        #[trigger] after.projects[j].tasks[l]).id implies i == j && k == l by {
        assert(state.projects[i].tasks[k].id == state.projects[j].tasks[l].id);
    }
}

/// To change the text of a task keeps the state well formed.
pub proof fn lemma_commit_task_text_well_formed(
    state: TodoAppView,
    i: int,
    k: int,
    input: EditorInput,
)
    requires
        state.well_formed(),
        0 <= i < state.projects.len(),
        0 <= k < state.projects[i].tasks.len(),
    ensures
        state.commit_task_text(i, k, input).well_formed(),
{
    let after = state.commit_task_text(i, k, input);
    assert forall|j: int| 0 <= j < after.projects.len() implies (#[trigger] after.projects[j]).id
        == state.projects[j].id && after.projects[j].tasks.len()
        == state.projects[j].tasks.len() by {}
    assert forall|j: int, l: int|
        0 <= j < after.projects.len() && 0 <= l < after.projects[j].tasks.len() implies (
    #[trigger] after.projects[j].tasks[l]).id == state.projects[j].tasks[l].id by {}
    lemma_same_numbers_well_formed(state, after);
}

/// Deleting tasks of a project keeps the state well formed.
pub proof fn lemma_remove_tasks_well_formed(state: TodoAppView, i: int, list: Seq<usize>)
    requires
        state.well_formed(),
        0 <= i < state.projects.len(),
    ensures
        state.remove_tasks(i, list).well_formed(),
{
    let after = state.remove_tasks(i, list);
    let gone = positions(list);
    let tasks = state.projects[i].tasks;
    assert forall|j: int| 0 <= j < after.projects.len() implies (#[trigger] after.projects[j]).id
        < after.next_project_id by {
        assert(state.projects[j].id < state.next_project_id);
    }
    assert forall|a: int, b: int| 0 <= a < b < after.projects.len() implies (
    #[trigger] after.projects[a]).id != (#[trigger] after.projects[b]).id by {
        assert(state.projects[a].id != state.projects[b].id);
    }
    assert forall|j: int, k: int|
        0 <= j < after.projects.len() && 0 <= k < after.projects[j].tasks.len() implies (
    #[trigger] after.projects[j].tasks[k]).id < after.next_task_id by {
        let at = origin(state, i, gone, j, k);
        assert(state.projects[j].tasks[at].id < state.next_task_id);
    }
    lemma_without_keeps_distinct(tasks, gone, |t: TaskView| t.id);
    assert forall|j: int, k: int, m: int, l: int|
        0 <= j < after.projects.len() && 0 <= k < after.projects[j].tasks.len() && 0 <= m
            < after.projects.len() && 0 <= l < after.projects[m].tasks.len() && (
        #[trigger] after.projects[j].tasks[k]).id == (
        #[trigger] after.projects[m].tasks[l]).id implies j == m && k == l by {
        let a = origin(state, i, gone, j, k);
        let b = origin(state, i, gone, m, l);
        assert(state.projects[j].tasks[a].id == state.projects[m].tasks[b].id);
        if j == i && m == i && k != l {
            if k < l {
                assert(without(tasks, gone)[k].id != without(tasks, gone)[l].id);
            } else {
                assert(without(tasks, gone)[l].id != without(tasks, gone)[k].id);
            }
        }
    }
}

/// Where the task at `k` of the project at `j` stood before tasks of the
/// project at `i` were deleted.
proof fn origin(state: TodoAppView, i: int, gone: Set<int>, j: int, k: int) -> (at: int)
    requires
        0 <= i < state.projects.len(),
        0 <= j < state.projects.len(),
        0 <= k < (if j == i {
            without(state.projects[i].tasks, gone)
        } else {
            state.projects[j].tasks
        }).len(),
    ensures
        0 <= at < state.projects[j].tasks.len(),
        state.projects[j].tasks[at] == (if j == i {
            without(state.projects[i].tasks, gone)
        } else {
            state.projects[j].tasks
        })[k],
{
    if j == i {
        lemma_without_is_part(state.projects[i].tasks, gone, k);
        choose|a: int|
            0 <= a < state.projects[i].tasks.len() && !gone.contains(a)
                && #[trigger] state.projects[i].tasks[a] == without(
                state.projects[i].tasks,
                gone,
            )[k]
    } else {
        k
    }
}

} // verus!
