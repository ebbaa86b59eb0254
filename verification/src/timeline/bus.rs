//! The command bus: the single mutation path for a project, with undo and
//! redo history.

use vstd::prelude::*;

use crate::timeline::command::{apply_spec, executable_on, Command, CommandView};
use crate::timeline::describe::describe_text;
use crate::timeline::error::CoreError;
use crate::timeline::ids::fresh_uuid;
use crate::timeline::model::{Project, ProjectView};

verus! {

/// Executes commands against a project and keeps undo/redo history: each
/// history entry pairs a command with the project on the other side of it.
#[derive(Debug)]
pub struct CommandBus {
    project: Project,
    undo_stack: Vec<(Command, Project)>,
    redo_stack: Vec<(Command, Project)>,
}

/// The mathematical value of a [`CommandBus`].
#[verifier::ext_equal]
pub struct BusView {
    pub project: ProjectView,
    /// Executed commands, oldest first, each with the project before it.
    pub undo: Seq<(CommandView, ProjectView)>,
    /// Undone commands, most recently undone last, each with the project
    /// after it.
    pub redo: Seq<(CommandView, ProjectView)>,
}

/// The views of a history stack.
pub open spec fn entry_views(s: Seq<(Command, Project)>) -> Seq<(CommandView, ProjectView)> {
    s.map_values(|e: (Command, Project)| (e.0@, e.1@))
}

impl View for CommandBus {
    type V = BusView;

    closed spec fn view(&self) -> BusView {
        BusView {
            project: self.project@,
            undo: entry_views(self.undo_stack@),
            redo: entry_views(self.redo_stack@),
        }
    }
}

/// What executing `cmd` does to the bus: on success the command and the
/// project before it go on the undo stack and the redo stack empties; on
/// failure nothing changes.
pub open spec fn execute_spec(b: BusView, cmd: CommandView, fresh: u128) -> Result<BusView, CoreError> {
    match apply_spec(cmd, b.project, fresh) {
        Ok(np) => Ok(BusView { project: np, undo: b.undo.push((cmd, b.project)), redo: Seq::empty() }),
        Err(e) => Err(e),
    }
}

/// What undoing does: the last executed command's earlier project comes
/// back and the command, with the project it is leaving, moves to the redo
/// stack.
pub open spec fn undo_spec(b: BusView) -> Result<(CommandView, BusView), CoreError> {
    if b.undo.len() == 0 {
        Err(CoreError::NothingToUndo)
    } else {
        let (c, pre) = b.undo.last();
        Ok((c, BusView { project: pre, undo: b.undo.drop_last(), redo: b.redo.push((c, b.project)) }))
    }
}

/// What redoing does: the mirror image of [`undo_spec`].
pub open spec fn redo_spec(b: BusView) -> Result<(CommandView, BusView), CoreError> {
    if b.redo.len() == 0 {
        Err(CoreError::NothingToRedo)
    } else {
        let (c, post) = b.redo.last();
        Ok((c, BusView { project: post, undo: b.undo.push((c, b.project)), redo: b.redo.drop_last() }))
    }
}

/// How a bus step that returns a value relates to its specification.
pub open spec fn stepped(
    spec: Result<(CommandView, BusView), CoreError>,
    before: BusView,
    after: BusView,
    r: Result<Command, CoreError>,
) -> bool {
    match spec {
        Ok((c, nb)) => r matches Ok(cmd) && cmd@ == c && after == nb,
        Err(e) => r matches Err(err) && err == e && after == before,
    }
}

impl CommandBus {
    /// A bus over `project` with empty history.
    pub fn new(project: Project) -> (bus: CommandBus)
        ensures
            bus@ == (BusView { project: project@, undo: Seq::empty(), redo: Seq::empty() }),
    {
        let bus = CommandBus { project, undo_stack: Vec::new(), redo_stack: Vec::new() };
        assert(bus@ =~= BusView { project: project@, undo: Seq::empty(), redo: Seq::empty() });
        bus
    }

    /// The current project.
    pub fn project(&self) -> (p: &Project)
        ensures
            p@ == self@.project,
    {
        &self.project
    }

    /// Executes `command`, using `fresh` as the value of the new id it may
    /// mint.
    pub fn execute_with_id(&mut self, command: Command, fresh: u128) -> (r: Result<(), CoreError>)
        requires
            executable_on(command@, old(self)@.project),
        ensures
            match execute_spec(old(self)@, command@, fresh) {
                Ok(nb) => r is Ok && final(self)@ == nb,
                Err(e) => r == Err::<(), CoreError>(e) && final(self)@ == old(self)@,
            },
    {
        let pre_state = self.project.clone();
        let ghost before = self@;
        match command.apply_with_id(&mut self.project, fresh) {
            Err(e) => {
                assert(self@ =~= before);
                Err(e)
            },
            Ok(()) => {
                let ghost cv = command@;
                self.undo_stack.push((command, pre_state));
                self.redo_stack.clear();
                assert(entry_views(self.undo_stack@) =~= before.undo.push((cv, before.project)));
                assert(entry_views(self.redo_stack@) =~= Seq::<(CommandView, ProjectView)>::empty());
                Ok(())
            },
        }
    }

    /// Executes `command`. On success it becomes undoable and the redo
    /// history is cleared; on failure nothing changes. An id the command
    /// mints is a fresh random UUID.
    pub fn execute(&mut self, command: Command) -> (r: Result<(), CoreError>)
        requires
            executable_on(command@, old(self)@.project),
        ensures
            exists|fresh: u128|
                match #[trigger] execute_spec(old(self)@, command@, fresh) {
                    Ok(nb) => r is Ok && final(self)@ == nb,
                    Err(e) => r == Err::<(), CoreError>(e) && final(self)@ == old(self)@,
                },
    {
        let fresh = fresh_uuid();
        self.execute_with_id(command, fresh)
    }

    /// Undoes the last executed command and returns it.
    pub fn undo(&mut self) -> (r: Result<Command, CoreError>)
        ensures
            stepped(undo_spec(old(self)@), old(self)@, final(self)@, r),
    {
        let ghost before = self@;
        match self.undo_stack.pop() {
            None => {
                assert(before.undo.len() == 0);
                Err(CoreError::NothingToUndo)
            },
            Some(entry) => {
                let (command, pre_state) = entry;
                let mut other = pre_state;
                std::mem::swap(&mut self.project, &mut other);
                let returned = command.clone();
                let ghost cv = command@;
                self.redo_stack.push((command, other));
                assert(entry_views(self.undo_stack@) =~= before.undo.drop_last());
                assert(entry_views(self.redo_stack@) =~= before.redo.push((cv, before.project)));
                Ok(returned)
            },
        }
    }

    /// Redoes the last undone command and returns it.
    pub fn redo(&mut self) -> (r: Result<Command, CoreError>)
        ensures
            stepped(redo_spec(old(self)@), old(self)@, final(self)@, r),
    {
        let ghost before = self@;
        match self.redo_stack.pop() {
            None => {
                assert(before.redo.len() == 0);
                Err(CoreError::NothingToRedo)
            },
            Some(entry) => {
                let (command, post_state) = entry;
                let mut other = post_state;
                std::mem::swap(&mut self.project, &mut other);
                let returned = command.clone();
                let ghost cv = command@;
                self.undo_stack.push((command, other));
                assert(entry_views(self.redo_stack@) =~= before.redo.drop_last());
                assert(entry_views(self.undo_stack@) =~= before.undo.push((cv, before.project)));
                Ok(returned)
            },
        }
    }

    /// Summaries of the executed commands, oldest first.
    pub fn history(&self) -> (h: Vec<String>)
        ensures
            h@.len() == self@.undo.len(),
            forall|i: int| 0 <= i < h@.len() ==> #[trigger] h@[i]@ == describe_text(self@.undo[i].0),
    {
        let mut h: Vec<String> = Vec::new();
        let mut i: usize = 0;
        while i < self.undo_stack.len()
            invariant
                i <= self.undo_stack.len(),
                h@.len() == i,
                forall|j: int| 0 <= j < i ==> #[trigger] h@[j]@ == describe_text(self@.undo[j].0),
            decreases self.undo_stack.len() - i,
        {
            let d = self.undo_stack[i].0.describe();
            h.push(d);
            i = i + 1;
        }
        h
    }

    /// Whether there is a command to undo.
    pub fn can_undo(&self) -> (b: bool)
        ensures
            b == (self@.undo.len() > 0),
    {
        self.undo_stack.len() > 0
    }

    /// Whether there is a command to redo.
    pub fn can_redo(&self) -> (b: bool)
        ensures
            b == (self@.redo.len() > 0),
    {
        self.redo_stack.len() > 0
    }
}

/// Undo after a successful execute gives the earlier project back, with
/// the earlier undo history, and offers the command for redo.
pub proof fn lemma_undo_reverts_execute(b: BusView, cmd: CommandView, fresh: u128)
    requires
        execute_spec(b, cmd, fresh) is Ok,
    ensures
        ({
            let after = execute_spec(b, cmd, fresh)->Ok_0;
            undo_spec(after) == Ok::<(CommandView, BusView), CoreError>((
                cmd,
                BusView {
                    project: b.project,
                    undo: b.undo,
                    redo: seq![(cmd, after.project)],
                },
            ))
        }),
{
    let after = execute_spec(b, cmd, fresh)->Ok_0;
    assert(after.undo.drop_last() =~= b.undo);
    assert(after.redo.push((cmd, after.project)) =~= seq![(cmd, after.project)]);
}

/// Redo right after an undo restores the bus exactly.
pub proof fn lemma_redo_reverts_undo(b: BusView)
    requires
        undo_spec(b) is Ok,
    ensures
        redo_spec(undo_spec(b)->Ok_0.1) == Ok::<(CommandView, BusView), CoreError>((
            undo_spec(b)->Ok_0.0,
            b,
        )),
{
    let (c, mid) = undo_spec(b)->Ok_0;
    assert(mid.undo.push((c, mid.project)) =~= b.undo);
    assert(mid.redo.drop_last() =~= b.redo);
    assert(redo_spec(mid)->Ok_0.1 =~= b);
}

/// Undo right after a redo restores the bus exactly.
pub proof fn lemma_undo_reverts_redo(b: BusView)
    requires
        redo_spec(b) is Ok,
    ensures
        undo_spec(redo_spec(b)->Ok_0.1) == Ok::<(CommandView, BusView), CoreError>((
            redo_spec(b)->Ok_0.0,
            b,
        )),
{
    let (c, mid) = redo_spec(b)->Ok_0;
    assert(mid.undo.drop_last() =~= b.undo);
    assert(mid.redo.push((c, mid.project)) =~= b.redo);
    assert(undo_spec(mid)->Ok_0.1 =~= b);
}

/// A refused command leaves the bus as it was and reports the command's
/// own error; an accepted one adds exactly one history entry, for the
/// command and the project it was applied to, and leaves nothing to redo.
pub proof fn lemma_execute_outcomes(b: BusView, cmd: CommandView, fresh: u128)
    ensures
        apply_spec(cmd, b.project, fresh) matches Err(e) ==> execute_spec(b, cmd, fresh) == Err::<
            BusView,
            CoreError,
        >(e),
        execute_spec(b, cmd, fresh) matches Ok(nb) ==> {
            &&& nb.redo.len() == 0
            &&& redo_spec(nb) == Err::<(CommandView, BusView), CoreError>(CoreError::NothingToRedo)
            &&& nb.undo.len() == b.undo.len() + 1
            &&& nb.undo == b.undo.push((cmd, b.project))
        },
{
}

} // verus!
