//! Undo/redo history: two stacks of commands.
use vstd::prelude::*;

verus! {

/// What a recorded command did to the shapes it holds.
#[derive(Debug, Copy, Clone, PartialEq, Eq, Structural)]
pub enum StateCommandMode {
    Create,
    Delete,
    Modify,
}

/// A recorded command: its kind and the shapes it touched.
#[derive(Debug, Clone)]
pub struct StateCommand<S> {
    pub state: StateCommandMode,
    pub content: Vec<S>,
}

impl<S> StateCommand<S> {
    pub fn new(state: StateCommandMode, content: Vec<S>) -> (res: Self)
        ensures
            res.state == state,
            res.content@ == content@,
    {
        Self { state, content }
    }
}

/// The history as two stacks, top last: commands that can be undone, and
/// commands that can be redone.
pub struct HistoryView<S> {
    pub undo: Seq<StateCommand<S>>,
    pub redo: Seq<StateCommand<S>>,
}

/// The history after `push(cmd)`: the command goes on top of the undo stack;
/// the redo stack stays.
pub open spec fn pushed<S>(h: HistoryView<S>, cmd: StateCommand<S>) -> HistoryView<S> {
    HistoryView { undo: h.undo.push(cmd), redo: h.redo }
}

/// The history after `undo`: the top undo command moves onto the redo stack;
/// nothing happens when there is nothing to undo.
pub open spec fn undone<S>(h: HistoryView<S>) -> HistoryView<S> {
    if h.undo.len() > 0 {
        HistoryView { undo: h.undo.drop_last(), redo: h.redo.push(h.undo.last()) }
    } else {
        h
    }
}

/// The history after `redo`: the top redo command moves back onto the undo
/// stack; nothing happens when there is nothing to redo.
pub open spec fn redone<S>(h: HistoryView<S>) -> HistoryView<S> {
    if h.redo.len() > 0 {
        HistoryView { undo: h.undo.push(h.redo.last()), redo: h.redo.drop_last() }
    } else {
        h
    }
}

pub struct UndoRedoManager<S> {
    undo_stack: Vec<StateCommand<S>>,
    redo_stack: Vec<StateCommand<S>>,
}

impl<S> View for UndoRedoManager<S> {
    type V = HistoryView<S>;

    closed spec fn view(&self) -> HistoryView<S> {
        HistoryView { undo: self.undo_stack@, redo: self.redo_stack@ }
    }
}

impl<S> UndoRedoManager<S> {
    /// An empty history.
    pub fn new() -> (m: Self)
        ensures
            m@.undo == Seq::<StateCommand<S>>::empty(),
            m@.redo == Seq::<StateCommand<S>>::empty(),
    {
        Self { undo_stack: Vec::new(), redo_stack: Vec::new() }
    }

    /// Records a command that can be undone.
    pub fn push(&mut self, command: StateCommand<S>)
        ensures
            final(self)@ == pushed(old(self)@, command),
    {
        self.undo_stack.push(command);
    }

    /// Moves the last recorded command to the redo stack.
    pub fn undo(&mut self)
        ensures
            final(self)@ == undone(old(self)@),
    {
        if let Some(previous_state) = self.undo_stack.pop() {
            self.redo_stack.push(previous_state);
        }
    }

    /// Moves the last undone command back to the undo stack.
    pub fn redo(&mut self)
        ensures
            final(self)@ == redone(old(self)@),
    {
        if let Some(next_state) = self.redo_stack.pop() {
            self.undo_stack.push(next_state);
        }
    }

    /// Number of commands that can be undone.
    pub fn undo_count(&self) -> (n: usize)
        ensures
            n == self@.undo.len(),
    {
        self.undo_stack.len()
    }

    /// Number of commands that can be redone.
    pub fn redo_count(&self) -> (n: usize)
        ensures
            n == self@.redo.len(),
    {
        self.redo_stack.len()
    }
}

/// Redo takes back an undo, and undo takes back a redo, whenever the first
/// step had a command to move.
pub proof fn lemma_undo_redo_inverse<S>(h: HistoryView<S>)
    ensures
        h.undo.len() > 0 ==> redone(undone(h)) == h,
        h.redo.len() > 0 ==> undone(redone(h)) == h,
{
    if h.undo.len() > 0 {
        assert(redone(undone(h)).undo =~= h.undo);
        assert(redone(undone(h)).redo =~= h.redo);
    }
    if h.redo.len() > 0 {
        assert(undone(redone(h)).undo =~= h.undo);
        assert(undone(redone(h)).redo =~= h.redo);
    }
}

/// Undo and redo never lose or create a command.
pub proof fn lemma_history_size_kept<S>(h: HistoryView<S>)
    ensures
        undone(h).undo.len() + undone(h).redo.len() == h.undo.len() + h.redo.len(),
        redone(h).undo.len() + redone(h).redo.len() == h.undo.len() + h.redo.len(),
{
}

/// Undoing right after a push puts exactly the pushed command on top of the
/// redo stack and gives back the earlier undo stack.
pub proof fn lemma_push_then_undo<S>(h: HistoryView<S>, cmd: StateCommand<S>)
    ensures
        undone(pushed(h, cmd)).undo == h.undo,
        undone(pushed(h, cmd)).redo == h.redo.push(cmd),
{
    assert(h.undo.push(cmd).drop_last() =~= h.undo);
}

} // verus!
