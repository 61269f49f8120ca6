//! The preprocessor: from key events to a composition buffer and a queue of
//! commands.
use crate::command::{Command, CommandView};
use crate::failure::{Failure, FailureView};
use crate::key::{
    deserialize_event, event_of_text, is_backspace, symbol_of, EventView, KeyState, KeyboardEvent,
};
use crate::table::{completed, entries_of, is_ascii_table, is_table, EntryView, MatchTable};
use crate::text::string_of;
use std::collections::VecDeque;
use vstd::prelude::*;

verus! {

/// The mathematical value of a preprocessor: its table, the most symbols
/// that its buffer holds, the symbols typed since the buffer was last
/// emptied, oldest first, and the commands that the host has not taken yet,
/// oldest first.
pub struct PreprocessorView {
    pub table: Seq<EntryView>,
    pub capacity: nat,
    pub buffer: Seq<char>,
    pub queue: Seq<CommandView>,
}

/// What one keyboard event does: the buffer after it, and the commands that
/// it adds to the queue.
pub struct Reaction {
    pub buffer: Seq<char>,
    pub emitted: Seq<CommandView>,
}

/// `buffer` with `symbol` added at its end. A buffer that is full loses its
/// oldest symbol first.
pub open spec fn grown(buffer: Seq<char>, capacity: nat, symbol: char) -> Seq<char> {
    if buffer.len() < capacity {
        buffer.push(symbol)
    } else {
        buffer.drop_first().push(symbol)
    }
}

/// `n` times `Delete`.
pub open spec fn deletes(n: nat) -> Seq<CommandView> {
    Seq::new(n, |i: int| CommandView::Delete)
}

/// The commands that replace `consumed` echoed symbols by `replacement`.
pub open spec fn replacing(consumed: nat, replacement: Seq<char>) -> Seq<CommandView> {
    seq![CommandView::Pause] + deletes(consumed) + seq![
        CommandView::CommitText(replacement),
        CommandView::Resume,
    ]
}

/// What `event` does to a preprocessor with this table, capacity and
/// buffer.
///
/// A key that comes up is forwarded as `KeyRelease`. Backspace going down
/// takes the last symbol from the buffer, with `CleanDelete` where it was
/// the only one and `Delete` otherwise, and is forwarded as `KeyPress`
/// where the buffer is empty. A key going down that types a symbol adds it
/// to the buffer; where the buffer then completes an entry of the table,
/// the echoed symbols are replaced and the buffer is emptied. Any other key
/// going down is forwarded as `KeyPress`.
///
/// A symbol that goes on no entry stays in the buffer with those before
/// it. While it is there the buffer completes nothing: a commit, backspace
/// or, in a full buffer, the symbols typed after it take it out.
pub open spec fn reaction(
    table: Seq<EntryView>,
    capacity: nat,
    buffer: Seq<char>,
    event: EventView,
) -> Reaction {
    if event.state == KeyState::Up {
        Reaction { buffer, emitted: seq![CommandView::KeyRelease(event.key)] }
    } else if is_backspace(event.key) {
        if buffer.len() == 0 {
            Reaction { buffer, emitted: seq![CommandView::KeyPress(event.key)] }
        } else if buffer.len() == 1 {
            Reaction {
                buffer: Seq::empty(),
                emitted: seq![CommandView::Pause, CommandView::CleanDelete, CommandView::Resume],
            }
        } else {
            Reaction {
                buffer: buffer.drop_last(),
                emitted: seq![CommandView::Pause, CommandView::Delete, CommandView::Resume],
            }
        }
    } else {
        match symbol_of(event.key) {
            Some(symbol) => {
                let typed = grown(buffer, capacity, symbol);
                match completed(table, typed) {
                    Some(i) => Reaction {
                        buffer: Seq::empty(),
                        emitted: replacing(typed.len(), table[i].1),
                    },
                    None => Reaction { buffer: typed, emitted: Seq::empty() },
                }
            },
            None => Reaction { buffer, emitted: seq![CommandView::KeyPress(event.key)] },
        }
    }
}

/// The preprocessor after `event`.
pub open spec fn after_event(state: PreprocessorView, event: EventView) -> PreprocessorView {
    let r = reaction(state.table, state.capacity, state.buffer, event);
    PreprocessorView { buffer: r.buffer, queue: state.queue + r.emitted, ..state }
}

/// The preprocessor after each of `events` in turn.
pub open spec fn after_events(state: PreprocessorView, events: Seq<EventView>) -> PreprocessorView
    decreases events.len(),
{
    if events.len() == 0 {
        state
    } else {
        after_event(after_events(state, events.drop_last()), events.last())
    }
}

/// The preprocessor after `text` was committed: the buffer is empty, and
/// `CommitText(text)` is the newest command, with nothing around it.
pub open spec fn after_commit(state: PreprocessorView, text: Seq<char>) -> PreprocessorView {
    PreprocessorView {
        buffer: Seq::empty(),
        queue: state.queue.push(CommandView::CommitText(text)),
        ..state
    }
}

/// The preprocessor after its queue was cleared.
pub open spec fn after_clear(state: PreprocessorView) -> PreprocessorView {
    PreprocessorView { queue: Seq::empty(), ..state }
}

/// The command that the host takes next: the oldest of the queue, or `NOP`
/// where the queue is empty.
pub open spec fn next_command(state: PreprocessorView) -> CommandView {
    if state.queue.len() == 0 {
        CommandView::NOP
    } else {
        state.queue[0]
    }
}

/// The preprocessor after the host took a command.
pub open spec fn after_pop(state: PreprocessorView) -> PreprocessorView {
    if state.queue.len() == 0 {
        state
    } else {
        PreprocessorView { queue: state.queue.drop_first(), ..state }
    }
}

/// The preprocessor after the host took a command `n` times.
pub open spec fn after_pops(state: PreprocessorView, n: nat) -> PreprocessorView
    decreases n,
{
    if n == 0 {
        state
    } else {
        after_pop(after_pops(state, (n - 1) as nat))
    }
}

/// Whether `state` is a state that a preprocessor can be in: the table is a
/// table, the buffer holds at least one symbol when full and never more
/// than its capacity, and `NOP` is not in the queue.
pub open spec fn is_state(state: PreprocessorView) -> bool {
    &&& is_table(state.table)
    &&& state.capacity >= 1
    &&& state.buffer.len() <= state.capacity
    &&& forall|i: int| 0 <= i < state.queue.len() ==> #[trigger] state.queue[i] != CommandView::NOP
}

/// The mathematical values of `commands`, in order.
pub open spec fn commands_of(commands: Seq<Command>) -> Seq<CommandView> {
    Seq::new(commands.len(), |i: int| commands[i]@)
}

/// The engine that follows one composition.
pub struct Preprocessor {
    table: MatchTable,
    capacity: usize,
    buffer: Vec<char>,
    queue: VecDeque<Command>,
}

impl View for Preprocessor {
    type V = PreprocessorView;

    closed spec fn view(&self) -> PreprocessorView {
        PreprocessorView {
            table: self.table@,
            capacity: self.capacity as nat,
            buffer: self.buffer@,
            queue: commands_of(self.queue@),
        }
    }
}

impl Preprocessor {
    /// Whether this preprocessor is in a state that it can be in. Every
    /// preprocessor that `new` made is, and stays so.
    pub open spec fn wf(&self) -> bool {
        is_state(self@)
    }

    /// A preprocessor for the table that `data` lists, with an empty buffer
    /// of `buffer_size` symbols and an empty queue. Fails with
    /// `InvalidTable` where `data` is no table; a list in letters, digits
    /// and punctuation marks of ASCII, with no sequence empty or listed
    /// twice, is one.
    pub fn new(data: &Vec<(String, String)>, buffer_size: usize) -> (made: Result<
        Preprocessor,
        Failure,
    >)
        requires
            buffer_size >= 1,
        ensures
            match made {
                Ok(p) => {
                    &&& p.wf()
                    &&& is_table(entries_of(data@))
                    &&& p@ == PreprocessorView {
                        table: entries_of(data@),
                        capacity: buffer_size as nat,
                        buffer: Seq::empty(),
                        queue: Seq::empty(),
                    }
                },
                Err(e) => !is_table(entries_of(data@)) && e@ == FailureView::InvalidTable,
            },
            is_ascii_table(entries_of(data@)) ==> made is Ok,
    {
        match MatchTable::build(data) {
            Ok(table) => {
                let made = Preprocessor {
                    table,
                    capacity: buffer_size,
                    buffer: Vec::new(),
                    queue: VecDeque::new(),
                };
                assert(made@.queue =~= Seq::empty());
                Ok(made)
            },
            Err(e) => Err(e),
        }
    }

    /// Adds `command` at the end of the queue.
    fn emit(&mut self, command: Command)
        requires
            old(self).wf(),
            command@ != CommandView::NOP,
        ensures
            final(self).wf(),
            final(self)@ == (PreprocessorView {
                queue: old(self)@.queue.push(command@),
                ..old(self)@
            }),
    {
        let ghost before = self.queue@;
        self.queue.push_back(command);
        assert(commands_of(self.queue@) =~= commands_of(before).push(command@));
    }

    /// Adds `n` times `Delete` at the end of the queue.
    fn emit_deletes(&mut self, n: usize)
        requires
            old(self).wf(),
        ensures
            final(self).wf(),
            final(self)@ == (PreprocessorView {
                queue: old(self)@.queue + deletes(n as nat),
                ..old(self)@
            }),
    {
        let mut i: usize = 0;
        while i < n
            invariant
                i <= n,
                self.wf(),
                self@ == (PreprocessorView {
                    queue: old(self)@.queue + deletes(i as nat),
                    ..old(self)@
                }),
            decreases n - i,
        {
            self.emit(Command::Delete);
            assert((old(self)@.queue + deletes(i as nat)).push(CommandView::Delete) =~= old(
                self,
            )@.queue + deletes((i + 1) as nat));
            i += 1;
        }
    }

    /// Handles one keyboard event as `reaction` says, and tells whether the
    /// buffer holds something else than before.
    pub fn process_event(&mut self, event: KeyboardEvent) -> (changed: bool)
        requires
            old(self).wf(),
        ensures
            final(self).wf(),
            final(self)@ == after_event(old(self)@, event@),
            changed == (final(self)@.buffer != old(self)@.buffer),
            final(self)@.buffer.len() <= final(self)@.capacity,
    {
        let ghost start = self@;
        let ghost wanted = reaction(start.table, start.capacity, start.buffer, event@);
        assert(start.queue + seq![CommandView::KeyPress(event@.key)] =~= start.queue.push(
            CommandView::KeyPress(event@.key),
        ));
        assert(start.queue + seq![CommandView::KeyRelease(event@.key)] =~= start.queue.push(
            CommandView::KeyRelease(event@.key),
        ));
        let KeyboardEvent { key, state, repeat: _, is_composing: _ } = event;
        match state {
            KeyState::Up => {
                self.emit(Command::KeyRelease(key));
                return false;
            },
            KeyState::Down => {},
        }
        if key.is_backspace() {
            if self.buffer.len() == 0 {
                self.emit(Command::KeyPress(key));
                return false;
            }
            let only = self.buffer.len() == 1;
            self.emit(Command::Pause);
            if only {
                self.emit(Command::CleanDelete);
            } else {
                self.emit(Command::Delete);
            }
            self.emit(Command::Resume);
            self.buffer.pop();
            proof {
                assert(self@.buffer =~= wanted.buffer);
                assert(self@.queue =~= start.queue + wanted.emitted);
            }
            return true;
        }
        let symbol = match key.symbol() {
            Some(symbol) => symbol,
            None => {
                self.emit(Command::KeyPress(key));
                return false;
            },
        };
        let typed = self.typed(symbol);
        match self.table.lookup(&typed) {
            Some(replacement) => {
                let changed = self.buffer.len() != 0;
                self.emit(Command::Pause);
                self.emit_deletes(typed.len());
                self.emit(Command::CommitText(replacement));
                self.emit(Command::Resume);
                self.buffer.clear();
                proof {
                    assert(self@.queue =~= start.queue + wanted.emitted);
                    assert(start.buffer.len() == 0 ==> start.buffer =~= Seq::<char>::empty());
                }
                changed
            },
            None => {
                let changed = !same_symbols(&self.buffer, &typed);
                self.buffer = typed;
                changed
            },
        }
    }

    /// The buffer with `symbol` added as `grown` says.
    fn typed(&self, symbol: char) -> (typed: Vec<char>)
        requires
            self.wf(),
        ensures
            typed@ == grown(self@.buffer, self@.capacity, symbol),
            typed@.len() <= self@.capacity,
    {
        let skip: usize = if self.buffer.len() < self.capacity {
            0
        } else {
            1
        };
        let mut typed: Vec<char> = Vec::new();
        let mut i: usize = skip;
        while i < self.buffer.len()
            invariant
                skip <= i <= self.buffer.len(),
                typed@ == self.buffer@.subrange(skip as int, i as int),
            decreases self.buffer.len() - i,
        {
            typed.push(self.buffer[i]);
            i += 1;
        }
        typed.push(symbol);
        typed
    }

    /// Takes `text` as committed: empties the buffer and adds
    /// `CommitText(text)` to the queue, with nothing around it.
    pub fn commit(&mut self, text: String)
        requires
            old(self).wf(),
        ensures
            final(self).wf(),
            final(self)@ == after_commit(old(self)@, text@),
    {
        self.emit(Command::CommitText(text));
        self.buffer.clear();
    }

    /// Takes the oldest command from the queue. An empty queue answers
    /// `NOP` and stays empty.
    pub fn pop_queue(&mut self) -> (command: Command)
        requires
            old(self).wf(),
        ensures
            final(self).wf(),
            command@ == next_command(old(self)@),
            final(self)@ == after_pop(old(self)@),
            (command@ == CommandView::NOP) == (old(self)@.queue.len() == 0),
    {
        let ghost before = self.queue@;
        match self.queue.pop_front() {
            Some(command) => {
                assert(commands_of(self.queue@) =~= commands_of(before).drop_first());
                command
            },
            None => {
                Command::NOP
            },
        }
    }

    /// The symbols in the buffer, oldest first, as one text.
    pub fn get_input(&self) -> (input: String)
        ensures
            input@ == self@.buffer,
    {
        string_of(&self.buffer)
    }

    /// Forgets the commands that the host has not taken. The buffer stays.
    pub fn clear_queue(&mut self)
        requires
            old(self).wf(),
        ensures
            final(self).wf(),
            final(self)@ == after_clear(old(self)@),
    {
        self.queue.clear();
        assert(commands_of(self.queue@) =~= Seq::empty());
    }

    /// Handles the event that the texts `key` and `state` stand for, as
    /// `process_event` does. Where they stand for none, fails and changes
    /// nothing.
    pub fn process(&mut self, key: &str, state: &str) -> (changed: Result<bool, Failure>)
        requires
            old(self).wf(),
        ensures
            final(self).wf(),
            match event_of_text(key@, state@) {
                Ok(event) => {
                    &&& final(self)@ == after_event(old(self)@, event)
                    &&& changed matches Ok(c) && c == (final(self)@.buffer != old(self)@.buffer)
                },
                Err(error) => {
                    &&& final(self)@ == old(self)@
                    &&& changed matches Err(e) && e@ == error
                },
            },
            final(self)@.buffer.len() <= final(self)@.capacity,
    {
        match deserialize_event(key, state) {
            Ok(event) => Ok(self.process_event(event)),
            Err(e) => Err(e),
        }
    }
}

/// Whether `a` and `b` hold the same symbols in the same order.
fn same_symbols(a: &Vec<char>, b: &Vec<char>) -> (same: bool)
    ensures
        same == (a@ == b@),
{
    if a.len() != b.len() {
        return false;
    }
    let mut i: usize = 0;
    while i < a.len()
        invariant
            i <= a.len() == b.len(),
            forall|k: int| 0 <= k < i ==> a@[k] == b@[k],
        decreases a.len() - i,
    {
        if a[i] != b[i] {
            return false;
        }
        i += 1;
    }
    assert(a@ =~= b@);
    true
}

} // verus!
