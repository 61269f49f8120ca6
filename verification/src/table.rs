//! The match table: which sequences of symbols are replaced, and by what.
use crate::failure::{Failure, FailureView};
use crate::text::{char_is_composable, chars_of, is_ascii_composable, is_composable};
use vstd::prelude::*;

verus! {

/// One entry of a match table: the symbols to type, and the text that
/// replaces them.
pub struct Entry {
    pub symbols: Vec<char>,
    pub replacement: String,
}

/// The mathematical value of an entry: its symbols and its replacement.
pub type EntryView = (Seq<char>, Seq<char>);

impl View for Entry {
    type V = EntryView;

    open spec fn view(&self) -> EntryView {
        (self.symbols@, self.replacement@)
    }
}

/// Whether every symbol of `symbols` can be typed into a composition.
pub open spec fn all_composable(symbols: Seq<char>) -> bool {
    forall|i: int| 0 <= i < symbols.len() ==> is_composable(#[trigger] symbols[i])
}

/// Whether `entries` make a match table: every sequence has a symbol, holds
/// only symbols that can be typed, and belongs to one entry only.
///
/// A table may hold two entries of which one sequence starts the other.
/// The entry listed first then has its way, and the other is never
/// completed by typing: listed first, the shorter one is completed before
/// the longer one is typed to its end; listed first, the longer one keeps
/// the composition waiting when the shorter one is typed. Such a table is
/// taken as it is.
pub open spec fn is_table(entries: Seq<EntryView>) -> bool {
    &&& forall|i: int|
        0 <= i < entries.len() ==> (#[trigger] entries[i]).0.len() > 0 && all_composable(
            entries[i].0,
        )
    &&& forall|i: int, j: int|
        0 <= i < j < entries.len() ==> (#[trigger] entries[i]).0 != (#[trigger] entries[j]).0
}

/// Whether `entries` are written in ASCII and make a match table for all
/// that: every sequence has a symbol, holds only letters, digits and
/// punctuation marks of ASCII, and belongs to one entry only. Such entries
/// make a table.
pub open spec fn is_ascii_table(entries: Seq<EntryView>) -> bool {
    &&& forall|i: int, k: int|
        0 <= i < entries.len() && 0 <= k < entries[i].0.len() ==> is_ascii_composable(
            #[trigger] entries[i].0[k],
        )
    &&& forall|i: int| 0 <= i < entries.len() ==> (#[trigger] entries[i]).0.len() > 0
    &&& forall|i: int, j: int|
        0 <= i < j < entries.len() ==> (#[trigger] entries[i]).0 != (#[trigger] entries[j]).0
}

/// The first entry from index `from` on that `buffer` is a prefix of, if
/// there is one.
pub open spec fn first_covering(entries: Seq<EntryView>, buffer: Seq<char>, from: int) -> Option<
    int,
>
    decreases entries.len() - from,
{
    if from < 0 || from >= entries.len() {
        None
    } else if buffer.is_prefix_of(entries[from].0) {
        Some(from)
    } else {
        first_covering(entries, buffer, from + 1)
    }
}

/// The entry that `buffer` completes, if it completes one. The first entry
/// that `buffer` is a prefix of decides: where `buffer` is all of its
/// sequence, the entry is completed; where the sequence goes on, the
/// composition waits for more symbols, also if a later entry is complete.
/// A buffer that is a prefix of no entry completes nothing, and neither
/// does any longer buffer that starts with it.
pub open spec fn completed(entries: Seq<EntryView>, buffer: Seq<char>) -> Option<int> {
    match first_covering(entries, buffer, 0) {
        Some(i) => if entries[i].0 == buffer {
            Some(i)
        } else {
            None
        },
        None => None,
    }
}

/// What `first_covering` finds is the least index at or after `from` whose
/// sequence starts with `buffer`.
pub proof fn first_covering_is_least(entries: Seq<EntryView>, buffer: Seq<char>, from: int)
    requires
        0 <= from,
    ensures
        match first_covering(entries, buffer, from) {
            Some(i) => {
                &&& from <= i < entries.len()
                &&& buffer.is_prefix_of(entries[i].0)
                &&& forall|j: int| from <= j < i ==> !buffer.is_prefix_of(#[trigger] entries[j].0)
            },
            None => forall|j: int|
                from <= j < entries.len() ==> !buffer.is_prefix_of(#[trigger] entries[j].0),
        },
    decreases entries.len() - from,
{
    if from < entries.len() && !buffer.is_prefix_of(entries[from].0) {
        first_covering_is_least(entries, buffer, from + 1);
    }
}

/// Whether `buffer` is a prefix of `symbols`.
fn covers(symbols: &Vec<char>, buffer: &Vec<char>) -> (answer: bool)
    ensures
        answer == buffer@.is_prefix_of(symbols@),
{
    if buffer.len() > symbols.len() {
        return false;
    }
    let mut i: usize = 0;
    while i < buffer.len()
        invariant
            i <= buffer.len() <= symbols.len(),
            forall|k: int| 0 <= k < i ==> buffer@[k] == symbols@[k],
        decreases buffer.len() - i,
    {
        if buffer[i] != symbols[i] {
            return false;
        }
        i += 1;
    }
    true
}

/// The mathematical values of `entries`, in order.
pub open spec fn views_of(entries: Seq<Entry>) -> Seq<EntryView> {
    Seq::new(entries.len(), |i: int| entries[i]@)
}

/// A match table: entries in the order in which they were given.
pub struct MatchTable {
    entries: Vec<Entry>,
}

impl View for MatchTable {
    type V = Seq<EntryView>;

    closed spec fn view(&self) -> Seq<EntryView> {
        views_of(self.entries@)
    }
}

/// The entries that a list of pairs of texts stands for.
pub open spec fn entries_of(data: Seq<(String, String)>) -> Seq<EntryView> {
    Seq::new(data.len(), |i: int| (data[i].0@, data[i].1@))
}

impl MatchTable {
    /// Builds the table of `data`, a list of pairs of a sequence of symbols
    /// and its replacement. Fails with `InvalidTable` where `data` is no
    /// table. A list in letters, digits and punctuation marks of ASCII,
    /// with no sequence empty or listed twice, is a table. An entry whose
    /// sequence starts the sequence of another entry, or is started by it,
    /// is kept: `is_table` says which of the two is never completed.
    pub fn build(data: &Vec<(String, String)>) -> (table: Result<MatchTable, Failure>)
        ensures
            match table {
                Ok(t) => is_table(entries_of(data@)) && t@ == entries_of(data@),
                Err(e) => !is_table(entries_of(data@)) && e@ == FailureView::InvalidTable,
            },
            is_ascii_table(entries_of(data@)) ==> table is Ok,
    {
        let ghost wanted = entries_of(data@);
        let mut entries: Vec<Entry> = Vec::new();
        let mut i: usize = 0;
        while i < data.len()
            invariant
                i <= data.len(),
                wanted == entries_of(data@),
                entries@.len() == i,
                views_of(entries@) == wanted.take(i as int),
                is_table(wanted.take(i as int)),
            decreases data.len() - i,
        {
            let symbols = chars_of(data[i].0.as_str());
            assert(symbols@ == wanted[i as int].0);
            if symbols.len() == 0 || !Self::typable(&symbols) || Self::holds(&entries, &symbols) {
                proof {
                    if symbols.len() != 0 && all_composable(symbols@) {
                        let j = choose|j: int|
                            0 <= j < entries@.len() && (#[trigger] entries@[j]).symbols@
                                == symbols@;
                        assert(wanted.take(i as int)[j] == views_of(entries@)[j]);
                    }
                }
                return Err(Failure::InvalidTable);
            }
            entries.push(Entry { symbols, replacement: data[i].1.clone() });
            i += 1;
        }
        assert(wanted.take(data.len() as int) =~= wanted);
        Ok(MatchTable { entries })
    }

    /// Decides `all_composable`.
    fn typable(symbols: &Vec<char>) -> (answer: bool)
        ensures
            answer == all_composable(symbols@),
            (forall|k: int| 0 <= k < symbols@.len() ==> is_ascii_composable(#[trigger] symbols@[k]))
                ==> answer,
    {
        let mut i: usize = 0;
        while i < symbols.len()
            invariant
                i <= symbols.len(),
                forall|k: int| 0 <= k < i ==> is_composable(#[trigger] symbols@[k]),
            decreases symbols.len() - i,
        {
            if !char_is_composable(symbols[i]) {
                assert(!is_ascii_composable(symbols@[i as int]));
                return false;
            }
            i += 1;
        }
        true
    }

    /// Whether one of `entries` has the sequence `symbols`.
    fn holds(entries: &Vec<Entry>, symbols: &Vec<char>) -> (answer: bool)
        ensures
            answer == exists|j: int|
                0 <= j < entries@.len() && (#[trigger] entries@[j]).symbols@ == symbols@,
    {
        let mut j: usize = 0;
        while j < entries.len()
            invariant
                j <= entries.len(),
                forall|k: int| 0 <= k < j ==> (#[trigger] entries@[k]).symbols@ != symbols@,
            decreases entries.len() - j,
        {
            if entries[j].symbols.len() == symbols.len() && covers(&entries[j].symbols, symbols) {
                assert(entries@[j as int].symbols@ =~= symbols@);
                return true;
            }
            j += 1;
        }
        false
    }

    /// How many entries the table has.
    pub fn len(&self) -> (n: usize)
        ensures
            n == self@.len(),
    {
        self.entries.len()
    }

    /// The replacement of the entry that `buffer` completes, if it
    /// completes one.
    pub fn lookup(&self, buffer: &Vec<char>) -> (found: Option<String>)
        ensures
            match completed(self@, buffer@) {
                Some(i) => found matches Some(text) && text@ == self@[i].1,
                None => found is None,
            },
    {
        let mut i: usize = 0;
        while i < self.entries.len()
            invariant
                i <= self.entries.len(),
                first_covering(self@, buffer@, 0) == first_covering(self@, buffer@, i as int),
            decreases self.entries.len() - i,
        {
            if covers(&self.entries[i].symbols, buffer) {
                if self.entries[i].symbols.len() == buffer.len() {
                    assert(self@[i as int].0 =~= buffer@);
                    return Some(self.entries[i].replacement.clone());
                }
                return None;
            }
            i += 1;
        }
        None
    }
}

} // verus!
