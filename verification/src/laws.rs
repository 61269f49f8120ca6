//! What holds of the two engines whatever they are fed.
use crate::command::{
    command_json, escaped, escaped_text, hex_digit, json_string, key_json, CommandView,
};
use crate::dictionary::{
    dictionary_records, exact_records, is_dictionary, near_records, word_records, RecordView,
    WordView,
};
use crate::key::{plain_event, EventView, KeyState, KeyView};
use crate::preprocessor::{
    after_clear, after_commit, after_event, after_events, after_pop, after_pops, deletes,
    is_state, next_command, replacing, PreprocessorView,
};
use crate::rules::{rule_outcome, OutcomeView, ProgramView};
use crate::table::{all_composable, completed};
use crate::translator::{
    assembled, failures, place_of, rule_outcomes, translation, with_program, with_rule,
    without_program, without_rule, TranslatorView,
};
use vstd::prelude::*;

verus! {

/// The events of typing `symbols`: for each symbol, in order, the key that
/// types it goes down.
pub open spec fn presses(symbols: Seq<char>) -> Seq<EventView> {
    Seq::new(
        symbols.len(),
        |i: int| plain_event(KeyView::Character(seq![symbols[i]]), KeyState::Down),
    )
}

/// Backspace going down.
pub open spec fn backspace_press() -> EventView {
    plain_event(KeyView::Named("Backspace"@), KeyState::Down)
}

/// One event keeps a preprocessor in a state that it can be in, and leaves
/// its table and its capacity alone.
pub proof fn event_keeps_state(state: PreprocessorView, event: EventView)
    requires
        is_state(state),
    ensures
        is_state(after_event(state, event)),
        after_event(state, event).table == state.table,
        after_event(state, event).capacity == state.capacity,
{
}

/// Whatever the events, and however many, the buffer never holds more
/// symbols than its capacity.
pub proof fn buffer_never_exceeds_capacity(state: PreprocessorView, events: Seq<EventView>)
    requires
        is_state(state),
    ensures
        is_state(after_events(state, events)),
        after_events(state, events).buffer.len() <= state.capacity,
        after_events(state, events).capacity == state.capacity,
        after_events(state, events).table == state.table,
    decreases events.len(),
{
    if events.len() > 0 {
        buffer_never_exceeds_capacity(state, events.drop_last());
        event_keeps_state(after_events(state, events.drop_last()), events.last());
    }
}

/// The host is handed the commands in the order in which they were given,
/// each once, and `NOP` from then on. Taking commands leaves the buffer
/// alone.
pub proof fn commands_leave_in_order(state: PreprocessorView, n: nat)
    ensures
        after_pops(state, n).queue == if n <= state.queue.len() {
            state.queue.skip(n as int)
        } else {
            Seq::empty()
        },
        next_command(after_pops(state, n)) == if n < state.queue.len() {
            state.queue[n as int]
        } else {
            CommandView::NOP
        },
        after_pops(state, n).buffer == state.buffer,
        after_pops(state, n).table == state.table,
        after_pops(state, n).capacity == state.capacity,
    decreases n,
{
    if n > 0 {
        commands_leave_in_order(state, (n - 1) as nat);
    }
}

/// While the symbols typed so far complete no entry, they gather in the
/// buffer and no command is given.
proof fn typing_gathers(state: PreprocessorView, symbols: Seq<char>)
    requires
        is_state(state),
        state.buffer.len() == 0,
        symbols.len() <= state.capacity,
        all_composable(symbols),
        forall|k: int|
            0 < k <= symbols.len() ==> completed(state.table, #[trigger] symbols.take(k)) is None,
    ensures
        after_events(state, presses(symbols)) == (PreprocessorView { buffer: symbols, ..state }),
    decreases symbols.len(),
{
    if symbols.len() == 0 {
        assert(state.buffer =~= symbols);
    } else {
        let shorter = symbols.drop_last();
        assert(presses(symbols).drop_last() =~= presses(shorter));
        assert forall|k: int| 0 < k <= shorter.len() implies completed(
            state.table,
            #[trigger] shorter.take(k),
        ) is None by {
            assert(shorter.take(k) =~= symbols.take(k));
        }
        typing_gathers(state, shorter);
        assert(shorter.push(symbols.last()) =~= symbols);
        assert(symbols.take(symbols.len() as int) =~= symbols);
    }
}

/// Typing the sequence of an entry, symbol by symbol, into an empty buffer
/// that can hold it gives `Pause`, one `Delete` for each symbol, `CommitText`
/// with the entry's replacement and `Resume`, and leaves the buffer empty.
/// This is stated for an entry that is reached: no shorter start of its
/// sequence completes an entry, and the whole sequence completes this one.
pub proof fn typing_an_entry_replaces_it(state: PreprocessorView, entry: int)
    requires
        is_state(state),
        state.buffer.len() == 0,
        0 <= entry < state.table.len(),
        state.table[entry].0.len() <= state.capacity,
        forall|k: int|
            0 < k < state.table[entry].0.len() ==> completed(
                state.table,
                #[trigger] state.table[entry].0.take(k),
            ) is None,
        completed(state.table, state.table[entry].0) == Some(entry),
    ensures
        after_events(state, presses(state.table[entry].0)) == (PreprocessorView {
            buffer: Seq::empty(),
            queue: state.queue + replacing(state.table[entry].0.len(), state.table[entry].1),
            ..state
        }),
        state.queue.len() == 0 ==> after_events(state, presses(state.table[entry].0)).queue
            == seq![CommandView::Pause] + deletes(state.table[entry].0.len()) + seq![
            CommandView::CommitText(state.table[entry].1),
            CommandView::Resume,
        ],
        state.queue.len() == 0 ==> next_command(
            after_pops(
                after_events(state, presses(state.table[entry].0)),
                state.table[entry].0.len() + 3,
            ),
        ) == CommandView::NOP,
{
    let symbols = state.table[entry].0;
    let shorter = symbols.drop_last();
    assert(presses(symbols).drop_last() =~= presses(shorter));
    assert forall|k: int| 0 < k <= shorter.len() implies completed(
        state.table,
        #[trigger] shorter.take(k),
    ) is None by {
        assert(shorter.take(k) =~= symbols.take(k));
    }
    typing_gathers(state, shorter);
    assert(shorter.push(symbols.last()) =~= symbols);
    if state.queue.len() == 0 {
        commands_leave_in_order(after_events(state, presses(symbols)), symbols.len() + 3);
    }
}

/// Backspace on a buffer of one symbol gives `Pause`, `CleanDelete` and
/// `Resume`, and leaves the buffer empty.
pub proof fn backspace_on_one_symbol(state: PreprocessorView)
    requires
        is_state(state),
        state.buffer.len() == 1,
    ensures
        after_event(state, backspace_press()) == (PreprocessorView {
            buffer: Seq::empty(),
            queue: state.queue + seq![
                CommandView::Pause,
                CommandView::CleanDelete,
                CommandView::Resume,
            ],
            ..state
        }),
        state.queue.len() == 0 ==> next_command(
            after_pops(after_event(state, backspace_press()), 3),
        ) == CommandView::NOP,
{
    commands_leave_in_order(after_event(state, backspace_press()), 3);
}

/// A commit gives `CommitText` with its text as the one new command, and
/// leaves the buffer empty, whatever the buffer held.
pub proof fn commit_gives_one_command(state: PreprocessorView, text: Seq<char>)
    ensures
        after_commit(state, text).buffer.len() == 0,
        after_commit(state, text).queue == state.queue + seq![CommandView::CommitText(text)],
        after_commit(after_clear(state), text).queue == seq![CommandView::CommitText(text)],
{
}

/// After the queue was cleared the host is told `NOP`, whatever was
/// pending, and the buffer is as before.
pub proof fn cleared_queue_answers_nop(state: PreprocessorView)
    ensures
        next_command(after_clear(state)) == CommandView::NOP,
        after_pop(after_clear(state)) == after_clear(state),
        after_clear(state).buffer == state.buffer,
{
}

/// Among the first `upto` words of a dictionary, the records of the word
/// `input` are those of the one word at `place`, once `upto` is past it.
proof fn exact_records_of_listed(
    words: Seq<WordView>,
    auto_commit: bool,
    input: Seq<char>,
    place: int,
    upto: int,
)
    requires
        is_dictionary(words),
        0 <= place < words.len(),
        words[place].0 == input,
        0 <= upto <= words.len(),
    ensures
        exact_records(words, auto_commit, input, upto) == if upto <= place {
            Seq::<RecordView>::empty()
        } else {
            word_records(input, words[place].1, auto_commit)
        },
    decreases upto,
{
    if upto > 0 {
        exact_records_of_listed(words, auto_commit, input, place, upto - 1);
    }
}

/// An input that the dictionary lists is answered with one record for each
/// of its candidates, in their order; each record holds the input, nothing
/// left to type, that candidate, and the translator's flag.
pub proof fn listed_input_gives_its_candidates(
    words: Seq<WordView>,
    auto_commit: bool,
    input: Seq<char>,
    place: int,
)
    requires
        is_dictionary(words),
        0 <= place < words.len(),
        words[place].0 == input,
    ensures
        dictionary_records(words, auto_commit, None, input) == word_records(
            input,
            words[place].1,
            auto_commit,
        ),
        dictionary_records(words, auto_commit, None, input).len() == words[place].1.len(),
        forall|i: int|
            0 <= i < words[place].1.len() ==> #[trigger] dictionary_records(
                words,
                auto_commit,
                None,
                input,
            )[i] == (RecordView {
                input,
                remainder: Seq::empty(),
                candidates: seq![words[place].1[i]],
                auto_commit,
            }),
{
    exact_records_of_listed(words, auto_commit, input, place, words.len() as int);
}

/// Among the first `upto` words, an input that none of them is has no
/// records.
proof fn exact_records_of_unlisted(
    words: Seq<WordView>,
    auto_commit: bool,
    input: Seq<char>,
    upto: int,
)
    requires
        0 <= upto <= words.len(),
        forall|i: int| 0 <= i < words.len() ==> (#[trigger] words[i]).0 != input,
    ensures
        exact_records(words, auto_commit, input, upto) == Seq::<RecordView>::empty(),
    decreases upto,
{
    if upto > 0 {
        exact_records_of_unlisted(words, auto_commit, input, upto - 1);
    }
}

/// An input that the dictionary does not list is answered with nothing,
/// where no tolerance is set and no rule is registered.
pub proof fn unlisted_input_gives_nothing(
    words: Seq<WordView>,
    auto_commit: bool,
    input: Seq<char>,
)
    requires
        forall|i: int| 0 <= i < words.len() ==> (#[trigger] words[i]).0 != input,
    ensures
        dictionary_records(words, auto_commit, None, input) == Seq::<RecordView>::empty(),
        assembled(
            dictionary_records(words, auto_commit, None, input),
            Seq::<OutcomeView>::empty(),
        ) == Seq::<RecordView>::empty(),
{
    exact_records_of_unlisted(words, auto_commit, input, words.len() as int);
}

/// The records of the dictionary come first and in their order, whatever
/// the rules add.
pub proof fn rules_add_after_the_dictionary(found: Seq<RecordView>, outcomes: Seq<OutcomeView>)
    ensures
        found.len() <= assembled(found, outcomes).len() <= found.len() + outcomes.len(),
        assembled(found, outcomes).take(found.len() as int) == found,
    decreases outcomes.len(),
{
    if outcomes.len() > 0 {
        rules_add_after_the_dictionary(found, outcomes.drop_last());
    }
}

/// What a translator proposes starts with the records of its dictionary,
/// in their order, and holds at most one record more for each rule. A
/// translator without rules proposes the records of its dictionary alone,
/// and reports no failure.
pub proof fn translation_starts_with_the_dictionary(state: TranslatorView, input: Seq<char>)
    ensures
        translation(state, input).take(
            dictionary_records(state.words, state.auto_commit, state.tolerance, input).len() as int,
        ) == dictionary_records(state.words, state.auto_commit, state.tolerance, input),
        translation(state, input).len() <= dictionary_records(
            state.words,
            state.auto_commit,
            state.tolerance,
            input,
        ).len() + state.rules.len(),
        state.rules.len() == 0 ==> translation(state, input) == dictionary_records(
            state.words,
            state.auto_commit,
            state.tolerance,
            input,
        ) && failures(state, input).len() == 0,
{
    rules_add_after_the_dictionary(
        dictionary_records(state.words, state.auto_commit, state.tolerance, input),
        rule_outcomes(state, input),
    );
}

/// A rule registered under a new name answers last: the translator then
/// proposes what it proposed before, followed by the rule's record where
/// the rule proposes one. Taking the rule out again leaves the rules and
/// their programs, and so the proposals, as they were before.
pub proof fn newest_rule_contributes_last(
    state: TranslatorView,
    name: Seq<char>,
    program: ProgramView,
    input: Seq<char>,
)
    requires
        state.programs.len() == state.rules.len(),
        place_of(state.rules, name) is None,
    ensures
        ({
            let with = TranslatorView {
                rules: with_rule(state.rules, name),
                programs: with_program(state.rules, state.programs, name, program),
                ..state
            };
            let without = TranslatorView {
                rules: without_rule(with.rules, name),
                programs: without_program(with.rules, with.programs, name),
                ..with
            };
            &&& translation(with, input) == match rule_outcome(state.engine, program.code, input) {
                OutcomeView::Record(record) => translation(state, input).push(record),
                _ => translation(state, input),
            }
            &&& without == state
            &&& translation(without, input) == translation(state, input)
        }),
{
    let with = TranslatorView {
        rules: with_rule(state.rules, name),
        programs: with_program(state.rules, state.programs, name, program),
        ..state
    };
    assert(rule_outcomes(with, input).drop_last() =~= rule_outcomes(state, input));
    assert(with.rules[state.rules.len() as int] == name);
    assert(with.rules.remove(state.rules.len() as int) =~= state.rules);
    assert(with.programs.remove(state.rules.len() as int) =~= state.programs);
}

/// With a tolerance, the records of the input itself still come first and
/// in their order.
pub proof fn near_words_come_after_the_input(
    words: Seq<WordView>,
    auto_commit: bool,
    tolerance: nat,
    input: Seq<char>,
)
    ensures
        dictionary_records(words, auto_commit, Some(tolerance), input) == dictionary_records(
            words,
            auto_commit,
            None,
            input,
        ) + near_records(words, auto_commit, tolerance, input, words.len() as int),
{
}

/// A rule that was registered is listed, and registering its name again
/// adds no second rule.
pub proof fn registered_rule_is_listed(names: Seq<Seq<char>>, name: Seq<char>)
    ensures
        place_of(with_rule(names, name), name) is Some,
        with_rule(with_rule(names, name), name) == with_rule(names, name),
{
    assert(names.push(name)[names.len() as int] == name);
}

/// Registering under a name that is registered already replaces the
/// program of that name and nothing else: the names, their order and their
/// number are as before, and every other rule keeps its program.
pub proof fn registering_again_replaces(
    names: Seq<Seq<char>>,
    programs: Seq<ProgramView>,
    place: int,
    program: ProgramView,
)
    requires
        forall|i: int, j: int| 0 <= i < j < names.len() ==> names[i] != names[j],
        programs.len() == names.len(),
        0 <= place < names.len(),
    ensures
        with_rule(names, names[place]) == names,
        with_program(names, programs, names[place], program).len() == programs.len(),
        with_program(names, programs, names[place], program)[place] == program,
        forall|i: int|
            0 <= i < names.len() && i != place ==> #[trigger] with_program(
                names,
                programs,
                names[place],
                program,
            )[i] == programs[i],
{
}

/// Registering under a new name adds the program at the end, and every
/// rule that was there keeps its place and its program.
pub proof fn registering_anew_adds_last(
    names: Seq<Seq<char>>,
    programs: Seq<ProgramView>,
    name: Seq<char>,
    program: ProgramView,
)
    requires
        programs.len() == names.len(),
        place_of(names, name) is None,
    ensures
        with_rule(names, name) == names.push(name),
        with_program(names, programs, name, program) == programs.push(program),
{
}

/// Taking a rule out takes its program out with it, and the rules that
/// stay keep their order and their programs.
pub proof fn unregistering_takes_the_program(
    names: Seq<Seq<char>>,
    programs: Seq<ProgramView>,
    place: int,
)
    requires
        forall|i: int, j: int| 0 <= i < j < names.len() ==> names[i] != names[j],
        programs.len() == names.len(),
        0 <= place < names.len(),
    ensures
        without_rule(names, names[place]) == names.remove(place),
        without_program(names, programs, names[place]) == programs.remove(place),
{
}

/// A rule that was taken out is listed no more, and taking it out again
/// changes nothing.
pub proof fn unregistered_rule_is_gone(names: Seq<Seq<char>>, name: Seq<char>)
    requires
        forall|i: int, j: int| 0 <= i < j < names.len() ==> names[i] != names[j],
    ensures
        place_of(without_rule(names, name), name) is None,
        without_rule(without_rule(names, name), name) == without_rule(names, name),
{
}

/// Registering a rule under a new name and taking it out again leaves the
/// rules as they were; and a rule's contribution is gone with it: with no
/// rule left, the proposals are those of the dictionary alone.
pub proof fn register_then_unregister(
    names: Seq<Seq<char>>,
    name: Seq<char>,
    found: Seq<RecordView>,
)
    requires
        place_of(names, name) is None,
    ensures
        without_rule(with_rule(names, name), name) == names,
        assembled(found, Seq::<OutcomeView>::empty()) == found,
{
    assert(names.push(name)[names.len() as int] == name);
}

/// Two characters that a string of JSON holds alike are one character, and
/// what follows them is the same.
proof fn escaped_heads(c: char, d: char, after_c: Seq<char>, after_d: Seq<char>)
    requires
        escaped(c) + after_c == escaped(d) + after_d,
    ensures
        c == d,
        after_c == after_d,
{
    let left = escaped(c) + after_c;
    let right = escaped(d) + after_d;
    assert(left[0] == right[0]);
    if escaped(c).len() >= 2 {
        assert(left[1] == right[1]);
    }
    if escaped(d).len() >= 2 {
        assert(left[1] == right[1]);
    }
    if escaped(c).len() == 6 && escaped(d).len() == 6 {
        assert(left[4] == right[4]);
        assert(left[5] == right[5]);
        assert(hex_digit((c as int) / 16) == hex_digit((d as int) / 16));
        assert(hex_digit((c as int) % 16) == hex_digit((d as int) % 16));
        assert((c as int) / 16 == (d as int) / 16);
        assert((c as int) % 16 == (d as int) % 16);
        assert(c as int == d as int);
    }
    assert(c == d);
    assert(after_c =~= left.subrange(escaped(c).len() as int, left.len() as int));
    assert(after_d =~= right.subrange(escaped(d).len() as int, right.len() as int));
}

/// Two texts that a string of JSON holds alike are one text.
pub proof fn escaped_text_is_one_to_one(a: Seq<char>, b: Seq<char>)
    requires
        escaped_text(a) == escaped_text(b),
    ensures
        a == b,
    decreases a.len(),
{
    if a.len() == 0 {
        if b.len() > 0 {
            assert(escaped_text(b).len() >= escaped(b[0]).len());
        }
        assert(a =~= b);
    } else if b.len() == 0 {
        assert(escaped_text(a).len() >= escaped(a[0]).len());
    } else {
        escaped_heads(a[0], b[0], escaped_text(a.drop_first()), escaped_text(b.drop_first()));
        escaped_text_is_one_to_one(a.drop_first(), b.drop_first());
        assert(a =~= seq![a[0]] + a.drop_first());
        assert(b =~= seq![b[0]] + b.drop_first());
    }
}

/// Two texts with the same string of JSON are one text, also where the
/// same characters stand before both strings and after them.
pub proof fn json_string_is_one_to_one(
    before: Seq<char>,
    a: Seq<char>,
    b: Seq<char>,
    after: Seq<char>,
)
    requires
        before + json_string(a) + after == before + json_string(b) + after,
    ensures
        a == b,
{
    let left = before + json_string(a) + after;
    let right = before + json_string(b) + after;
    assert(left.len() == right.len());
    let from: int = before.len() as int + 1;
    assert(escaped_text(a) =~= left.subrange(from, from + escaped_text(a).len()));
    assert(escaped_text(b) =~= right.subrange(from, from + escaped_text(b).len()));
    escaped_text_is_one_to_one(a, b);
}

/// Two keys with the same JSON are one key, also where the same
/// characters stand before the JSON of both and after it.
pub proof fn key_json_is_one_to_one(before: Seq<char>, a: KeyView, b: KeyView, after: Seq<char>)
    requires
        before + key_json(a) + after == before + key_json(b) + after,
    ensures
        a == b,
{
    reveal_strlit("{\"Character\":");
    reveal_strlit("{\"Named\":");
    reveal_strlit("}");
    let left = before + key_json(a) + after;
    let right = before + key_json(b) + after;
    let at = before.len() as int;
    assert(left[at + 2] == key_json(a)[2]);
    assert(right[at + 2] == key_json(b)[2]);
    match (a, b) {
        (KeyView::Character(s), KeyView::Character(t)) => {
            assert(left =~= (before + "{\"Character\":"@) + json_string(s) + ("}"@ + after));
            assert(right =~= (before + "{\"Character\":"@) + json_string(t) + ("}"@ + after));
            json_string_is_one_to_one(before + "{\"Character\":"@, s, t, "}"@ + after);
        },
        (KeyView::Named(s), KeyView::Named(t)) => {
            assert(left =~= (before + "{\"Named\":"@) + json_string(s) + ("}"@ + after));
            assert(right =~= (before + "{\"Named\":"@) + json_string(t) + ("}"@ + after));
            json_string_is_one_to_one(before + "{\"Named\":"@, s, t, "}"@ + after);
        },
        _ => {
            assert(key_json(a)[2] != key_json(b)[2]);
        },
    }
}

/// Two commands with the same JSON are one command.
pub proof fn command_json_is_one_to_one(a: CommandView, b: CommandView)
    requires
        command_json(a) == command_json(b),
    ensures
        a == b,
{
    reveal_strlit("\"Pause\"");
    reveal_strlit("\"Resume\"");
    reveal_strlit("\"Delete\"");
    reveal_strlit("\"CleanDelete\"");
    reveal_strlit("\"NOP\"");
    reveal_strlit("{\"CommitText\":");
    reveal_strlit("{\"KeyPress\":");
    reveal_strlit("{\"KeyRelease\":");
    reveal_strlit("{\"KeyClick\":");
    reveal_strlit("}");
    let left = command_json(a);
    let right = command_json(b);
    assert(left[0] == right[0]);
    assert(left[1] == right[1]);
    assert(left[2] == right[2]);
    assert(left[5] == right[5]);
    match (a, b) {
        (CommandView::CommitText(s), CommandView::CommitText(t)) => {
            json_string_is_one_to_one("{\"CommitText\":"@, s, t, "}"@);
        },
        (CommandView::KeyPress(k), CommandView::KeyPress(l)) => {
            key_json_is_one_to_one("{\"KeyPress\":"@, k, l, "}"@);
        },
        (CommandView::KeyRelease(k), CommandView::KeyRelease(l)) => {
            key_json_is_one_to_one("{\"KeyRelease\":"@, k, l, "}"@);
        },
        (CommandView::KeyClick(k), CommandView::KeyClick(l)) => {
            key_json_is_one_to_one("{\"KeyClick\":"@, k, l, "}"@);
        },
        _ => {},
    }
}

} // verus!
