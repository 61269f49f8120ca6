//! Scripted rules: programs in the Rhai language that propose a record for
//! an input.
//!
//! A rule is a script with a function `translate(input)`. The function
//! answers with a list of four values, `[input, remainder, candidates,
//! auto_commit]`, where `candidates` is one text or a list of texts, to
//! propose a record; with anything that is not a list of four values, to
//! propose nothing.
//!
//! A rule computes and does nothing else. Its interpreter has the
//! arithmetic, logic, strings, iterators, mathematics, arrays and maps of
//! Rhai, and neither a printer nor modules, a clock or a way to wait; it
//! stops a run that takes too many operations or makes too large a value.
//! So what a rule answers to an input depends on the rule and the input
//! alone, and `rule_answer` is its name.
use crate::dictionary::{texts_of, RecordView, TranslationRecord};
use rhai::packages::{
    ArithmeticPackage, BasicArrayPackage, BasicIteratorPackage, BasicMapPackage,
    BasicMathPackage, BasicStringPackage, LogicPackage, MoreStringPackage, Package,
};
use vstd::prelude::*;

verus! {

/// The interpreter of `rhai`. What is known of it is what
/// `operations_limit`, `sizes_limit` and `computes_only` say.
#[verifier::external_type_specification]
#[verifier::external_body]
pub struct ExEngine(rhai::Engine);

/// A compiled script of `rhai`. Nothing is known of what it holds.
#[verifier::external_type_specification]
#[verifier::external_body]
pub struct ExProgram(rhai::AST);

/// A value of a script of `rhai`. What it holds is known by
/// `text_of_value`, `flag_of_value` and `items_of_value` alone.
#[verifier::external_type_specification]
#[verifier::external_body]
pub struct ExValue(rhai::Dynamic);

/// Why `rhai` could not compile a script.
#[verifier::external_type_specification]
#[verifier::external_body]
pub struct ExParseError(rhai::ParseError);

/// After how many operations `engine` gives up a run, as
/// `Engine::max_operations` of `rhai` tells it; 0 where it never gives up.
pub uninterp spec fn operations_limit(engine: rhai::Engine) -> nat;

/// How much a value of a script that `engine` runs may hold, where one
/// number bounds the bytes of a string, the items of an array and the
/// entries of a map, as `Engine::max_string_size`, `max_array_size` and
/// `max_map_size` of `rhai` tell it; 0 where one of them has no bound.
pub uninterp spec fn sizes_limit(engine: rhai::Engine) -> nat;

/// Whether a script that `engine` runs can do nothing but compute: the
/// interpreter has no printer and no resolver of modules, and none of its
/// functions waits, reads the clock or reaches a file.
pub uninterp spec fn computes_only(engine: rhai::Engine) -> bool;

/// Makes an interpreter with `Engine::new_raw` of `rhai`, which has no
/// printer, no resolver of modules and no limit of operations or of sizes,
/// and gives it
/// the packages of `rhai` that only compute: arithmetic, logic, strings,
/// iterators, mathematics, arrays and maps. The packages of the language
/// core (which waits) and of time (which reads the clock) are left out.
#[verifier::external_body]
pub(crate) fn new_engine() -> (engine: rhai::Engine)
    ensures
        operations_limit(engine) == 0,
        sizes_limit(engine) == 0,
        computes_only(engine),
{
    let mut engine = rhai::Engine::new_raw();
    ArithmeticPackage::new().register_into_engine(&mut engine);
    LogicPackage::new().register_into_engine(&mut engine);
    BasicStringPackage::new().register_into_engine(&mut engine);
    MoreStringPackage::new().register_into_engine(&mut engine);
    BasicIteratorPackage::new().register_into_engine(&mut engine);
    BasicMathPackage::new().register_into_engine(&mut engine);
    BasicArrayPackage::new().register_into_engine(&mut engine);
    BasicMapPackage::new().register_into_engine(&mut engine);
    engine
}

/// Tells `engine`, with `Engine::set_max_operations` of `rhai`, to give up
/// a run after `operations` operations. Nothing else of the interpreter
/// changes.
#[verifier::external_body]
pub(crate) fn limit_operations(engine: &mut rhai::Engine, operations: u64)
    ensures
        operations_limit(*final(engine)) == operations,
        sizes_limit(*final(engine)) == sizes_limit(*old(engine)),
        computes_only(*final(engine)) == computes_only(*old(engine)),
{
    engine.set_max_operations(operations);
}

/// Tells `engine`, with `Engine::set_max_string_size`, `set_max_array_size`
/// and `set_max_map_size` of `rhai`, to fail a run that makes a string of
/// more than `size` bytes, an array of more than `size` items or a map of
/// more than `size` entries. Nothing else of the interpreter changes.
#[verifier::external_body]
pub(crate) fn limit_sizes(engine: &mut rhai::Engine, size: usize)
    ensures
        sizes_limit(*final(engine)) == size,
        operations_limit(*final(engine)) == operations_limit(*old(engine)),
        computes_only(*final(engine)) == computes_only(*old(engine)),
{
    engine.set_max_string_size(size);
    engine.set_max_array_size(size);
    engine.set_max_map_size(size);
}

/// Whether `source` is a script that `Engine::compile` of `rhai` takes, on
/// an interpreter as `Engine::new_raw` makes it. The answer is that of one
/// build of the library: how deep a script may nest before the compiler
/// refuses it is set when `rhai` is built.
pub uninterp spec fn rule_compiles(source: Seq<char>) -> bool;

/// Compiles `source` with `Engine::compile` of `rhai`, on an interpreter
/// that `Engine::new_raw` makes for this one use. Whether the script is
/// taken depends on `source` alone; nothing is claimed of the program.
#[verifier::external_body]
pub(crate) fn compile(source: &str) -> (compiled: Result<rhai::AST, rhai::ParseError>)
    ensures
        compiled is Ok == rule_compiles(source@),
{
    rhai::Engine::new_raw().compile(source)
}

/// What `Engine::call_fn` of `rhai` answers when `engine` calls the
/// function `function` of `code` on the one argument `input`, in a fresh
/// scope: the value that the function returns, or the words of the error
/// that ended the run.
pub uninterp spec fn rule_answer(
    engine: rhai::Engine,
    code: rhai::AST,
    function: Seq<char>,
    input: Seq<char>,
) -> Result<rhai::Dynamic, Seq<char>>;

/// Calls the function `function` of `program` on the one argument `input`,
/// in a fresh scope, with `Engine::call_fn` of `rhai`, and gives an error
/// by its words. The interpreter must give up after some number of
/// operations and bound what a value holds, so that the call returns, and
/// must only compute, so that the answer depends on the interpreter, the
/// program, the function and the input alone.
#[verifier::external_body]
pub(crate) fn call(engine: &rhai::Engine, program: &rhai::AST, function: &str, input: &str) -> (answer:
    Result<rhai::Dynamic, String>)
    requires
        operations_limit(*engine) > 0,
        sizes_limit(*engine) > 0,
        computes_only(*engine),
    ensures
        answer matches Ok(value) ==> rule_answer(*engine, *program, function@, input@) is Ok
            && rule_answer(*engine, *program, function@, input@)->Ok_0 == value,
        answer matches Err(cause) ==> rule_answer(*engine, *program, function@, input@) is Err
            && rule_answer(*engine, *program, function@, input@)->Err_0 == cause@,
{
    match engine.call_fn::<rhai::Dynamic>(&mut rhai::Scope::new(), program, function, (input.to_owned(), )) {
        Ok(value) => Ok(value),
        Err(error) => Err(error.to_string()),
    }
}

/// The text that `value` is, as `Dynamic::into_string` of `rhai` gives it;
/// `None` where it is no text.
pub uninterp spec fn text_of_value(value: rhai::Dynamic) -> Option<Seq<char>>;

/// The boolean that `value` is, as `Dynamic::as_bool` of `rhai` gives it;
/// `None` where it is none.
pub uninterp spec fn flag_of_value(value: rhai::Dynamic) -> Option<bool>;

/// The items of the list that `value` is, in order, as
/// `Dynamic::into_array` of `rhai` gives them; `None` where it is no list.
pub uninterp spec fn items_of_value(value: rhai::Dynamic) -> Option<Seq<rhai::Dynamic>>;

/// The text that `value` is, by `Dynamic::into_string` of `rhai`; `None`
/// where it is no text.
#[verifier::external_body]
pub(crate) fn value_text(value: &rhai::Dynamic) -> (text: Option<String>)
    ensures
        text is Some == text_of_value(*value) is Some,
        text matches Some(held) ==> text_of_value(*value) == Some(held@),
{
    value.clone().into_string().ok()
}

/// The boolean that `value` is, by `Dynamic::as_bool` of `rhai`; `None`
/// where it is none.
#[verifier::external_body]
pub(crate) fn value_flag(value: &rhai::Dynamic) -> (flag: Option<bool>)
    ensures
        flag == flag_of_value(*value),
{
    value.as_bool().ok()
}

/// The items of the list that `value` is, by `Dynamic::into_array` of
/// `rhai`; `None` where it is no list.
#[verifier::external_body]
pub(crate) fn value_items(value: &rhai::Dynamic) -> (items: Option<Vec<rhai::Dynamic>>)
    ensures
        items is Some == items_of_value(*value) is Some,
        items matches Some(held) ==> items_of_value(*value) == Some(held@),
{
    value.clone().into_array().ok()
}

/// One value of a rule's answer, as far as the translator reads it.
#[derive(Debug, PartialEq, Eq)]
pub enum RuleValue {
    /// A text.
    Text(String),
    /// A boolean.
    Flag(bool),
    /// A list of texts.
    Texts(Vec<String>),
    /// Anything else.
    Other,
}

/// The mathematical value of a `RuleValue`.
pub enum RuleValueView {
    Text(Seq<char>),
    Flag(bool),
    Texts(Seq<Seq<char>>),
    Other,
}

impl View for RuleValue {
    type V = RuleValueView;

    open spec fn view(&self) -> RuleValueView {
        match self {
            RuleValue::Text(text) => RuleValueView::Text(text@),
            RuleValue::Flag(flag) => RuleValueView::Flag(*flag),
            RuleValue::Texts(texts) => RuleValueView::Texts(texts_of(texts@)),
            RuleValue::Other => RuleValueView::Other,
        }
    }
}

/// The mathematical values of `values`, in order.
pub open spec fn values_of(values: Seq<RuleValue>) -> Seq<RuleValueView> {
    Seq::new(values.len(), |i: int| values[i]@)
}

/// What one run of one rule came to.
#[derive(Debug, PartialEq, Eq)]
pub enum RuleOutcome {
    /// The rule proposes this record.
    Record(TranslationRecord),
    /// The rule proposes nothing.
    Nothing,
    /// The rule failed; holds why.
    Failed(String),
}

/// The mathematical value of a `RuleOutcome`.
pub enum OutcomeView {
    Record(RecordView),
    Nothing,
    Failed(Seq<char>),
}

impl View for RuleOutcome {
    type V = OutcomeView;

    open spec fn view(&self) -> OutcomeView {
        match self {
            RuleOutcome::Record(record) => OutcomeView::Record(record@),
            RuleOutcome::Nothing => OutcomeView::Nothing,
            RuleOutcome::Failed(cause) => OutcomeView::Failed(cause@),
        }
    }
}

/// The mathematical values of `outcomes`, in order.
pub open spec fn outcomes_of(outcomes: Seq<RuleOutcome>) -> Seq<OutcomeView> {
    Seq::new(outcomes.len(), |i: int| outcomes[i]@)
}

/// Why an answer of four values of the wrong kinds is refused.
pub open spec fn misshapen() -> Seq<char> {
    "the rule answered with values of the wrong kind"@
}

/// What an answer of a rule comes to. An answer of four values, of which
/// the first two are texts, the third a text or a list of texts and the
/// fourth a boolean, is a record; another answer of four values is a
/// failure; any other number of values proposes nothing.
pub open spec fn outcome_of_answer(values: Seq<RuleValueView>) -> OutcomeView {
    if values.len() != 4 {
        OutcomeView::Nothing
    } else {
        match (values[0], values[1], values[2], values[3]) {
            (
                RuleValueView::Text(input),
                RuleValueView::Text(remainder),
                RuleValueView::Text(candidate),
                RuleValueView::Flag(auto_commit),
            ) => OutcomeView::Record(
                RecordView { input, remainder, candidates: seq![candidate], auto_commit },
            ),
            (
                RuleValueView::Text(input),
                RuleValueView::Text(remainder),
                RuleValueView::Texts(candidates),
                RuleValueView::Flag(auto_commit),
            ) => OutcomeView::Record(RecordView { input, remainder, candidates, auto_commit }),
            _ => OutcomeView::Failed(misshapen()),
        }
    }
}

/// Computes `outcome_of_answer`.
pub fn read_answer(values: &Vec<RuleValue>) -> (outcome: RuleOutcome)
    ensures
        outcome@ == outcome_of_answer(values_of(values@)),
{
    if values.len() != 4 {
        return RuleOutcome::Nothing;
    }
    match (&values[0], &values[1], &values[2], &values[3]) {
        (
            RuleValue::Text(input),
            RuleValue::Text(remainder),
            RuleValue::Text(candidate),
            RuleValue::Flag(auto_commit),
        ) => {
            let mut candidates: Vec<String> = Vec::new();
            candidates.push(candidate.clone());
            assert(texts_of(candidates@) =~= seq![candidate@]);
            RuleOutcome::Record(
                TranslationRecord {
                    input: input.clone(),
                    remainder: remainder.clone(),
                    candidates,
                    auto_commit: *auto_commit,
                },
            )
        },
        (
            RuleValue::Text(input),
            RuleValue::Text(remainder),
            RuleValue::Texts(texts),
            RuleValue::Flag(auto_commit),
        ) => RuleOutcome::Record(
            TranslationRecord {
                input: input.clone(),
                remainder: remainder.clone(),
                candidates: crate::dictionary::copy_texts(texts),
                auto_commit: *auto_commit,
            },
        ),
        _ => RuleOutcome::Failed("the rule answered with values of the wrong kind".to_owned()),
    }
}

/// What `value` is read as: `classified` of what it is as a text, as a
/// boolean and as a list, each item of the list taken as a text.
pub open spec fn value_read(value: rhai::Dynamic) -> RuleValueView {
    classified(
        text_of_value(value),
        flag_of_value(value),
        match items_of_value(value) {
            Some(items) => Some(Seq::new(items.len(), |i: int| text_of_value(items[i]))),
            None => None,
        },
    )
}

/// Reads one value of an answer: asks `rhai` for the value as a text, as a
/// boolean and as a list of texts, and has `classify` say what it is.
pub(crate) fn read_value(value: &rhai::Dynamic) -> (read: RuleValue)
    ensures
        read@ == value_read(*value),
{
    let text = value_text(value);
    let flag = value_flag(value);
    let items = match value_items(value) {
        Some(items) => items,
        None => { return classify(text, flag, None); },
    };
    let mut texts: Vec<Option<String>> = Vec::new();
    let mut i: usize = 0;
    while i < items.len()
        invariant
            i <= items.len(),
            texts@.len() == i,
            forall|k: int| 0 <= k < i ==> reading_of(#[trigger] texts@[k]) == text_of_value(items@[k]),
        decreases items.len() - i,
    {
        texts.push(value_text(&items[i]));
        i += 1;
    }
    assert(readings_of(texts@) =~= Seq::new(items@.len(), |i: int| text_of_value(items@[i])));
    classify(text, flag, Some(texts))
}

/// What an answer is read as: the words of a failure as they are, and a
/// value as the list of its items, each read as `value_read` says; `None`
/// where the value is no list.
pub open spec fn answer_read(answer: Result<rhai::Dynamic, Seq<char>>) -> Result<
    Option<Seq<RuleValueView>>,
    Seq<char>,
> {
    match answer {
        Err(cause) => Err(cause),
        Ok(value) => Ok(
            match items_of_value(value) {
                Some(items) => Some(Seq::new(items.len(), |i: int| value_read(items[i]))),
                None => None,
            },
        ),
    }
}

/// What running one rule on `input` comes to: `concluded` of what the
/// function `translate` of `code` answers to `input`.
pub open spec fn rule_outcome(engine: rhai::Engine, code: rhai::AST, input: Seq<char>) -> OutcomeView {
    concluded(answer_read(rule_answer(engine, code, "translate"@, input)))
}

/// Runs one rule on `input`: calls the function `translate` of `program`
/// with `input` as its one argument, asks `rhai` for the answer as a list,
/// reads each item of the list with `read_value`, and has `conclude` say
/// what the run came to.
pub(crate) fn run(engine: &rhai::Engine, program: &rhai::AST, input: &str) -> (outcome:
    RuleOutcome)
    requires
        operations_limit(*engine) > 0,
        sizes_limit(*engine) > 0,
        computes_only(*engine),
    ensures
        outcome@ == rule_outcome(*engine, *program, input@),
{
    let answer = match call(engine, program, "translate", input) {
        Ok(answer) => answer,
        Err(cause) => { return conclude(Err(cause)); },
    };
    let items = match value_items(&answer) {
        Some(items) => items,
        None => { return conclude(Ok(None)); },
    };
    let mut values: Vec<RuleValue> = Vec::new();
    let mut i: usize = 0;
    while i < items.len()
        invariant
            i <= items.len(),
            values@.len() == i,
            forall|k: int| 0 <= k < i ==> (#[trigger] values@[k])@ == value_read(items@[k]),
        decreases items.len() - i,
    {
        values.push(read_value(&items[i]));
        i += 1;
    }
    assert(values_of(values@) =~= Seq::new(items@.len(), |i: int| value_read(items@[i])));
    conclude(Ok(Some(values)))
}

/// The characters of `text`, where there is a text.
pub open spec fn reading_of(text: Option<String>) -> Option<Seq<char>> {
    match text {
        Some(text) => Some(text@),
        None => None,
    }
}

/// The characters of each of `items` that is a text, in order.
pub open spec fn readings_of(items: Seq<Option<String>>) -> Seq<Option<Seq<char>>> {
    Seq::new(items.len(), |i: int| reading_of(items[i]))
}

/// What a value is, given what it is as a text, as a boolean and as a list
/// (each item of the list as a text), where `None` says that it is no such
/// thing. A text is `Text`; otherwise a boolean is `Flag`; otherwise a list
/// whose items are all texts is `Texts`, with the items in their order;
/// anything else, a list with an item that is no text too, is `Other`.
pub open spec fn classified(
    text: Option<Seq<char>>,
    flag: Option<bool>,
    items: Option<Seq<Option<Seq<char>>>>,
) -> RuleValueView {
    match (text, flag, items) {
        (Some(text), _, _) => RuleValueView::Text(text),
        (None, Some(flag), _) => RuleValueView::Flag(flag),
        (None, None, Some(items)) => if forall|i: int|
            0 <= i < items.len() ==> (#[trigger] items[i]) is Some {
            RuleValueView::Texts(Seq::new(items.len(), |i: int| items[i]->0))
        } else {
            RuleValueView::Other
        },
        (None, None, None) => RuleValueView::Other,
    }
}

/// Computes `classified`.
pub fn classify(text: Option<String>, flag: Option<bool>, items: Option<Vec<Option<String>>>) -> (read:
    RuleValue)
    ensures
        read@ == classified(
            reading_of(text),
            flag,
            match items {
                Some(items) => Some(readings_of(items@)),
                None => None,
            },
        ),
{
    if let Some(text) = text {
        return RuleValue::Text(text);
    }
    if let Some(flag) = flag {
        return RuleValue::Flag(flag);
    }
    let list = match &items {
        Some(list) => list,
        None => { return RuleValue::Other; },
    };
    let mut texts: Vec<String> = Vec::new();
    let mut i: usize = 0;
    while i < list.len()
        invariant
            text is None,
            flag is None,
            items == Some(*list),
            i <= list.len(),
            texts@.len() == i,
            forall|k: int| 0 <= k < i ==> (#[trigger] readings_of(list@)[k]) == Some(texts@[k]@),
        decreases list.len() - i,
    {
        match &list[i] {
            Some(text) => texts.push(text.clone()),
            None => {
                assert(readings_of(list@)[i as int] is None);
                return RuleValue::Other;
            },
        }
        i += 1;
    }
    assert(texts_of(texts@) =~= Seq::new(
        readings_of(list@).len(),
        |i: int| readings_of(list@)[i]->0,
    ));
    RuleValue::Texts(texts)
}

/// What a run came to, given what it answered: the words of its failure,
/// or the values of the list that it answered with, where `None` says that
/// the answer is no list. A failure is the rule's failure, with the same
/// words; an answer that is no list proposes nothing; a list is read as
/// `outcome_of_answer` says.
pub open spec fn concluded(answer: Result<Option<Seq<RuleValueView>>, Seq<char>>) -> OutcomeView {
    match answer {
        Err(cause) => OutcomeView::Failed(cause),
        Ok(None) => OutcomeView::Nothing,
        Ok(Some(values)) => outcome_of_answer(values),
    }
}

/// Computes `concluded`.
pub fn conclude(answer: Result<Option<Vec<RuleValue>>, String>) -> (outcome: RuleOutcome)
    ensures
        outcome@ == concluded(
            match answer {
                Err(cause) => Err(cause@),
                Ok(None) => Ok(None),
                Ok(Some(values)) => Ok(Some(values_of(values@))),
            },
        ),
{
    match answer {
        Err(cause) => RuleOutcome::Failed(cause),
        Ok(None) => RuleOutcome::Nothing,
        Ok(Some(values)) => read_answer(&values),
    }
}

/// A compiled rule, with the source that it was compiled from.
pub struct Program {
    pub(crate) source: String,
    pub(crate) code: rhai::AST,
}

/// The mathematical value of a `Program`: its source, and what the
/// compiler made of it.
pub struct ProgramView {
    pub source: Seq<char>,
    pub code: rhai::AST,
}

impl View for Program {
    type V = ProgramView;

    closed spec fn view(&self) -> ProgramView {
        ProgramView { source: self.source@, code: self.code }
    }
}

impl Program {
    /// The source that this program was compiled from.
    pub fn source(&self) -> (source: &str)
        ensures
            source@ == self@.source,
    {
        self.source.as_str()
    }

    /// What the compiler made of the source.
    pub(crate) fn code(&self) -> (code: &rhai::AST)
        ensures
            *code == self@.code,
    {
        &self.code
    }
}

/// Compiles the source of a rule: the program of `source`, where
/// `rule_compiles` holds of it, and the compiler's error where it does not.
pub fn compile_rule(source: &str) -> (compiled: Result<Program, rhai::ParseError>)
    ensures
        compiled is Ok == rule_compiles(source@),
        compiled matches Ok(program) ==> program@.source == source@,
{
    match compile(source) {
        Ok(code) => Ok(Program { source: source.to_owned(), code }),
        Err(error) => Err(error),
    }
}

} // verus!
