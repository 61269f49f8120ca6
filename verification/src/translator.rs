//! The translator: from a composed input to proposals, by a dictionary and
//! by scripted rules.
use crate::dictionary::{
    dictionary_records, is_dictionary, records_of, texts_of, words_listed, Dictionary,
    RecordView, TranslationRecord, WordView,
};
use crate::failure::{Failure, FailureView};
use crate::rules::{
    compile_rule, computes_only, limit_operations, limit_sizes, new_engine, operations_limit,
    outcomes_of, rule_compiles, rule_outcome, run, sizes_limit, OutcomeView, Program,
    ProgramView, RuleOutcome,
};
use crate::text::same_text;
use vstd::prelude::*;

verus! {

/// The most operations that one run of a rule may take before it is
/// stopped as failed.
pub const RULE_OPERATIONS: u64 = 1000000;

/// The most bytes of a string, items of an array and entries of a map that
/// a rule may make before its run is stopped as failed.
pub const RULE_SIZE: usize = 65536;

/// The mathematical value of a translator: the words of its dictionary,
/// whether its records allow a commit without asking, in how many places a
/// word may differ from the input and still be proposed (`None`: only the
/// input itself is looked up), the names of its rules in the order in
/// which they were registered, the program of each rule at the place of
/// its name, and the interpreter that runs them.
pub struct TranslatorView {
    pub words: Seq<WordView>,
    pub auto_commit: bool,
    pub tolerance: Option<nat>,
    pub rules: Seq<Seq<char>>,
    pub programs: Seq<ProgramView>,
    pub engine: rhai::Engine,
}

/// Whether `state` is a state that a translator can be in: the words make
/// a dictionary, no two rules have one name, each rule has its program,
/// and the interpreter gives up a run after some number of operations,
/// bounds what a value holds, and lets a rule do nothing but compute.
pub open spec fn is_state(state: TranslatorView) -> bool {
    &&& is_dictionary(state.words)
    &&& forall|i: int, j: int|
        0 <= i < j < state.rules.len() ==> (#[trigger] state.rules[i]) != (
        #[trigger] state.rules[j])
    &&& state.programs.len() == state.rules.len()
    &&& operations_limit(state.engine) > 0
    &&& sizes_limit(state.engine) > 0
    &&& computes_only(state.engine)
}

/// `found` followed by the records among `outcomes`, in order.
pub open spec fn assembled(found: Seq<RecordView>, outcomes: Seq<OutcomeView>) -> Seq<RecordView>
    decreases outcomes.len(),
{
    if outcomes.len() == 0 {
        found
    } else {
        let earlier = assembled(found, outcomes.drop_last());
        match outcomes.last() {
            OutcomeView::Record(record) => earlier.push(record),
            _ => earlier,
        }
    }
}

/// A `RuleRuntimeFailure` for each failure among `outcomes`, in order, with
/// the name at the same place in `names`.
pub open spec fn reported(names: Seq<Seq<char>>, outcomes: Seq<OutcomeView>) -> Seq<FailureView>
    recommends
        names.len() >= outcomes.len(),
    decreases outcomes.len(),
{
    if outcomes.len() == 0 {
        Seq::empty()
    } else {
        let earlier = reported(names, outcomes.drop_last());
        match outcomes.last() {
            OutcomeView::Failed(cause) => earlier.push(
                FailureView::RuleRuntimeFailure(names[outcomes.len() - 1], cause),
            ),
            _ => earlier,
        }
    }
}

/// What each rule of `state` comes to on `input`, in the order of
/// registration.
pub open spec fn rule_outcomes(state: TranslatorView, input: Seq<char>) -> Seq<OutcomeView> {
    Seq::new(
        state.rules.len(),
        |i: int| rule_outcome(state.engine, state.programs[i].code, input),
    )
}

/// What a translator in `state` proposes for `input`: the records of its
/// dictionary, then the record of each rule that proposes one. It depends
/// on the state and the input alone.
pub open spec fn translation(state: TranslatorView, input: Seq<char>) -> Seq<RecordView> {
    assembled(
        dictionary_records(state.words, state.auto_commit, state.tolerance, input),
        rule_outcomes(state, input),
    )
}

/// The rules of a translator in `state` that fail on `input`, each with its
/// name and the words of its failure.
pub open spec fn failures(state: TranslatorView, input: Seq<char>) -> Seq<FailureView> {
    reported(state.rules, rule_outcomes(state, input))
}

/// The place of `name` among `names`, if it is there.
pub open spec fn place_of(names: Seq<Seq<char>>, name: Seq<char>) -> Option<int> {
    if exists|i: int| 0 <= i < names.len() && names[i] == name {
        Some(choose|i: int| 0 <= i < names.len() && names[i] == name)
    } else {
        None
    }
}

/// `names` with `name` registered: at its old place where it is there
/// already, at the end otherwise.
pub open spec fn with_rule(names: Seq<Seq<char>>, name: Seq<char>) -> Seq<Seq<char>> {
    if place_of(names, name) is Some {
        names
    } else {
        names.push(name)
    }
}

/// `names` with `name` taken out.
pub open spec fn without_rule(names: Seq<Seq<char>>, name: Seq<char>) -> Seq<Seq<char>> {
    match place_of(names, name) {
        Some(i) => names.remove(i),
        None => names,
    }
}

/// `programs` with `program` registered under `name`: in place of the
/// program that `name` had, where it is among `names`, at the end
/// otherwise.
pub open spec fn with_program(
    names: Seq<Seq<char>>,
    programs: Seq<ProgramView>,
    name: Seq<char>,
    program: ProgramView,
) -> Seq<ProgramView> {
    match place_of(names, name) {
        Some(i) => programs.update(i, program),
        None => programs.push(program),
    }
}

/// `programs` with the program of `name` taken out.
pub open spec fn without_program(
    names: Seq<Seq<char>>,
    programs: Seq<ProgramView>,
    name: Seq<char>,
) -> Seq<ProgramView> {
    match place_of(names, name) {
        Some(i) => programs.remove(i),
        None => programs,
    }
}

/// The mathematical values of `errors`, in order.
pub open spec fn errors_of(errors: Seq<Failure>) -> Seq<FailureView> {
    Seq::new(errors.len(), |i: int| errors[i]@)
}

/// A registered rule: its name and its program.
struct Rule {
    name: String,
    program: Program,
}

/// The names of `rules`, in order.
spec fn names_of(rules: Seq<Rule>) -> Seq<Seq<char>> {
    Seq::new(rules.len(), |i: int| rules[i].name@)
}

/// The programs of `rules`, in order.
spec fn programs_of(rules: Seq<Rule>) -> Seq<ProgramView> {
    Seq::new(rules.len(), |i: int| rules[i].program@)
}

/// The engine that proposes translations.
pub struct Translator {
    dictionary: Dictionary,
    auto_commit: bool,
    tolerance: Option<usize>,
    engine: rhai::Engine,
    rules: Vec<Rule>,
}

impl View for Translator {
    type V = TranslatorView;

    closed spec fn view(&self) -> TranslatorView {
        TranslatorView {
            words: self.dictionary@,
            auto_commit: self.auto_commit,
            tolerance: match self.tolerance {
                Some(t) => Some(t as nat),
                None => None,
            },
            rules: names_of(self.rules@),
            programs: programs_of(self.rules@),
            engine: self.engine,
        }
    }
}

/// Puts together what the dictionary found and what the rules came to:
/// the records as `assembled` says, and the failures as `reported` says.
pub fn assemble(found: Vec<TranslationRecord>, names: &Vec<String>, outcomes: &Vec<RuleOutcome>) -> (out:
    (Vec<TranslationRecord>, Vec<Failure>))
    requires
        names@.len() == outcomes@.len(),
    ensures
        records_of(out.0@) == assembled(records_of(found@), outcomes_of(outcomes@)),
        errors_of(out.1@) == reported(texts_of(names@), outcomes_of(outcomes@)),
{
    let ghost all = outcomes_of(outcomes@);
    let ghost named = texts_of(names@);
    let mut records = found;
    let mut failures: Vec<Failure> = Vec::new();
    let mut i: usize = 0;
    while i < outcomes.len()
        invariant
            i <= outcomes.len(),
            names@.len() == outcomes@.len(),
            all == outcomes_of(outcomes@),
            named == texts_of(names@),
            records_of(records@) == assembled(records_of(found@), all.take(i as int)),
            errors_of(failures@) == reported(named, all.take(i as int)),
        decreases outcomes.len() - i,
    {
        let ghost next = all.take(i + 1);
        assert(next.drop_last() =~= all.take(i as int));
        match &outcomes[i] {
            RuleOutcome::Record(record) => records.push(record.duplicate()),
            RuleOutcome::Nothing => {},
            RuleOutcome::Failed(cause) => failures.push(
                Failure::RuleRuntimeFailure(names[i].clone(), cause.clone()),
            ),
        }
        i += 1;
    }
    assert(all.take(outcomes.len() as int) =~= all);
    (records, failures)
}

impl Translator {
    /// Whether this translator is in a state that it can be in. Every
    /// translator that `new` made is, and stays so.
    pub open spec fn wf(&self) -> bool {
        is_state(self@)
    }

    /// A translator for the dictionary that `dictionary` lists, without
    /// tolerance and without rules, and with an interpreter that stops a
    /// run after `RULE_OPERATIONS` operations or at a value of more than
    /// `RULE_SIZE`. Fails with
    /// `InvalidDictionaryShape` where `dictionary` lists an input twice.
    pub fn new(dictionary: &Vec<(String, Vec<String>)>, auto_commit: bool) -> (made: Result<
        Translator,
        Failure,
    >)
        ensures
            match made {
                Ok(t) => {
                    &&& t.wf()
                    &&& is_dictionary(words_listed(dictionary@))
                    &&& t@.words == words_listed(dictionary@)
                    &&& t@.auto_commit == auto_commit
                    &&& t@.tolerance is None
                    &&& t@.rules == Seq::<Seq<char>>::empty()
                    &&& t@.programs == Seq::<ProgramView>::empty()
                    &&& operations_limit(t@.engine) == RULE_OPERATIONS
                    &&& sizes_limit(t@.engine) == RULE_SIZE
                },
                Err(e) => !is_dictionary(words_listed(dictionary@)) && e@
                    == FailureView::InvalidDictionaryShape,
            },
    {
        match Dictionary::build(dictionary) {
            Ok(dictionary) => {
                let mut engine = new_engine();
                limit_operations(&mut engine, RULE_OPERATIONS);
                limit_sizes(&mut engine, RULE_SIZE);
                let made = Translator {
                    dictionary,
                    auto_commit,
                    tolerance: None,
                    engine,
                    rules: Vec::new(),
                };
                assert(made@.rules =~= Seq::empty());
                assert(made@.programs =~= Seq::empty());
                Ok(made)
            },
            Err(e) => Err(e),
        }
    }

    /// Sets in how many places a word may differ from the input and still
    /// be proposed. `None` turns such proposals off.
    pub fn set_tolerance(&mut self, tolerance: Option<usize>)
        requires
            old(self).wf(),
        ensures
            final(self).wf(),
            final(self)@ == (TranslatorView {
                tolerance: match tolerance {
                    Some(t) => Some(t as nat),
                    None => None,
                },
                ..old(self)@
            }),
    {
        self.tolerance = tolerance;
    }

    /// The place of the rule `name`, if it is registered.
    fn find(&self, name: &str) -> (place: Option<usize>)
        requires
            self.wf(),
        ensures
            match place {
                Some(i) => place_of(self@.rules, name@) == Some(i as int) && i < self@.rules.len()
                    && self@.rules[i as int] == name@,
                None => place_of(self@.rules, name@) is None,
            },
    {
        let mut i: usize = 0;
        while i < self.rules.len()
            invariant
                self.wf(),
                i <= self.rules.len(),
                forall|k: int| 0 <= k < i ==> self@.rules[k] != name@,
            decreases self.rules.len() - i,
        {
            if same_text(self.rules[i].name.as_str(), name) {
                assert(self@.rules[i as int] == name@);
                return Some(i);
            }
            i += 1;
        }
        None
    }

    /// Registers under `name` what compiling a rule's source gave. A
    /// program takes the place of the program that `name` had, or becomes
    /// the newest rule; the other rules keep their places and programs. A
    /// compile error fails with `RuleCompileFailure` for `name` and changes
    /// nothing.
    pub fn install(&mut self, name: String, compiled: Result<Program, rhai::ParseError>) -> (done:
        Result<(), Failure>)
        requires
            old(self).wf(),
        ensures
            final(self).wf(),
            done is Ok <==> compiled is Ok,
            match compiled {
                Ok(program) => final(self)@ == (TranslatorView {
                    rules: with_rule(old(self)@.rules, name@),
                    programs: with_program(
                        old(self)@.rules,
                        old(self)@.programs,
                        name@,
                        program@,
                    ),
                    ..old(self)@
                }),
                Err(_) => {
                    &&& final(self)@ == old(self)@
                    &&& done matches Err(Failure::RuleCompileFailure(n, _)) && n@ == name@
                },
            },
    {
        let program = match compiled {
            Ok(program) => program,
            Err(error) => {
                return Err(Failure::RuleCompileFailure(name, error.to_string()));
            },
        };
        let ghost before = self.rules@;
        match self.find(name.as_str()) {
            Some(i) => {
                self.rules[i].program = program;
                assert(names_of(self.rules@) =~= names_of(before));
                assert(programs_of(self.rules@) =~= programs_of(before).update(
                    i as int,
                    program@,
                ));
            },
            None => {
                self.rules.push(Rule { name, program });
                assert(names_of(self.rules@) =~= names_of(before).push(name@));
                assert(programs_of(self.rules@) =~= programs_of(before).push(program@));
            },
        }
        Ok(())
    }

    /// Compiles `source` and registers it under `name`. A source that
    /// compiles is registered: its program takes the place of the program
    /// that `name` had, or becomes the newest rule, and the other rules keep
    /// their places and programs. A source that does not compile fails with
    /// `RuleCompileFailure` for `name` and changes nothing.
    pub fn register(&mut self, name: String, source: String) -> (done: Result<(), Failure>)
        requires
            old(self).wf(),
        ensures
            final(self).wf(),
            done is Ok <==> rule_compiles(source@),
            match done {
                Ok(_) => exists|program: ProgramView|
                    {
                        &&& program.source == source@
                        &&& final(self)@ == (TranslatorView {
                            rules: with_rule(old(self)@.rules, name@),
                            programs: #[trigger] with_program(
                                old(self)@.rules,
                                old(self)@.programs,
                                name@,
                                program,
                            ),
                            ..old(self)@
                        })
                    },
                Err(e) => {
                    &&& final(self)@ == old(self)@
                    &&& e matches Failure::RuleCompileFailure(n, _) && n@ == name@
                },
            },
    {
        let compiled = compile_rule(source.as_str());
        let ghost made = compiled;
        let done = self.install(name, compiled);
        proof {
            if let Ok(program) = made {
                assert(with_program(old(self)@.rules, old(self)@.programs, name@, program@)
                    == self@.programs);
            }
        }
        done
    }

    /// Takes the rule `name` out, with its program; the other rules keep
    /// their order and their programs. Where no rule has that name, nothing
    /// changes.
    pub fn unregister(&mut self, name: &str)
        requires
            old(self).wf(),
        ensures
            final(self).wf(),
            final(self)@ == (TranslatorView {
                rules: without_rule(old(self)@.rules, name@),
                programs: without_program(old(self)@.rules, old(self)@.programs, name@),
                ..old(self)@
            }),
    {
        let ghost before = self.rules@;
        match self.find(name) {
            Some(i) => {
                self.rules.remove(i);
                assert(names_of(self.rules@) =~= names_of(before).remove(i as int));
                assert(programs_of(self.rules@) =~= programs_of(before).remove(i as int));
            },
            None => {},
        }
    }

    /// What the dictionary proposes for `input`: the records of the word
    /// `input`, and then those of the words near it where a tolerance is
    /// set.
    pub fn lookup(&self, input: &str) -> (found: Vec<TranslationRecord>)
        ensures
            records_of(found@) == dictionary_records(
                self@.words,
                self@.auto_commit,
                self@.tolerance,
                input@,
            ),
    {
        self.dictionary.lookup(input, self.auto_commit, self.tolerance)
    }

    /// The proposals for `input`, and the rules that failed, as
    /// `translation` and `failures` say. The records of the dictionary come
    /// first, as `lookup` gives them; then, for each rule in the order of
    /// registration, the record that it proposes, if it proposes one. A
    /// rule that fails adds no record: it is reported with its name in the
    /// second list.
    pub fn translate_with_report(&self, input: &str) -> (out: (Vec<TranslationRecord>, Vec<Failure>))
        requires
            self.wf(),
        ensures
            records_of(out.0@) == translation(self@, input@),
            errors_of(out.1@) == failures(self@, input@),
    {
        let found = self.lookup(input);
        let mut names: Vec<String> = Vec::new();
        let mut outcomes: Vec<RuleOutcome> = Vec::new();
        let mut i: usize = 0;
        while i < self.rules.len()
            invariant
                self.wf(),
                i <= self.rules.len(),
                names@.len() == i,
                outcomes@.len() == i,
                forall|k: int| 0 <= k < i ==> names@[k]@ == self.rules@[k].name@,
                forall|k: int|
                    0 <= k < i ==> (#[trigger] outcomes@[k])@ == rule_outcome(
                        self@.engine,
                        self@.programs[k].code,
                        input@,
                    ),
            decreases self.rules.len() - i,
        {
            names.push(self.rules[i].name.clone());
            outcomes.push(run(&self.engine, self.rules[i].program.code(), input));
            i += 1;
        }
        assert(texts_of(names@) =~= self@.rules);
        assert(outcomes_of(outcomes@) =~= rule_outcomes(self@, input@));
        assemble(found, &names, &outcomes)
    }

    /// The proposals for `input`, as `translation` says: the records of the
    /// dictionary first and in their order, then the record of each rule
    /// that proposes one, in the order of registration.
    pub fn translate(&self, input: &str) -> (records: Vec<TranslationRecord>)
        requires
            self.wf(),
        ensures
            records_of(records@) == translation(self@, input@),
    {
        let out = self.translate_with_report(input);
        out.0
    }
}

} // verus!
