use afrim_engine::rules::{
    classify, compile_rule, conclude, read_answer, RuleOutcome, RuleValue,
};
use afrim_engine::translator::assemble;
use afrim_engine::{convert_toml_to_json, Failure, TranslationRecord, Translator};

fn dictionary(words: &[(&str, &[&str])]) -> Vec<(String, Vec<String>)> {
    words
        .iter()
        .map(|(input, candidates)| {
            (input.to_string(), candidates.iter().map(|c| c.to_string()).collect())
        })
        .collect()
}

fn record(input: &str, remainder: &str, candidates: &[&str], auto_commit: bool) -> TranslationRecord {
    TranslationRecord {
        input: input.to_owned(),
        remainder: remainder.to_owned(),
        candidates: candidates.iter().map(|c| c.to_string()).collect(),
        auto_commit,
    }
}

const COUNT: &str = r#"fn translate(input) { [input, "", input.len().to_string(), false] }"#;

#[test]
fn test_translate() {
    let translator = Translator::new(&dictionary(&[("hello", &["hi"])]), false).unwrap();
    assert_eq!(translator.translate("hello"), vec![record("hello", "", &["hi"], false)]);
    assert_eq!(translator.translate("unknown"), vec![]);
}

#[test]
fn one_record_for_each_candidate() {
    let words = dictionary(&[("hi", &["hello", "hola", "hey"]), ("yo", &[]), ("ho", &["x"])]);
    let translator = Translator::new(&words, true).unwrap();
    assert_eq!(
        translator.translate("hi"),
        vec![
            record("hi", "", &["hello"], true),
            record("hi", "", &["hola"], true),
            record("hi", "", &["hey"], true),
        ]
    );
    assert_eq!(translator.translate("yo"), vec![]);
    assert_eq!(translator.translate("h"), vec![]);
    assert_eq!(translator.translate(""), vec![]);
    assert_eq!(translator.lookup("ho"), vec![record("ho", "", &["x"], true)]);
}

#[test]
fn new_refuses_an_input_listed_twice() {
    let words = dictionary(&[("hi", &["hello"]), ("ho", &[]), ("hi", &["hey"])]);
    assert_eq!(Translator::new(&words, false).err(), Some(Failure::InvalidDictionaryShape));
    assert!(Translator::new(&dictionary(&[]), false).is_ok());
}

#[test]
fn near_words_follow_the_input() {
    let words = dictionary(&[
        ("hallo", &["hola"]),
        ("hello", &["hi", "hey"]),
        ("jello", &["gel"]),
        ("help", &["aid"]),
        ("hxxlo", &["far"]),
    ]);
    let mut translator = Translator::new(&words, false).unwrap();
    assert_eq!(
        translator.translate("hello"),
        vec![record("hello", "", &["hi"], false), record("hello", "", &["hey"], false)]
    );
    translator.set_tolerance(Some(1));
    assert_eq!(
        translator.translate("hello"),
        vec![
            record("hello", "", &["hi"], false),
            record("hello", "", &["hey"], false),
            record("hallo", "", &["hola"], false),
            record("jello", "", &["gel"], false),
        ]
    );
    translator.set_tolerance(Some(2));
    assert_eq!(translator.translate("hello").len(), 5);
    assert_eq!(translator.translate("hullo"), vec![
        record("hallo", "", &["hola"], false),
        record("hello", "", &["hi"], false),
        record("hello", "", &["hey"], false),
        record("jello", "", &["gel"], false),
        record("hxxlo", "", &["far"], false),
    ]);
    translator.set_tolerance(Some(0));
    assert_eq!(translator.translate("hullo"), vec![]);
    translator.set_tolerance(None);
    assert_eq!(translator.translate("hullo"), vec![]);
}

#[test]
fn test_translator() {
    let mut translator = Translator::new(&dictionary(&[]), false).unwrap();
    translator.register("count".to_owned(), COUNT.to_owned()).unwrap();
    assert_eq!(translator.translate("hello"), vec![record("hello", "", &["5"], false)]);
    translator.unregister("count");
    assert_eq!(translator.translate("hello"), vec![]);
    // Taking out a rule that is not there changes nothing.
    translator.unregister("count");
    translator.unregister("never");
    assert_eq!(translator.translate("hello"), vec![]);
}

#[test]
fn rules_answer_after_the_dictionary_in_the_order_of_registration() {
    let mut translator = Translator::new(&dictionary(&[("jump", &["sauter"])]), true).unwrap();
    translator
        .register(
            "newline".to_owned(),
            r#"fn translate(input) { if input == "jump" { [input, "", "\n", false] } }"#.to_owned(),
        )
        .unwrap();
    translator.register("count".to_owned(), COUNT.to_owned()).unwrap();
    translator
        .register(
            "list".to_owned(),
            r#"fn translate(input) { [input, "x", ["a", "b"], true] }"#.to_owned(),
        )
        .unwrap();
    assert_eq!(
        translator.translate("jump"),
        vec![
            record("jump", "", &["sauter"], true),
            record("jump", "", &["\n"], false),
            record("jump", "", &["4"], false),
            record("jump", "x", &["a", "b"], true),
        ]
    );
    assert_eq!(
        translator.translate("run"),
        vec![record("run", "", &["3"], false), record("run", "x", &["a", "b"], true)]
    );
    // A rule registered again keeps its place.
    translator
        .register(
            "count".to_owned(),
            r#"fn translate(input) { [input, "", "many", false] }"#.to_owned(),
        )
        .unwrap();
    assert_eq!(
        translator.translate("run"),
        vec![record("run", "", &["many"], false), record("run", "x", &["a", "b"], true)]
    );
}

#[test]
fn a_source_that_does_not_compile_changes_nothing() {
    let mut translator = Translator::new(&dictionary(&[]), false).unwrap();
    translator.register("count".to_owned(), COUNT.to_owned()).unwrap();
    let refused = translator.register("count".to_owned(), "fn translate(input) {".to_owned());
    match refused {
        Err(Failure::RuleCompileFailure(name, cause)) => {
            assert_eq!(name, "count");
            assert!(!cause.is_empty());
        }
        other => panic!("{:?}", other),
    }
    assert!(translator.register("other".to_owned(), "let x = ;".to_owned()).is_err());
    assert_eq!(translator.translate("hello"), vec![record("hello", "", &["5"], false)]);
}

#[test]
fn a_rule_that_fails_is_reported_and_skipped() {
    let mut translator = Translator::new(&dictionary(&[("hi", &["hello"])]), false).unwrap();
    translator
        .register("broken".to_owned(), r#"fn translate(input) { input.nothing_like_this() }"#.to_owned())
        .unwrap();
    translator.register("count".to_owned(), COUNT.to_owned()).unwrap();
    translator
        .register("endless".to_owned(), "fn translate(input) { loop { } }".to_owned())
        .unwrap();
    translator.register("absent".to_owned(), "fn other(input) { 1 }".to_owned()).unwrap();
    translator
        .register("odd".to_owned(), r#"fn translate(input) { [1, "", "x", false] }"#.to_owned())
        .unwrap();
    let (records, failures) = translator.translate_with_report("hi");
    assert_eq!(
        records,
        vec![record("hi", "", &["hello"], false), record("hi", "", &["2"], false)]
    );
    let names: Vec<&str> = failures
        .iter()
        .map(|f| match f {
            Failure::RuleRuntimeFailure(name, _) => name.as_str(),
            other => panic!("{:?}", other),
        })
        .collect();
    assert_eq!(names, vec!["broken", "endless", "absent", "odd"]);
    assert_eq!(translator.translate("hi"), records);
}

#[test]
fn a_rule_may_propose_nothing() {
    let mut translator = Translator::new(&dictionary(&[]), false).unwrap();
    translator.register("unit".to_owned(), "fn translate(input) { }".to_owned()).unwrap();
    translator.register("short".to_owned(), "fn translate(input) { [input] }".to_owned()).unwrap();
    translator.register("number".to_owned(), "fn translate(input) { 42 }".to_owned()).unwrap();
    let (records, failures) = translator.translate_with_report("hi");
    assert_eq!(records, vec![]);
    assert_eq!(failures, vec![]);
}

#[test]
fn install_takes_what_the_compiler_gave() {
    let mut translator = Translator::new(&dictionary(&[]), false).unwrap();
    assert_eq!(translator.install("count".to_owned(), compile_rule(COUNT)), Ok(()));
    assert_eq!(translator.translate("abc"), vec![record("abc", "", &["3"], false)]);
    let refused = translator.install("bad".to_owned(), compile_rule("fn ("));
    assert!(matches!(refused, Err(Failure::RuleCompileFailure(name, _)) if name == "bad"));
    assert_eq!(translator.translate("abc"), vec![record("abc", "", &["3"], false)]);
    // A program installed under a name that is there takes its place.
    let other = compile_rule(r#"fn translate(input) { [input, "", "other", true] }"#);
    translator.install("later".to_owned(), compile_rule(COUNT)).unwrap();
    assert_eq!(translator.install("count".to_owned(), other), Ok(()));
    assert_eq!(
        translator.translate("abc"),
        vec![record("abc", "", &["other"], true), record("abc", "", &["3"], false)]
    );
}

#[test]
fn read_answer_reads_four_values() {
    let text = |t: &str| RuleValue::Text(t.to_owned());
    assert_eq!(
        read_answer(&vec![text("in"), text("rest"), text("out"), RuleValue::Flag(true)]),
        RuleOutcome::Record(record("in", "rest", &["out"], true))
    );
    assert_eq!(
        read_answer(&vec![
            text("in"),
            text(""),
            RuleValue::Texts(vec!["a".to_owned(), "b".to_owned()]),
            RuleValue::Flag(false)
        ]),
        RuleOutcome::Record(record("in", "", &["a", "b"], false))
    );
    assert_eq!(
        read_answer(&vec![text("in"), text(""), RuleValue::Texts(vec![]), RuleValue::Flag(false)]),
        RuleOutcome::Record(record("in", "", &[], false))
    );
    assert_eq!(read_answer(&vec![]), RuleOutcome::Nothing);
    assert_eq!(read_answer(&vec![text("in"), text(""), text("out")]), RuleOutcome::Nothing);
    assert_eq!(
        read_answer(&vec![text("a"), text("b"), text("c"), RuleValue::Flag(true), text("d")]),
        RuleOutcome::Nothing
    );
    let misshapen =
        RuleOutcome::Failed("the rule answered with values of the wrong kind".to_owned());
    assert_eq!(
        read_answer(&vec![text("in"), text(""), text("out"), RuleValue::Other]),
        misshapen
    );
    assert_eq!(
        read_answer(&vec![RuleValue::Flag(true), text(""), text("out"), RuleValue::Flag(true)]),
        misshapen
    );
    assert_eq!(
        read_answer(&vec![text("in"), text(""), RuleValue::Other, RuleValue::Flag(true)]),
        misshapen
    );
}

#[test]
fn assemble_keeps_the_order() {
    let found = vec![record("a", "", &["1"], false)];
    let names = vec!["one".to_owned(), "two".to_owned(), "three".to_owned(), "four".to_owned()];
    let outcomes = vec![
        RuleOutcome::Failed("why".to_owned()),
        RuleOutcome::Record(record("a", "", &["2"], true)),
        RuleOutcome::Nothing,
        RuleOutcome::Record(record("b", "c", &[], false)),
    ];
    let (records, failures) = assemble(found, &names, &outcomes);
    assert_eq!(
        records,
        vec![
            record("a", "", &["1"], false),
            record("a", "", &["2"], true),
            record("b", "c", &[], false),
        ]
    );
    assert_eq!(failures, vec![Failure::RuleRuntimeFailure("one".to_owned(), "why".to_owned())]);
    assert_eq!(assemble(vec![], &vec![], &vec![]), (vec![], vec![]));
}

#[test]
fn test_toml() {
    assert_eq!(
        convert_toml_to_json("[data]\nhi = \"hello\""),
        Ok("{\"data\":{\"hi\":\"hello\"}}".to_owned())
    );
    assert_eq!(
        convert_toml_to_json("[info]\nname = \"sample\"\n\n[data]\nhello = \"hi\"\n"),
        Ok("{\"data\":{\"hello\":\"hi\"},\"info\":{\"name\":\"sample\"}}".to_owned())
    );
    assert_eq!(convert_toml_to_json(""), Ok("{}".to_owned()));
}

#[test]
fn what_is_no_toml_is_refused() {
    match convert_toml_to_json("[data\nhi = ") {
        Err(Failure::InvalidDocument(cause)) => assert!(!cause.is_empty()),
        other => panic!("{:?}", other),
    }
    assert!(convert_toml_to_json("hi").is_err());
}

#[test]
fn classify_says_what_a_value_is() {
    let text = |t: &str| Some(t.to_owned());
    assert_eq!(classify(text("a"), None, None), RuleValue::Text("a".to_owned()));
    // A text is a text, whatever else it is said to be.
    assert_eq!(
        classify(text("a"), Some(true), Some(vec![text("b")])),
        RuleValue::Text("a".to_owned())
    );
    assert_eq!(classify(None, Some(false), None), RuleValue::Flag(false));
    assert_eq!(classify(None, Some(true), Some(vec![text("b")])), RuleValue::Flag(true));
    assert_eq!(
        classify(None, None, Some(vec![text("a"), text(""), text("b")])),
        RuleValue::Texts(vec!["a".to_owned(), "".to_owned(), "b".to_owned()])
    );
    assert_eq!(classify(None, None, Some(vec![])), RuleValue::Texts(vec![]));
    assert_eq!(classify(None, None, Some(vec![text("a"), None, text("b")])), RuleValue::Other);
    assert_eq!(classify(None, None, Some(vec![None])), RuleValue::Other);
    assert_eq!(classify(None, None, None), RuleValue::Other);
}

#[test]
fn conclude_says_what_a_run_came_to() {
    let text = |t: &str| RuleValue::Text(t.to_owned());
    assert_eq!(conclude(Err("why".to_owned())), RuleOutcome::Failed("why".to_owned()));
    assert_eq!(conclude(Err(String::new())), RuleOutcome::Failed(String::new()));
    assert_eq!(conclude(Ok(None)), RuleOutcome::Nothing);
    assert_eq!(conclude(Ok(Some(vec![]))), RuleOutcome::Nothing);
    assert_eq!(conclude(Ok(Some(vec![text("in"), text("rest")]))), RuleOutcome::Nothing);
    assert_eq!(
        conclude(Ok(Some(vec![text("in"), text("rest"), text("out"), RuleValue::Flag(true)]))),
        RuleOutcome::Record(record("in", "rest", &["out"], true))
    );
    assert_eq!(
        conclude(Ok(Some(vec![text("in"), text("rest"), RuleValue::Other, RuleValue::Flag(true)]))),
        RuleOutcome::Failed("the rule answered with values of the wrong kind".to_owned())
    );
}

#[test]
fn what_a_rule_answers_is_read_value_by_value() {
    let mut translator = Translator::new(&dictionary(&[]), true).unwrap();
    translator
        .register(
            "mixed".to_owned(),
            r#"fn translate(input) { [input, "", ["a", 1], true] }"#.to_owned(),
        )
        .unwrap();
    translator
        .register(
            "flag".to_owned(),
            r#"fn translate(input) { [input, "", "a", "true"] }"#.to_owned(),
        )
        .unwrap();
    translator
        .register("empty".to_owned(), r#"fn translate(input) { [input, "rest", [], false] }"#.to_owned())
        .unwrap();
    translator
        .register("five".to_owned(), r#"fn translate(input) { [input, "", "a", true, 1] }"#.to_owned())
        .unwrap();
    translator
        .register("text".to_owned(), r#"fn translate(input) { input }"#.to_owned())
        .unwrap();
    let (records, failures) = translator.translate_with_report("hi");
    assert_eq!(records, vec![record("hi", "rest", &[], false)]);
    let wrong = "the rule answered with values of the wrong kind".to_owned();
    assert_eq!(
        failures,
        vec![
            Failure::RuleRuntimeFailure("mixed".to_owned(), wrong.clone()),
            Failure::RuleRuntimeFailure("flag".to_owned(), wrong),
        ]
    );
}

#[test]
fn compile_rule_keeps_the_source() {
    let program = match compile_rule(COUNT) {
        Ok(program) => program,
        Err(error) => panic!("{}", error),
    };
    assert_eq!(program.source(), COUNT);
    assert!(compile_rule("fn translate(input) {").is_err());
    assert!(compile_rule("let x = ;").is_err());
    // A script without the function compiles; it fails when it is run.
    assert!(compile_rule("").is_ok());
    assert!(compile_rule("fn other(input) { 1 }").is_ok());
}

#[test]
fn register_says_whether_the_source_compiles() {
    let mut translator = Translator::new(&dictionary(&[("hi", &["hello"])]), false).unwrap();
    assert_eq!(translator.register("count".to_owned(), COUNT.to_owned()), Ok(()));
    assert_eq!(translator.register("count".to_owned(), COUNT.to_owned()), Ok(()));
    assert!(translator.register("count".to_owned(), "fn (".to_owned()).is_err());
    assert_eq!(translator.register("empty".to_owned(), String::new()), Ok(()));
    // One name, one record: the rule was replaced, not added.
    assert_eq!(
        translator.translate("hi"),
        vec![record("hi", "", &["hello"], false), record("hi", "", &["2"], false)]
    );
}

#[test]
fn the_same_document_gives_the_same_json() {
    let content = "title = \"x\"\nnumbers = [1, 2.5, inf]\n[owner]\nborn = 1979-05-27T07:32:00Z\n";
    let first = convert_toml_to_json(content);
    assert_eq!(first, convert_toml_to_json(content));
    assert!(first.is_ok());
    assert!(first.unwrap().starts_with("{"));
    match convert_toml_to_json("a = ") {
        Err(failure) => assert!(failure.message().starts_with("Invalid toml data.\nCaused by:\n\t")),
        Ok(json) => panic!("{}", json),
    }
}

#[test]
fn a_rule_can_only_compute() {
    let mut translator = Translator::new(&dictionary(&[]), false).unwrap();
    let rules = [
        ("sleeps", r#"fn translate(input) { sleep(1); [input, "", "x", false] }"#),
        ("clock", r#"fn translate(input) { let t = timestamp(); [input, "", "x", false] }"#),
        ("imports", r#"import "other" as other; fn translate(input) { [input, "", "x", false] }"#),
        ("grows", r#"fn translate(input) { let s = "a"; loop { s += s; } }"#),
        ("pads", r#"fn translate(input) { let s = ""; s.pad(2000000000, "x"); [input, "", s, false] }"#),
        ("deep", r#"fn translate(input) { translate(input) }"#),
        ("prints", r#"fn translate(input) { print(input); debug(input); [input, "", "x", false] }"#),
        ("computes", r#"fn translate(input) { let n = 0; for c in input { n += 1; } [input, "", [n.to_string(), input.to_upper()], n > 1] }"#),
    ];
    for (name, source) in rules {
        translator.register(name.to_owned(), source.to_owned()).unwrap();
    }
    let (records, failures) = translator.translate_with_report("hi");
    assert_eq!(
        records,
        vec![record("hi", "", &["x"], false), record("hi", "", &["2", "HI"], true)]
    );
    let names: Vec<&str> = failures
        .iter()
        .map(|f| match f {
            Failure::RuleRuntimeFailure(name, _) => name.as_str(),
            other => panic!("{:?}", other),
        })
        .collect();
    assert_eq!(names, vec!["sleeps", "clock", "imports", "grows", "pads", "deep"]);
}

#[test]
fn translate_answers_the_same_twice() {
    let mut translator = Translator::new(&dictionary(&[("hi", &["hello"])]), true).unwrap();
    translator.register("count".to_owned(), COUNT.to_owned()).unwrap();
    translator
        .register("broken".to_owned(), "fn translate(input) { input.nothing() }".to_owned())
        .unwrap();
    let first = translator.translate_with_report("hi");
    let second = translator.translate_with_report("hi");
    assert_eq!(first, second);
    assert_eq!(first.0.len(), 2);
    assert_eq!(first.1.len(), 1);
}
