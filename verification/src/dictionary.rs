//! The dictionary: the candidates known for each input, and the records
//! that a lookup gives.
use crate::failure::{Failure, FailureView};
use crate::text::chars_of;
use vstd::prelude::*;

verus! {

/// One proposal of the translator.
#[derive(Debug, PartialEq, Eq)]
pub struct TranslationRecord {
    /// The input that the proposal stands for.
    pub input: String,
    /// What is left to type to reach that input.
    pub remainder: String,
    /// The texts proposed, best first.
    pub candidates: Vec<String>,
    /// Whether the host may commit without asking.
    pub auto_commit: bool,
}

/// The mathematical value of a `TranslationRecord`.
pub struct RecordView {
    pub input: Seq<char>,
    pub remainder: Seq<char>,
    pub candidates: Seq<Seq<char>>,
    pub auto_commit: bool,
}

/// The characters of each of `texts`, in order.
pub open spec fn texts_of(texts: Seq<String>) -> Seq<Seq<char>> {
    Seq::new(texts.len(), |i: int| texts[i]@)
}

impl View for TranslationRecord {
    type V = RecordView;

    open spec fn view(&self) -> RecordView {
        RecordView {
            input: self.input@,
            remainder: self.remainder@,
            candidates: texts_of(self.candidates@),
            auto_commit: self.auto_commit,
        }
    }
}

impl TranslationRecord {
    /// A copy of this record.
    pub fn duplicate(&self) -> (copy: TranslationRecord)
        ensures
            copy@ == self@,
    {
        TranslationRecord {
            input: self.input.clone(),
            remainder: self.remainder.clone(),
            candidates: copy_texts(&self.candidates),
            auto_commit: self.auto_commit,
        }
    }
}

/// The mathematical values of `records`, in order.
pub open spec fn records_of(records: Seq<TranslationRecord>) -> Seq<RecordView> {
    Seq::new(records.len(), |i: int| records[i]@)
}

/// The mathematical value of a dictionary entry: an input and its
/// candidates.
pub type WordView = (Seq<char>, Seq<Seq<char>>);

/// Whether `words` make a dictionary: no input is listed twice.
pub open spec fn is_dictionary(words: Seq<WordView>) -> bool {
    forall|i: int, j: int|
        0 <= i < j < words.len() ==> (#[trigger] words[i]).0 != (#[trigger] words[j]).0
}

/// The records for one word: one for each candidate, in the order of the
/// candidates, each with that candidate alone and nothing left to type.
pub open spec fn word_records(input: Seq<char>, candidates: Seq<Seq<char>>, auto_commit: bool) -> Seq<
    RecordView,
> {
    Seq::new(
        candidates.len(),
        |i: int|
            RecordView {
                input,
                remainder: Seq::empty(),
                candidates: seq![candidates[i]],
                auto_commit,
            },
    )
}

/// In how many places `a` and `b` differ, where the last place of `a` is
/// held against the last place of `b`, and so on towards the front as far
/// as both go. For texts of one length, which is all that `is_near` asks
/// about, that is place by place.
pub open spec fn distance(a: Seq<char>, b: Seq<char>) -> nat
    decreases a.len(),
{
    if a.len() == 0 || b.len() == 0 {
        0
    } else {
        distance(a.drop_last(), b.drop_last()) + if a.last() != b.last() {
            1nat
        } else {
            0nat
        }
    }
}

/// Whether `word` is near `input`: another text of the same length that
/// differs from it in at most `tolerance` places.
pub open spec fn is_near(word: Seq<char>, input: Seq<char>, tolerance: nat) -> bool {
    word.len() == input.len() && word != input && distance(word, input) <= tolerance
}

/// The records of the word `input` among the first `upto` of `words`.
pub open spec fn exact_records(
    words: Seq<WordView>,
    auto_commit: bool,
    input: Seq<char>,
    upto: int,
) -> Seq<RecordView>
    decreases upto,
{
    if upto <= 0 {
        Seq::empty()
    } else {
        exact_records(words, auto_commit, input, upto - 1) + if words[upto - 1].0 == input {
            word_records(input, words[upto - 1].1, auto_commit)
        } else {
            Seq::empty()
        }
    }
}

/// The records of the words near `input` among the first `upto` of
/// `words`, in the order of the words.
pub open spec fn near_records(
    words: Seq<WordView>,
    auto_commit: bool,
    tolerance: nat,
    input: Seq<char>,
    upto: int,
) -> Seq<RecordView>
    decreases upto,
{
    if upto <= 0 {
        Seq::empty()
    } else {
        near_records(words, auto_commit, tolerance, input, upto - 1) + if is_near(
            words[upto - 1].0,
            input,
            tolerance,
        ) {
            word_records(words[upto - 1].0, words[upto - 1].1, auto_commit)
        } else {
            Seq::empty()
        }
    }
}

/// What the dictionary proposes for `input`: the records of the word
/// `input` itself and then, where a tolerance is set, those of the words
/// near it.
pub open spec fn dictionary_records(
    words: Seq<WordView>,
    auto_commit: bool,
    tolerance: Option<nat>,
    input: Seq<char>,
) -> Seq<RecordView> {
    exact_records(words, auto_commit, input, words.len() as int) + match tolerance {
        Some(t) => near_records(words, auto_commit, t, input, words.len() as int),
        None => Seq::empty(),
    }
}

/// One word of a dictionary.
pub struct Word {
    pub input: String,
    pub candidates: Vec<String>,
}

impl View for Word {
    type V = WordView;

    open spec fn view(&self) -> WordView {
        (self.input@, texts_of(self.candidates@))
    }
}

/// The mathematical values of `words`, in order.
pub open spec fn words_of(words: Seq<Word>) -> Seq<WordView> {
    Seq::new(words.len(), |i: int| words[i]@)
}

/// The words that a list of pairs of an input and its candidates stands
/// for.
pub open spec fn words_listed(data: Seq<(String, Vec<String>)>) -> Seq<WordView> {
    Seq::new(data.len(), |i: int| (data[i].0@, texts_of(data[i].1@)))
}

/// A copy of `texts`.
pub fn copy_texts(texts: &Vec<String>) -> (copy: Vec<String>)
    ensures
        texts_of(copy@) == texts_of(texts@),
{
    let mut copy: Vec<String> = Vec::new();
    let mut i: usize = 0;
    while i < texts.len()
        invariant
            i <= texts.len(),
            copy@.len() == i,
            forall|k: int| 0 <= k < i ==> copy@[k]@ == texts@[k]@,
        decreases texts.len() - i,
    {
        copy.push(texts[i].clone());
        i += 1;
    }
    copy
}

/// In how many places `a` and `b` differ, where they are as long as each
/// other.
fn count_differences(a: &Vec<char>, b: &Vec<char>) -> (count: usize)
    requires
        a@.len() == b@.len(),
    ensures
        count == distance(a@, b@),
{
    let mut count: usize = 0;
    let mut i: usize = 0;
    while i < a.len()
        invariant
            i <= a.len() == b.len(),
            count <= i,
            count == distance(a@.take(i as int), b@.take(i as int)),
        decreases a.len() - i,
    {
        let ghost next = i + 1;
        assert(a@.take(next as int).drop_last() =~= a@.take(i as int));
        assert(b@.take(next as int).drop_last() =~= b@.take(i as int));
        if a[i] != b[i] {
            count += 1;
        }
        i += 1;
    }
    assert(a@.take(a.len() as int) =~= a@);
    assert(b@.take(b.len() as int) =~= b@);
    count
}

/// Adds the records of one word to `out`.
fn push_word_records(out: &mut Vec<TranslationRecord>, word: &Word, auto_commit: bool)
    ensures
        records_of(final(out)@) == records_of(old(out)@) + word_records(
            word@.0,
            word@.1,
            auto_commit,
        ),
{
    let ghost start = records_of(out@);
    let ghost wanted = word_records(word@.0, word@.1, auto_commit);
    let mut i: usize = 0;
    while i < word.candidates.len()
        invariant
            i <= word.candidates.len(),
            wanted == word_records(word@.0, word@.1, auto_commit),
            records_of(out@) == start + wanted.take(i as int),
        decreases word.candidates.len() - i,
    {
        let mut candidates: Vec<String> = Vec::new();
        candidates.push(word.candidates[i].clone());
        let record = TranslationRecord {
            input: word.input.clone(),
            remainder: String::new(),
            candidates,
            auto_commit,
        };
        assert(record@.candidates =~= seq![word@.1[i as int]]);
        out.push(record);
        i += 1;
        assert(start + wanted.take(i as int) =~= (start + wanted.take(i - 1)).push(
            wanted[i - 1],
        ));
    }
}

/// A dictionary: words in the order in which they were given.
pub struct Dictionary {
    words: Vec<Word>,
}

impl View for Dictionary {
    type V = Seq<WordView>;

    closed spec fn view(&self) -> Seq<WordView> {
        words_of(self.words@)
    }
}

impl Dictionary {
    /// Builds the dictionary of `data`, a list of pairs of an input and its
    /// candidates. Fails with `InvalidDictionaryShape` where an input is
    /// listed twice.
    pub fn build(data: &Vec<(String, Vec<String>)>) -> (made: Result<Dictionary, Failure>)
        ensures
            match made {
                Ok(d) => is_dictionary(words_listed(data@)) && d@ == words_listed(data@),
                Err(e) => !is_dictionary(words_listed(data@)) && e@
                    == FailureView::InvalidDictionaryShape,
            },
    {
        let ghost wanted = words_listed(data@);
        let mut words: Vec<Word> = Vec::new();
        let mut i: usize = 0;
        while i < data.len()
            invariant
                i <= data.len(),
                wanted == words_listed(data@),
                words@.len() == i,
                words_of(words@) == wanted.take(i as int),
                is_dictionary(wanted.take(i as int)),
            decreases data.len() - i,
        {
            if Self::lists(&words, &data[i].0) {
                proof {
                    let j = choose|j: int|
                        0 <= j < words@.len() && (#[trigger] words@[j]).input@ == data@[i as int].0@;
                    assert(wanted.take(i as int)[j] == words_of(words@)[j]);
                    assert(wanted[j].0 == wanted[i as int].0);
                }
                return Err(Failure::InvalidDictionaryShape);
            }
            words.push(Word { input: data[i].0.clone(), candidates: copy_texts(&data[i].1) });
            i += 1;
        }
        assert(wanted.take(data.len() as int) =~= wanted);
        Ok(Dictionary { words })
    }

    /// Whether one of `words` is the word `input`.
    fn lists(words: &Vec<Word>, input: &String) -> (answer: bool)
        ensures
            answer == exists|j: int|
                0 <= j < words@.len() && (#[trigger] words@[j]).input@ == input@,
    {
        let mut j: usize = 0;
        while j < words.len()
            invariant
                j <= words.len(),
                forall|k: int| 0 <= k < j ==> (#[trigger] words@[k]).input@ != input@,
            decreases words.len() - j,
        {
            if words[j].input == *input {
                return true;
            }
            j += 1;
        }
        false
    }

    /// How many words the dictionary has.
    pub fn len(&self) -> (n: usize)
        ensures
            n == self@.len(),
    {
        self.words.len()
    }

    /// What the dictionary proposes for `input`, as `dictionary_records`
    /// says.
    pub fn lookup(&self, input: &str, auto_commit: bool, tolerance: Option<usize>) -> (found: Vec<
        TranslationRecord,
    >)
        ensures
            records_of(found@) == dictionary_records(
                self@,
                auto_commit,
                match tolerance {
                    Some(t) => Some(t as nat),
                    None => None,
                },
                input@,
            ),
    {
        let wanted = input.to_owned();
        let mut found: Vec<TranslationRecord> = Vec::new();
        let mut i: usize = 0;
        while i < self.words.len()
            invariant
                i <= self.words.len(),
                wanted@ == input@,
                records_of(found@) == exact_records(self@, auto_commit, input@, i as int),
            decreases self.words.len() - i,
        {
            if self.words[i].input == wanted {
                push_word_records(&mut found, &self.words[i], auto_commit);
            }
            i += 1;
        }
        let limit: usize = match tolerance {
            Some(limit) => limit,
            None => { return found; },
        };
        let symbols = chars_of(input);
        let ghost exact = records_of(found@);
        let mut i: usize = 0;
        while i < self.words.len()
            invariant
                i <= self.words.len(),
                wanted@ == input@,
                symbols@ == input@,
                records_of(found@) == exact + near_records(
                    self@,
                    auto_commit,
                    limit as nat,
                    input@,
                    i as int,
                ),
            decreases self.words.len() - i,
        {
            let word = &self.words[i];
            let spelled = chars_of(word.input.as_str());
            let near = spelled.len() == symbols.len() && word.input != wanted
                && count_differences(&spelled, &symbols) <= limit;
            if near {
                push_word_records(&mut found, word, auto_commit);
            }
            i += 1;
        }
        found
    }
}

} // verus!
