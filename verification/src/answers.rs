//! An entrant's answers: a mapping from (class name, question id) to yes or
//! no. A question without an entry is unanswered.

use vstd::prelude::*;
use crate::model::views;

verus! {

/// What an answer is filed under: the class name and the question id.
pub type AnswerKey = (Seq<char>, Seq<char>);

/// Answers as a mapping: a key without an entry is an unanswered question.
pub type AnswerMap = Map<AnswerKey, bool>;

/// One answer: `value` is `true` for "yes".
#[derive(Debug, PartialEq, Eq)]
pub struct Answer {
    pub class_name: String,
    pub question_id: String,
    pub value: bool,
}

/// An [`Answer`] as plain text.
pub struct AnswerView {
    pub class_name: Seq<char>,
    pub question_id: Seq<char>,
    pub value: bool,
}

impl AnswerView {
    /// What the answer is filed under.
    pub open spec fn key(self) -> AnswerKey {
        (self.class_name, self.question_id)
    }
}

impl View for Answer {
    type V = AnswerView;

    open spec fn view(&self) -> AnswerView {
        AnswerView {
            class_name: self.class_name@,
            question_id: self.question_id@,
            value: self.value,
        }
    }
}

/// The keys of a list of answers, in the same order.
pub open spec fn keys(entries: Seq<AnswerView>) -> Seq<AnswerKey> {
    entries.map_values(|a: AnswerView| a.key())
}

/// The mapping that a list of answers stands for. Meant for lists in which
/// no key occurs twice.
pub open spec fn mapping(entries: Seq<AnswerView>) -> AnswerMap {
    Map::new(
        |k: AnswerKey| keys(entries).contains(k),
        |k: AnswerKey| entries[keys(entries).index_of(k)].value,
    )
}

/// The list after `answer` is recorded: it takes the place of the entry
/// with its key, or goes to the end if there is none.
pub open spec fn recorded(entries: Seq<AnswerView>, answer: AnswerView) -> Seq<AnswerView> {
    if keys(entries).contains(answer.key()) {
        entries.update(keys(entries).index_of(answer.key()), answer)
    } else {
        entries.push(answer)
    }
}

/// The answer to one question of one class, if there is one.
pub open spec fn answer_of(
    answers: AnswerMap,
    class_name: Seq<char>,
    question_id: Seq<char>,
) -> Option<bool> {
    if answers.contains_key((class_name, question_id)) {
        Some(answers[(class_name, question_id)])
    } else {
        None
    }
}

/// In a list without repeated keys, each entry is what the mapping holds
/// under its key.
pub proof fn lemma_mapping_at(entries: Seq<AnswerView>, i: int)
    requires
        keys(entries).no_duplicates(),
        0 <= i < entries.len(),
    ensures
        mapping(entries).contains_key(entries[i].key()),
        mapping(entries)[entries[i].key()] == entries[i].value,
        keys(entries).index_of(entries[i].key()) == i,
{
    let k = entries[i].key();
    assert(keys(entries)[i] == k);
    let j = keys(entries).index_of(k);
    assert(0 <= j < entries.len() && keys(entries)[j] == k);
}

/// Recording an answer keeps the keys distinct and is `insert` on the
/// mapping.
pub proof fn lemma_recorded(entries: Seq<AnswerView>, answer: AnswerView)
    requires
        keys(entries).no_duplicates(),
    ensures
        keys(recorded(entries, answer)).no_duplicates(),
        mapping(recorded(entries, answer)) == mapping(entries).insert(answer.key(), answer.value),
{
    let after = recorded(entries, answer);
    let k = answer.key();
    let grown = mapping(entries).insert(k, answer.value);
    let n = entries.len() as int;
    if keys(entries).contains(k) {
        let i = keys(entries).index_of(k);
        assert(keys(after) =~= keys(entries));
        lemma_mapping_at(after, i);
    } else {
        assert(keys(after) =~= keys(entries).push(k));
        assert forall|a: int, b: int|
            0 <= a < n + 1 && 0 <= b < n + 1 && a != b implies keys(after)[a] != keys(after)[b] by {
            if a < n {
                assert(keys(entries)[a] == keys(after)[a]);
            }
            if b < n {
                assert(keys(entries)[b] == keys(after)[b]);
            }
        }
        lemma_mapping_at(after, n);
        assert forall|q: AnswerKey| #[trigger]
            grown.contains_key(q) implies keys(after).contains(q) by {
            if q != k {
                let j = keys(entries).index_of(q);
                assert(keys(after)[j] == q);
            }
        }
        assert forall|q: AnswerKey|
            keys(after).contains(q) implies #[trigger] grown.contains_key(q) by {
            let j = keys(after).index_of(q);
            if j < n {
                assert(keys(entries)[j] == q);
            }
        }
    }
    assert forall|q: AnswerKey| #[trigger]
        grown.contains_key(q) && q != k implies mapping(after)[q] == grown[q] by {
        let j = keys(entries).index_of(q);
        assert(keys(entries)[j] == q);
        lemma_mapping_at(entries, j);
        lemma_mapping_at(after, j);
    }
    assert(mapping(after) =~= grown);
}

/// The answers of one entrant. No key is held twice; the entries keep the
/// order in which their keys were first recorded.
#[derive(Debug)]
pub struct AnswerSet {
    entries: Vec<Answer>,
}

impl View for AnswerSet {
    type V = AnswerMap;

    open spec fn view(&self) -> AnswerMap {
        mapping(self.entries())
    }
}

impl AnswerSet {
    /// The answers held, oldest key first.
    pub closed spec fn entries(&self) -> Seq<AnswerView> {
        views(self.entries@)
    }

    #[verifier::type_invariant]
    spec fn well_formed(self) -> bool {
        keys(self.entries()).no_duplicates()
    }

    /// No answers: every question is unanswered.
    pub fn new() -> (answers: AnswerSet)
        ensures
            answers.entries() == Seq::<AnswerView>::empty(),
            answers@ == AnswerMap::empty(),
    {
        let answers = AnswerSet { entries: Vec::new() };
        assert(answers.entries() =~= Seq::<AnswerView>::empty());
        assert(answers@ =~= AnswerMap::empty());
        answers
    }

    /// Records the answer to one question of one class and returns the
    /// answer that it replaces, if any.
    pub fn insert(&mut self, class_name: &str, question_id: &str, value: bool) -> (previous: Option<
        bool,
    >)
        ensures
            previous == answer_of(old(self)@, class_name@, question_id@),
            final(self)@ == old(self)@.insert((class_name@, question_id@), value),
            final(self).entries() == recorded(
                old(self).entries(),
                AnswerView { class_name: class_name@, question_id: question_id@, value },
            ),
    {
        proof {
            use_type_invariant(&*self);
        }
        let answer = Answer {
            class_name: class_name.to_owned(),
            question_id: question_id.to_owned(),
            value,
        };
        let ghost before = self.entries();
        proof {
            lemma_recorded(before, answer@);
        }
        let mut entries: Vec<Answer> = Vec::new();
        std::mem::swap(&mut entries, &mut self.entries);
        assert(views(entries@) == before);
        let previous = match position(&entries, &answer.class_name, &answer.question_id) {
            Some(i) => {
                proof {
                    lemma_mapping_at(before, i as int);
                }
                let previous = entries[i].value;
                entries.set(i, answer);
                assert(views(entries@) =~= recorded(before, answer@));
                Some(previous)
            },
            None => {
                entries.push(answer);
                assert(views(entries@) =~= recorded(before, answer@));
                None
            },
        };
        self.entries = entries;
        previous
    }

    /// The answer to one question of one class, if there is one.
    pub fn get(&self, class_name: &str, question_id: &str) -> (answer: Option<bool>)
        ensures
            answer == answer_of(self@, class_name@, question_id@),
    {
        let class_name = class_name.to_owned();
        let question_id = question_id.to_owned();
        self.lookup(&class_name, &question_id)
    }

    /// The answer to one question of one class, if there is one.
    pub(crate) fn lookup(&self, class_name: &String, question_id: &String) -> (answer: Option<bool>)
        ensures
            answer == answer_of(self@, class_name@, question_id@),
    {
        proof {
            use_type_invariant(self);
        }
        match position(&self.entries, class_name, question_id) {
            Some(i) => {
                proof {
                    lemma_mapping_at(self.entries(), i as int);
                }
                Some(self.entries[i].value)
            },
            None => None,
        }
    }

    /// The answers held, oldest key first.
    pub fn as_slice(&self) -> (entries: &[Answer])
        ensures
            views(entries@) == self.entries(),
            keys(self.entries()).no_duplicates(),
    {
        proof {
            use_type_invariant(self);
        }
        self.entries.as_slice()
    }
}

/// Where the entry with the given key stands.
fn position(entries: &Vec<Answer>, class_name: &String, question_id: &String) -> (found: Option<
    usize,
>)
    ensures
        match found {
            Some(i) => i < entries.len() && keys(views(entries@))[i as int] == (
                class_name@,
                question_id@,
            ),
            None => !keys(views(entries@)).contains((class_name@, question_id@)),
        },
{
    let mut i: usize = 0;
    while i < entries.len()
        invariant
            i <= entries.len(),
            forall|k: int| 0 <= k < i ==> keys(views(entries@))[k] != (class_name@, question_id@),
        decreases entries.len() - i,
    {
        if entries[i].class_name == *class_name && entries[i].question_id == *question_id {
            return Some(i);
        }
        i += 1;
    }
    None
}

} // verus!
