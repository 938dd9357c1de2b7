//! The classifier: for each class of a rulebook, whether the entrant is
//! eligible, bumped, or not yet decided.

use vstd::prelude::*;
use crate::answers::{answer_of, Answer, AnswerMap, AnswerSet, AnswerView};
use crate::error::ValidationError;
use crate::model::{views, Class, ClassView, Rulebook, RulebookView, Subclass};
use crate::report::{EligibilityReport, ReportView, Verdict, VerdictView, Warning, WarningView};

verus! {

/// Holds of the ids of the questions of class `class_name` that were
/// answered "no".
pub open spec fn answered_no(class_name: Seq<char>, answers: AnswerMap) -> spec_fn(Seq<char>) -> bool {
    |id: Seq<char>| answer_of(answers, class_name, id) == Some(false)
}

/// Holds of the ids of the questions of class `class_name` that have no
/// answer.
pub open spec fn not_answered(class_name: Seq<char>, answers: AnswerMap) -> spec_fn(Seq<char>) -> bool {
    |id: Seq<char>| answer_of(answers, class_name, id) is None
}

/// The ids of the class's questions that were answered "no", in question
/// order.
pub open spec fn bumped_ids(class: ClassView, answers: AnswerMap) -> Seq<Seq<char>> {
    class.question_ids().filter(answered_no(class.name, answers))
}

/// The ids of the class's questions that have no answer, in question order.
pub open spec fn unanswered_ids(class: ClassView, answers: AnswerMap) -> Seq<Seq<char>> {
    class.question_ids().filter(not_answered(class.name, answers))
}

/// The verdict for one class: bumped if any question was answered "no";
/// else incomplete if any question has no answer; else eligible for all
/// subclasses.
pub open spec fn class_verdict(class: ClassView, answers: AnswerMap) -> VerdictView {
    if bumped_ids(class, answers).len() > 0 {
        VerdictView::Bumped { class_name: class.name, reasons: bumped_ids(class, answers) }
    } else if unanswered_ids(class, answers).len() > 0 {
        VerdictView::Incomplete {
            class_name: class.name,
            unanswered: unanswered_ids(class, answers),
        }
    } else {
        VerdictView::Eligible { class_name: class.name, subclasses: class.subclasses }
    }
}

/// The verdicts for all classes, in rulebook order.
pub open spec fn verdicts(rulebook: RulebookView, answers: AnswerMap) -> Seq<VerdictView> {
    rulebook.classes.map_values(|class: ClassView| class_verdict(class, answers))
}

/// The warning that one answer calls for, if any: its class is unknown,
/// or its class is known and has no question of that id.
pub open spec fn warning_for(rulebook: RulebookView, answer: AnswerView) -> Option<WarningView> {
    if !rulebook.has_class(answer.class_name) {
        Some(
            WarningView {
                kind: ValidationError::UnknownClass,
                class_name: answer.class_name,
                question_id: answer.question_id,
            },
        )
    } else if !rulebook.has_question(answer.class_name, answer.question_id) {
        Some(
            WarningView {
                kind: ValidationError::UnknownQuestion,
                class_name: answer.class_name,
                question_id: answer.question_id,
            },
        )
    } else {
        None
    }
}

/// The warnings for a list of answers, in the order of the answers.
pub open spec fn warnings(rulebook: RulebookView, entries: Seq<AnswerView>) -> Seq<WarningView> {
    entries.filter_map(|answer: AnswerView| warning_for(rulebook, answer))
}

/// The report for a rulebook and the answers of one entrant, which are
/// `entries` as a list and `answers` as a mapping.
pub open spec fn report(
    rulebook: RulebookView,
    answers: AnswerMap,
    entries: Seq<AnswerView>,
) -> ReportView {
    ReportView { verdicts: verdicts(rulebook, answers), warnings: warnings(rulebook, entries) }
}

/// A copy of the subclasses, in the same order.
fn copy_subclasses(subclasses: &[Subclass]) -> (copy: Vec<Subclass>)
    ensures
        views(copy@) == views(subclasses@),
{
    let mut copy: Vec<Subclass> = Vec::new();
    let mut i: usize = 0;
    while i < subclasses.len()
        invariant
            i <= subclasses.len(),
            views(copy@) == views(subclasses@).take(i as int),
        decreases subclasses.len() - i,
    {
        copy.push(subclasses[i].clone());
        assert(views(copy@) =~= views(subclasses@).take(i as int).push(subclasses@[i as int]@));
        i += 1;
    }
    assert(views(subclasses@).take(i as int) =~= views(subclasses@));
    copy
}

/// Decides one class.
pub fn classify_class(class: &Class, answers: &AnswerSet) -> (verdict: Verdict)
    ensures
        verdict@ == class_verdict(class@, answers@),
{
    let class_name = class.name().to_owned();
    let questions = class.bump_questions();
    let ghost ids = class@.question_ids();
    let ghost is_no = answered_no(class@.name, answers@);
    let ghost is_open = not_answered(class@.name, answers@);
    let mut reasons: Vec<String> = Vec::new();
    let mut unanswered: Vec<String> = Vec::new();
    let mut i: usize = 0;
    proof {
        reveal(Seq::filter);
        assert(ids.take(0).filter(is_no) =~= Seq::<Seq<char>>::empty());
        assert(ids.take(0).filter(is_open) =~= Seq::<Seq<char>>::empty());
    }
    while i < questions.len()
        invariant
            i <= questions.len(),
            class_name@ == class@.name,
            views(questions@) == class@.bump_questions,
            ids == class@.question_ids(),
            is_no == answered_no(class@.name, answers@),
            is_open == not_answered(class@.name, answers@),
            views(reasons@) == ids.take(i as int).filter(is_no),
            views(unanswered@) == ids.take(i as int).filter(is_open),
        decreases questions.len() - i,
    {
        let question = &questions[i];
        proof {
            assert(views(questions@)[i as int] == question@);
            assert(ids[i as int] == question@.id);
            assert(ids.take(i + 1) =~= ids.take(i as int).push(question@.id));
            ids.take(i as int).lemma_filter_push(question@.id, is_no);
            ids.take(i as int).lemma_filter_push(question@.id, is_open);
        }
        match answers.lookup(&class_name, &question.id) {
            Some(true) => {},
            Some(false) => {
                reasons.push(question.id.clone());
                assert(views(reasons@) =~= ids.take(i as int).filter(is_no).push(question@.id));
            },
            None => {
                unanswered.push(question.id.clone());
                assert(views(unanswered@) =~= ids.take(i as int).filter(is_open).push(
                    question@.id,
                ));
            },
        }
        i += 1;
    }
    proof {
        assert(ids.take(i as int) =~= ids);
    }
    if reasons.len() > 0 {
        Verdict::Bumped { class_name, reasons }
    } else if unanswered.len() > 0 {
        Verdict::Incomplete { class_name, unanswered }
    } else {
        Verdict::Eligible { class_name, subclasses: copy_subclasses(class.subclasses()) }
    }
}

/// Whether the class has a question of the given id.
fn has_question(class: &Class, question_id: &String) -> (found: bool)
    ensures
        found == class@.question_ids().contains(question_id@),
{
    let questions = class.bump_questions();
    let mut i: usize = 0;
    while i < questions.len()
        invariant
            i <= questions.len(),
            views(questions@) == class@.bump_questions,
            forall|k: int| 0 <= k < i ==> class@.question_ids()[k] != question_id@,
        decreases questions.len() - i,
    {
        assert(views(questions@)[i as int] == questions@[i as int]@);
        if questions[i].id == *question_id {
            assert(class@.question_ids()[i as int] == question_id@);
            return true;
        }
        i += 1;
    }
    false
}

/// The warning that one answer calls for, if any.
pub fn audit_answer(rulebook: &Rulebook, answer: &Answer) -> (warning: Option<Warning>)
    ensures
        match warning {
            Some(w) => warning_for(rulebook@, answer@) == Some(w@),
            None => warning_for(rulebook@, answer@) is None,
        },
{
    let kind = match rulebook.position(&answer.class_name) {
        None => Some(ValidationError::UnknownClass),
        Some(i) => {
            let classes = rulebook.classes();
            assert(views(classes@)[i as int] == classes@[i as int]@);
            assert(rulebook@.class_names()[i as int] == answer@.class_name);
            if has_question(&classes[i], &answer.question_id) {
                assert(rulebook@.has_question(answer@.class_name, answer@.question_id));
                None
            } else {
                proof {
                    let book = rulebook@;
                    let names = book.class_names();
                    let id = answer@.question_id;
                    assert forall|j: int|
                        0 <= j < book.classes.len() && (#[trigger] book.classes[j]).name
                            == answer@.class_name implies !book.classes[j].question_ids().contains(id) by {
                        assert(names[j] == names[i as int]);
                    }
                }
                Some(ValidationError::UnknownQuestion)
            }
        },
    };
    match kind {
        Some(kind) => Some(
            Warning {
                kind,
                class_name: answer.class_name.clone(),
                question_id: answer.question_id.clone(),
            },
        ),
        None => None,
    }
}

/// The warnings for all answers held, in their order.
pub fn audit_answers(rulebook: &Rulebook, answers: &AnswerSet) -> (found: Vec<Warning>)
    ensures
        views(found@) == warnings(rulebook@, answers.entries()),
{
    let entries = answers.as_slice();
    let ghost all = answers.entries();
    let ghost f = |answer: AnswerView| warning_for(rulebook@, answer);
    let mut found: Vec<Warning> = Vec::new();
    let mut i: usize = 0;
    while i < entries.len()
        invariant
            i <= entries.len(),
            views(entries@) == all,
            f == (|answer: AnswerView| warning_for(rulebook@, answer)),
            views(found@) == all.take(i as int).filter_map(f),
        decreases entries.len() - i,
    {
        proof {
            assert(all[i as int] == entries@[i as int]@);
            all.lemma_filter_map_take_succ(f, i as int);
        }
        match audit_answer(rulebook, &entries[i]) {
            Some(warning) => {
                found.push(warning);
                assert(views(found@) =~= all.take(i as int).filter_map(f) + seq![warning@]);
            },
            None => {},
        }
        i += 1;
    }
    proof {
        assert(all.take(i as int) =~= all);
    }
    found
}

/// Classifies an entrant: one verdict for each class, in rulebook order,
/// and one warning for each answer that names no question of the rulebook.
/// Such answers change no verdict.
pub fn classify(rulebook: &Rulebook, answers: &AnswerSet) -> (outcome: EligibilityReport)
    ensures
        outcome@ == report(rulebook@, answers@, answers.entries()),
        outcome@.verdicts.len() == rulebook@.classes.len(),
        forall|i: int|
            0 <= i < rulebook@.classes.len() ==> (#[trigger] outcome@.verdicts[i]).class_name()
                == rulebook@.classes[i].name,
{
    let classes = rulebook.classes();
    let ghost expected = verdicts(rulebook@, answers@);
    let mut decided: Vec<Verdict> = Vec::new();
    let mut i: usize = 0;
    while i < classes.len()
        invariant
            i <= classes.len(),
            views(classes@) == rulebook@.classes,
            expected == verdicts(rulebook@, answers@),
            views(decided@) == expected.take(i as int),
        decreases classes.len() - i,
    {
        assert(views(classes@)[i as int] == classes@[i as int]@);
        let verdict = classify_class(&classes[i], answers);
        decided.push(verdict);
        assert(views(decided@) =~= expected.take(i as int).push(verdict@));
        i += 1;
    }
    assert(expected.take(i as int) =~= expected);
    let warnings = audit_answers(rulebook, answers);
    EligibilityReport { verdicts: decided, warnings }
}

} // verus!
