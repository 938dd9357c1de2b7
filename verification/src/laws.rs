//! What holds of every classification, proved from the definitions in
//! [`crate::classify`].

use vstd::prelude::*;
use crate::answers::{answer_of, AnswerKey, AnswerMap, AnswerView};
use crate::classify::{
    answered_no, bumped_ids, class_verdict, not_answered, report, unanswered_ids, verdicts,
    warning_for,
};
use crate::model::{ClassView, RulebookView};
use crate::report::{ReportView, VerdictView};

verus! {

/// Two tests that agree on every item of a sequence keep the same items.
proof fn lemma_filter_agree<A>(items: Seq<A>, p: spec_fn(A) -> bool, q: spec_fn(A) -> bool)
    requires
        forall|i: int| 0 <= i < items.len() ==> p(#[trigger] items[i]) == q(items[i]),
    ensures
        items.filter(p) == items.filter(q),
    decreases items.len(),
{
    reveal(Seq::filter);
    if items.len() > 0 {
        let rest = items.drop_last();
        assert forall|i: int| 0 <= i < rest.len() implies p(#[trigger] rest[i]) == q(rest[i]) by {
            assert(rest[i] == items[i]);
        }
        lemma_filter_agree(rest, p, q);
        assert(p(items[items.len() - 1]) == q(items[items.len() - 1]));
    }
}

/// What is kept of a sequence without repeats has no repeats.
proof fn lemma_filter_distinct<A>(items: Seq<A>, p: spec_fn(A) -> bool)
    requires
        items.no_duplicates(),
    ensures
        items.filter(p).no_duplicates(),
    decreases items.len(),
{
    reveal(Seq::filter);
    if items.len() > 0 {
        let rest = items.drop_last();
        let last = items.last();
        lemma_filter_distinct(rest, p);
        if rest.filter(p).contains(last) {
            rest.lemma_filter_contains_rev(p, last);
            let j = choose|j: int| 0 <= j < rest.len() && rest[j] == last;
            assert(items[j] == items[items.len() - 1]);
        }
    }
}

/// The answer to the class's question at `i`, if there is one.
pub open spec fn answer_at(class: ClassView, answers: AnswerMap, i: int) -> Option<bool> {
    answer_of(answers, class.name, class.bump_questions[i].id)
}

/// A question of the class that was answered "no" is among the reasons;
/// one without an answer is among the unanswered.
proof fn lemma_kept(class: ClassView, answers: AnswerMap, i: int)
    requires
        0 <= i < class.bump_questions.len(),
    ensures
        answer_at(class, answers, i) == Some(false) ==> bumped_ids(class, answers).contains(
            class.bump_questions[i].id,
        ),
        answer_at(class, answers, i) is None ==> unanswered_ids(class, answers).contains(
            class.bump_questions[i].id,
        ),
{
    let ids = class.question_ids();
    assert(ids[i] == class.bump_questions[i].id);
    if answer_at(class, answers, i) == Some(false) {
        ids.lemma_filter_contains(answered_no(class.name, answers), i);
    }
    if answer_at(class, answers, i) is None {
        ids.lemma_filter_contains(not_answered(class.name, answers), i);
    }
}

/// No id is kept by a test that holds of no question of the class.
proof fn lemma_none_kept(class: ClassView, test: spec_fn(Seq<char>) -> bool)
    requires
        forall|i: int|
            0 <= i < class.bump_questions.len() ==> !test((#[trigger] class.bump_questions[i]).id),
    ensures
        class.question_ids().filter(test).len() == 0,
{
    let ids = class.question_ids();
    let kept = ids.filter(test);
    if kept.len() > 0 {
        ids.lemma_filter_pred(test, 0);
        assert(kept.contains(kept[0]));
        ids.lemma_filter_contains_rev(test, kept[0]);
        let i = choose|i: int| 0 <= i < ids.len() && ids[i] == kept[0];
        assert(!test(class.bump_questions[i].id));
    }
}

/// Totality: whatever the rulebook and the answers, there is exactly one
/// verdict for each class, in rulebook order, and it is that class's own.
pub proof fn law_one_verdict_per_class(rulebook: RulebookView, answers: AnswerMap)
    ensures
        verdicts(rulebook, answers).len() == rulebook.classes.len(),
        forall|i: int|
            0 <= i < rulebook.classes.len() ==> {
                &&& (#[trigger] verdicts(rulebook, answers)[i]) == class_verdict(
                    rulebook.classes[i],
                    answers,
                )
                &&& verdicts(rulebook, answers)[i].class_name() == rulebook.classes[i].name
            },
{
}

/// Determinism: two reports that both are what the classifier returns for
/// one rulebook and one answer set are the same report.
pub proof fn law_same_inputs_same_report(
    rulebook: RulebookView,
    answers: AnswerMap,
    entries: Seq<AnswerView>,
    first: ReportView,
    second: ReportView,
)
    requires
        first == report(rulebook, answers, entries),
        second == report(rulebook, answers, entries),
    ensures
        first == second,
{
}

/// Bump priority: if any question of the class was answered "no", the
/// verdict is `Bumped`, whatever is unanswered.
pub proof fn law_bump_priority(class: ClassView, answers: AnswerMap)
    requires
        exists|i: int|
            0 <= i < class.bump_questions.len() && answer_at(class, answers, i) == Some(false),
    ensures
        class_verdict(class, answers) is Bumped,
{
    let i = choose|i: int|
        0 <= i < class.bump_questions.len() && answer_at(class, answers, i) == Some(false);
    lemma_kept(class, answers, i);
}

/// If no question of the class was answered "no" and at least one has no
/// answer, the verdict is `Incomplete`.
pub proof fn law_incomplete_without_a_no(class: ClassView, answers: AnswerMap)
    requires
        forall|i: int|
            0 <= i < class.bump_questions.len() ==> answer_at(class, answers, i) != Some(false),
        exists|i: int| 0 <= i < class.bump_questions.len() && answer_at(class, answers, i) is None,
    ensures
        class_verdict(class, answers) is Incomplete,
{
    assert forall|i: int| 0 <= i < class.bump_questions.len() implies !answered_no(
        class.name,
        answers,
    )((#[trigger] class.bump_questions[i]).id) by {
        assert(answer_at(class, answers, i) != Some(false));
    }
    lemma_none_kept(class, answered_no(class.name, answers));
    let i = choose|i: int|
        0 <= i < class.bump_questions.len() && answer_at(class, answers, i) is None;
    lemma_kept(class, answers, i);
}

/// If every question of the class was answered "yes", the verdict is
/// `Eligible`, with all subclasses of the class.
pub proof fn law_eligible_when_all_yes(class: ClassView, answers: AnswerMap)
    requires
        forall|i: int|
            0 <= i < class.bump_questions.len() ==> answer_at(class, answers, i) == Some(true),
    ensures
        class_verdict(class, answers) == (VerdictView::Eligible {
            class_name: class.name,
            subclasses: class.subclasses,
        }),
{
    assert forall|i: int| 0 <= i < class.bump_questions.len() implies {
        &&& !answered_no(class.name, answers)((#[trigger] class.bump_questions[i]).id)
        &&& !not_answered(class.name, answers)(class.bump_questions[i].id)
    } by {
        assert(answer_at(class, answers, i) == Some(true));
    }
    lemma_none_kept(class, answered_no(class.name, answers));
    lemma_none_kept(class, not_answered(class.name, answers));
}

/// Completeness: a class without bump questions admits anyone, with all
/// its subclasses.
pub proof fn law_no_questions_eligible(class: ClassView, answers: AnswerMap)
    requires
        class.bump_questions.len() == 0,
    ensures
        class_verdict(class, answers) == (VerdictView::Eligible {
            class_name: class.name,
            subclasses: class.subclasses,
        }),
{
    law_eligible_when_all_yes(class, answers);
}

/// Reason soundness: every reason of a `Bumped` verdict is the id of a
/// question of the class that was answered "no", and every id of an
/// `Incomplete` verdict is that of a question of the class without an
/// answer.
pub proof fn law_reasons_sound(class: ClassView, answers: AnswerMap)
    ensures
        match class_verdict(class, answers) {
            VerdictView::Bumped { reasons, .. } => forall|k: int|
                0 <= k < reasons.len() ==> {
                    &&& class.question_ids().contains(#[trigger] reasons[k])
                    &&& answer_of(answers, class.name, reasons[k]) == Some(false)
                },
            VerdictView::Incomplete { unanswered, .. } => forall|k: int|
                0 <= k < unanswered.len() ==> {
                    &&& class.question_ids().contains(#[trigger] unanswered[k])
                    &&& !answers.contains_key((class.name, unanswered[k]))
                },
            VerdictView::Eligible { .. } => true,
        },
{
    let ids = class.question_ids();
    let is_no = answered_no(class.name, answers);
    let is_open = not_answered(class.name, answers);
    assert forall|k: int| 0 <= k < ids.filter(is_no).len() implies ids.contains(
        #[trigger] ids.filter(is_no)[k],
    ) && is_no(ids.filter(is_no)[k]) by {
        ids.lemma_filter_pred(is_no, k);
        assert(ids.filter(is_no).contains(ids.filter(is_no)[k]));
        ids.lemma_filter_contains_rev(is_no, ids.filter(is_no)[k]);
    }
    assert forall|k: int| 0 <= k < ids.filter(is_open).len() implies ids.contains(
        #[trigger] ids.filter(is_open)[k],
    ) && is_open(ids.filter(is_open)[k]) by {
        ids.lemma_filter_pred(is_open, k);
        assert(ids.filter(is_open).contains(ids.filter(is_open)[k]));
        ids.lemma_filter_contains_rev(is_open, ids.filter(is_open)[k]);
    }
}

/// All failures are reported, not only the first: under a `Bumped`
/// verdict every question answered "no" is among the reasons; under an
/// `Incomplete` one no question was answered "no" and every question
/// without an answer is listed; under an `Eligible` one every question was
/// answered "yes".
pub proof fn law_verdict_accounts_for_every_question(
    class: ClassView,
    answers: AnswerMap,
    i: int,
)
    requires
        0 <= i < class.bump_questions.len(),
    ensures
        match class_verdict(class, answers) {
            VerdictView::Bumped { reasons, .. } => answer_at(class, answers, i) == Some(false)
                ==> reasons.contains(class.bump_questions[i].id),
            VerdictView::Incomplete { unanswered, .. } => {
                &&& answer_at(class, answers, i) != Some(false)
                &&& answer_at(class, answers, i) is None ==> unanswered.contains(
                    class.bump_questions[i].id,
                )
            },
            VerdictView::Eligible { .. } => answer_at(class, answers, i) == Some(true),
        },
{
    lemma_kept(class, answers, i);
}

/// In a valid class no id is reported twice: the ids of a verdict stand
/// for a set.
pub proof fn law_no_id_reported_twice(class: ClassView, answers: AnswerMap)
    requires
        class.valid(),
    ensures
        match class_verdict(class, answers) {
            VerdictView::Bumped { reasons, .. } => reasons.no_duplicates(),
            VerdictView::Incomplete { unanswered, .. } => unanswered.no_duplicates(),
            VerdictView::Eligible { .. } => true,
        },
{
    lemma_filter_distinct(class.question_ids(), answered_no(class.name, answers));
    lemma_filter_distinct(class.question_ids(), not_answered(class.name, answers));
}

/// Irrelevance of extra answers: if `more` holds every answer of `answers`
/// and, beyond those, only answers that name no question of the class, the
/// class's verdict is the same under both.
pub proof fn law_extra_answers_irrelevant(class: ClassView, answers: AnswerMap, more: AnswerMap)
    requires
        forall|key: AnswerKey| #[trigger]
            answers.contains_key(key) ==> more.contains_key(key) && more[key] == answers[key],
        forall|key: AnswerKey|
            #[trigger] more.contains_key(key) && !answers.contains_key(key) ==> !(key.0
                == class.name && class.question_ids().contains(key.1)),
    ensures
        class_verdict(class, more) == class_verdict(class, answers),
{
    let ids = class.question_ids();
    assert forall|i: int| 0 <= i < ids.len() implies answer_of(more, class.name, #[trigger] ids[i])
        == answer_of(answers, class.name, ids[i]) by {
        let key = (class.name, ids[i]);
        assert(ids.contains(key.1));
        if answers.contains_key(key) {
            assert(more.contains_key(key) && more[key] == answers[key]);
        } else {
            assert(!more.contains_key(key));
        }
    }
    lemma_filter_agree(ids, answered_no(class.name, more), answered_no(class.name, answers));
    lemma_filter_agree(ids, not_answered(class.name, more), not_answered(class.name, answers));
}

/// An answer that calls for a warning is ignored: recording it, whatever
/// its value, changes no verdict.
pub proof fn law_warned_answer_is_ignored(
    rulebook: RulebookView,
    answers: AnswerMap,
    answer: AnswerView,
)
    requires
        warning_for(rulebook, answer) is Some,
    ensures
        verdicts(rulebook, answers.insert(answer.key(), answer.value)) == verdicts(
            rulebook,
            answers,
        ),
{
    let more = answers.insert(answer.key(), answer.value);
    assert forall|i: int| 0 <= i < rulebook.classes.len() implies class_verdict(
        rulebook.classes[i],
        more,
    ) == class_verdict(rulebook.classes[i], answers) by {
        let class = rulebook.classes[i];
        let ids = class.question_ids();
        assert forall|k: int| 0 <= k < ids.len() implies answer_of(
            more,
            class.name,
            #[trigger] ids[k],
        ) == answer_of(answers, class.name, ids[k]) by {
            if (class.name, ids[k]) == answer.key() {
                assert(rulebook.class_names()[i] == answer.class_name);
                assert(ids.contains(answer.question_id));
                assert(rulebook.has_question(answer.class_name, answer.question_id));
            }
        }
        lemma_filter_agree(ids, answered_no(class.name, more), answered_no(class.name, answers));
        lemma_filter_agree(ids, not_answered(class.name, more), not_answered(class.name, answers));
    }
    assert(verdicts(rulebook, more) =~= verdicts(rulebook, answers));
}

} // verus!
