use rulebook::{
    classify, scca_rules, AnswerSet, BumpQuestion, EligibilityReport, Subclass, ValidationError,
    Verdict, Warning,
};

fn texts(items: &[&str]) -> Vec<String> {
    items.iter().map(|s| s.to_string()).collect()
}

fn only_verdict(report: EligibilityReport) -> Verdict {
    assert_eq!(report.verdicts.len(), 1);
    report.verdicts.into_iter().next().unwrap()
}

#[test]
fn all_yes_is_eligible_for_every_subclass() {
    let mut answers = AnswerSet::new();
    answers.insert("Street", "fenders", true);
    answers.insert("Street", "tires", true);
    let report = classify(&scca_rules(), &answers);
    assert_eq!(
        report,
        EligibilityReport {
            verdicts: vec![Verdict::Eligible {
                class_name: "Street".to_string(),
                subclasses: vec![Subclass::new("AS", "A Street"), Subclass::new("BS", "B Street")],
            }],
            warnings: vec![],
        }
    );
}

#[test]
fn one_no_bumps_with_that_reason() {
    let mut answers = AnswerSet::new();
    answers.insert("Street", "fenders", false);
    answers.insert("Street", "tires", true);
    let report = classify(&scca_rules(), &answers);
    assert!(report.warnings.is_empty());
    assert_eq!(
        only_verdict(report),
        Verdict::Bumped { class_name: "Street".to_string(), reasons: texts(&["fenders"]) }
    );
}

#[test]
fn two_noes_are_both_reasons() {
    let mut answers = AnswerSet::new();
    answers.insert("Street", "fenders", false);
    answers.insert("Street", "tires", false);
    let report = classify(&scca_rules(), &answers);
    assert!(report.warnings.is_empty());
    assert_eq!(
        only_verdict(report),
        Verdict::Bumped { class_name: "Street".to_string(), reasons: texts(&["fenders", "tires"]) }
    );
}

#[test]
fn reasons_follow_the_order_of_the_questions() {
    let mut answers = AnswerSet::new();
    answers.insert("Street", "tires", false);
    answers.insert("Street", "fenders", false);
    assert_eq!(
        only_verdict(classify(&scca_rules(), &answers)),
        Verdict::Bumped { class_name: "Street".to_string(), reasons: texts(&["fenders", "tires"]) }
    );
}

#[test]
fn missing_answer_is_incomplete() {
    let mut answers = AnswerSet::new();
    answers.insert("Street", "fenders", true);
    let report = classify(&scca_rules(), &answers);
    assert!(report.warnings.is_empty());
    assert_eq!(
        only_verdict(report),
        Verdict::Incomplete { class_name: "Street".to_string(), unanswered: texts(&["tires"]) }
    );
}

#[test]
fn no_answers_leave_every_question_open() {
    let report = classify(&scca_rules(), &AnswerSet::new());
    assert!(report.warnings.is_empty());
    assert_eq!(
        only_verdict(report),
        Verdict::Incomplete {
            class_name: "Street".to_string(),
            unanswered: texts(&["fenders", "tires"]),
        }
    );
}

#[test]
fn unknown_question_is_ignored_with_a_warning() {
    let mut answers = AnswerSet::new();
    answers.insert("Street", "fenders", false);
    answers.insert("Street", "helmet", true);
    let report = classify(&scca_rules(), &answers);
    assert_eq!(
        report.warnings,
        vec![Warning {
            kind: ValidationError::UnknownQuestion,
            class_name: "Street".to_string(),
            question_id: "helmet".to_string(),
        }]
    );
    assert_eq!(
        only_verdict(report),
        Verdict::Bumped { class_name: "Street".to_string(), reasons: texts(&["fenders"]) }
    );
}

#[test]
fn a_no_on_the_last_question_alone_bumps() {
    let mut answers = AnswerSet::new();
    answers.insert("Street", "fenders", true);
    answers.insert("Street", "tires", false);
    assert_eq!(
        only_verdict(classify(&scca_rules(), &answers)),
        Verdict::Bumped { class_name: "Street".to_string(), reasons: texts(&["tires"]) }
    );
}

#[test]
fn sample_rulebook_is_scca_street() {
    let rulebook = scca_rules();
    assert_eq!(rulebook.organization(), "SCCA");
    assert_eq!(rulebook.classes().len(), 1);
    let street = rulebook.class_by_name("Street").unwrap();
    assert_eq!(street.name(), "Street");
    assert_eq!(
        street.subclasses(),
        &[Subclass::new("AS", "A Street"), Subclass::new("BS", "B Street")]
    );
    assert_eq!(
        street.bump_questions(),
        &[
            BumpQuestion::new("fenders", "Are your fenders unmodified?", ""),
            BumpQuestion::new("tires", "Are your tires 200 treadwear and DOT legal?", ""),
        ]
    );
}
