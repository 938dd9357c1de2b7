use rulebook::{BumpQuestion, Rulebook, RulebookBuilder, Subclass, ValidationError};

fn street_subclasses() -> Vec<Subclass> {
    vec![Subclass::new("AS", "A Street"), Subclass::new("BS", "B Street")]
}

fn street_questions() -> Vec<BumpQuestion> {
    vec![
        BumpQuestion::new("fenders", "Are your fenders unmodified?", ""),
        BumpQuestion::new("tires", "Are your tires 200 treadwear and DOT legal?", ""),
    ]
}

fn error_of(result: Result<Rulebook, ValidationError>) -> ValidationError {
    match result {
        Ok(rulebook) => panic!("built {:?}", rulebook),
        Err(error) => error,
    }
}

#[test]
fn built_rulebook_holds_what_was_given() {
    let rulebook = RulebookBuilder::new("SCCA")
        .class("Street", street_subclasses(), street_questions())
        .class("Street Touring", vec![Subclass::new("STS", "Street Touring Sport")], vec![])
        .build()
        .unwrap();
    assert_eq!(rulebook.organization(), "SCCA");
    let classes = rulebook.classes();
    assert_eq!(classes.len(), 2);
    assert_eq!(classes[0].name(), "Street");
    assert_eq!(classes[0].subclasses(), street_subclasses().as_slice());
    assert_eq!(classes[0].bump_questions(), street_questions().as_slice());
    assert_eq!(classes[1].name(), "Street Touring");
    assert_eq!(classes[1].subclasses(), &[Subclass::new("STS", "Street Touring Sport")]);
    assert!(classes[1].bump_questions().is_empty());
}

#[test]
fn empty_body_is_kept_empty() {
    let rulebook =
        RulebookBuilder::new("SCCA").class("Street", street_subclasses(), street_questions()).build().unwrap();
    let question = &rulebook.classes()[0].bump_questions()[0];
    assert_eq!(question.id, "fenders");
    assert_eq!(question.prompt, "Are your fenders unmodified?");
    assert_eq!(question.body, "");
}

#[test]
fn rulebook_without_classes_is_built() {
    let rulebook = RulebookBuilder::new("NASA").build().unwrap();
    assert_eq!(rulebook.organization(), "NASA");
    assert!(rulebook.classes().is_empty());
    assert!(rulebook.class_by_name("Street").is_none());
}

#[test]
fn repeated_class_name_is_refused() {
    let result = RulebookBuilder::new("SCCA")
        .class("Street", street_subclasses(), street_questions())
        .class("Street", vec![Subclass::new("CS", "C Street")], vec![])
        .build();
    assert_eq!(error_of(result), ValidationError::DuplicateName);
}

#[test]
fn repeated_subclass_code_is_refused() {
    let result = RulebookBuilder::new("SCCA")
        .class(
            "Street",
            vec![Subclass::new("AS", "A Street"), Subclass::new("AS", "Another Street")],
            street_questions(),
        )
        .build();
    assert_eq!(error_of(result), ValidationError::DuplicateName);
}

#[test]
fn repeated_question_id_is_refused() {
    let result = RulebookBuilder::new("SCCA")
        .class(
            "Street",
            street_subclasses(),
            vec![
                BumpQuestion::new("fenders", "Are your fenders unmodified?", ""),
                BumpQuestion::new("tires", "Are your tires DOT legal?", ""),
                BumpQuestion::new("fenders", "Are your fenders stock?", "Rolled lips count."),
            ],
        )
        .build();
    assert_eq!(error_of(result), ValidationError::DuplicateName);
}

#[test]
fn class_without_subclasses_is_refused() {
    let result = RulebookBuilder::new("SCCA").class("Street", vec![], street_questions()).build();
    assert_eq!(error_of(result), ValidationError::EmptyClass);
}

#[test]
fn same_display_name_under_two_codes_is_accepted() {
    let result = RulebookBuilder::new("SCCA")
        .class(
            "Street",
            vec![Subclass::new("AS", "Street"), Subclass::new("BS", "Street")],
            vec![
                BumpQuestion::new("a", "Same prompt?", "same body"),
                BumpQuestion::new("b", "Same prompt?", "same body"),
            ],
        )
        .build();
    assert!(result.is_ok());
}

#[test]
fn names_are_scoped_to_their_class() {
    let result = RulebookBuilder::new("SCCA")
        .class("Street", street_subclasses(), street_questions())
        .class("Street Touring", street_subclasses(), street_questions())
        .build();
    assert!(result.is_ok());
}

#[test]
fn a_code_may_equal_a_question_id_or_a_class_name() {
    let result = RulebookBuilder::new("SCCA")
        .class(
            "Street",
            vec![Subclass::new("Street", "Street")],
            vec![BumpQuestion::new("Street", "Street?", "")],
        )
        .build();
    assert!(result.is_ok());
}

#[test]
fn names_differing_in_case_are_different() {
    let result = RulebookBuilder::new("SCCA")
        .class("Street", street_subclasses(), vec![])
        .class("street", street_subclasses(), vec![])
        .build();
    assert!(result.is_ok());
}

#[test]
fn first_class_at_fault_decides_the_error() {
    let empty_then_repeated = RulebookBuilder::new("SCCA")
        .class("Street", vec![], vec![])
        .class("Touring", vec![Subclass::new("T", "T"), Subclass::new("T", "T")], vec![])
        .build();
    assert_eq!(error_of(empty_then_repeated), ValidationError::EmptyClass);
    let repeated_then_empty = RulebookBuilder::new("SCCA")
        .class("Touring", vec![Subclass::new("T", "T"), Subclass::new("T", "T")], vec![])
        .class("Street", vec![], vec![])
        .build();
    assert_eq!(error_of(repeated_then_empty), ValidationError::DuplicateName);
}

#[test]
fn taken_name_is_reported_before_emptiness() {
    let result = RulebookBuilder::new("SCCA")
        .class("Street", street_subclasses(), vec![])
        .class("Street", vec![], vec![])
        .build();
    assert_eq!(error_of(result), ValidationError::DuplicateName);
}

#[test]
fn emptiness_is_reported_before_repeated_question_ids() {
    let result = RulebookBuilder::new("SCCA")
        .class(
            "Street",
            vec![],
            vec![BumpQuestion::new("a", "A?", ""), BumpQuestion::new("a", "A again?", "")],
        )
        .build();
    assert_eq!(error_of(result), ValidationError::EmptyClass);
}

#[test]
fn class_is_found_by_its_exact_name() {
    let rulebook = RulebookBuilder::new("SCCA")
        .class("Street", street_subclasses(), street_questions())
        .class("Street Touring", vec![Subclass::new("STS", "Street Touring Sport")], vec![])
        .build()
        .unwrap();
    let found = rulebook.class_by_name("Street Touring").unwrap();
    assert_eq!(found.name(), "Street Touring");
    assert_eq!(found.subclasses()[0].code, "STS");
    assert_eq!(rulebook.class_by_name("Street").unwrap().bump_questions().len(), 2);
    assert!(rulebook.class_by_name("street").is_none());
    assert!(rulebook.class_by_name("Street ").is_none());
    assert!(rulebook.class_by_name("").is_none());
}

#[test]
fn copies_of_records_are_equal_to_them() {
    let subclass = Subclass::new("AS", "A Street");
    let question = BumpQuestion::new("fenders", "Are your fenders unmodified?", "Look closely.");
    assert_eq!(subclass.clone(), subclass);
    assert_eq!(question.clone(), question);
    assert_eq!(question.clone().body, "Look closely.");
}
