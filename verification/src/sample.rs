//! A small rulebook to start from: SCCA with its Street class.

use vstd::prelude::*;
use crate::builder::RulebookBuilder;
use crate::model::{
    views, BumpQuestion, BumpQuestionView, ClassView, Rulebook, RulebookView, Subclass,
    SubclassView,
};

verus! {

/// The sample rulebook as plain text: organization "SCCA" with the one
/// class "Street", its subclasses AS and BS, and its two bump questions.
pub open spec fn scca_rules_view() -> RulebookView {
    RulebookView {
        organization: "SCCA"@,
        classes: seq![
            ClassView {
                name: "Street"@,
                subclasses: seq![
                    SubclassView { code: "AS"@, display_name: "A Street"@ },
                    SubclassView { code: "BS"@, display_name: "B Street"@ },
                ],
                bump_questions: seq![
                    BumpQuestionView {
                        id: "fenders"@,
                        prompt: "Are your fenders unmodified?"@,
                        body: ""@,
                    },
                    BumpQuestionView {
                        id: "tires"@,
                        prompt: "Are your tires 200 treadwear and DOT legal?"@,
                        body: ""@,
                    },
                ],
            },
        ],
    }
}

/// The sample rulebook is a valid draft.
pub proof fn lemma_scca_rules_valid()
    ensures
        scca_rules_view().valid(),
{
    let class = scca_rules_view().classes[0];
    reveal_strlit("AS");
    reveal_strlit("BS");
    reveal_strlit("fenders");
    reveal_strlit("tires");
    assert("AS"@[0] != "BS"@[0]);
    assert("fenders"@[0] != "tires"@[0]);
    assert(class.subclass_codes() =~= seq!["AS"@, "BS"@]);
    assert(class.question_ids() =~= seq!["fenders"@, "tires"@]);
    assert(class.valid());
    assert(scca_rules_view().class_names() =~= seq!["Street"@]);
}

/// Builds the sample rulebook.
pub fn scca_rules() -> (rulebook: Rulebook)
    ensures
        rulebook@ == scca_rules_view(),
{
    let mut subclasses: Vec<Subclass> = Vec::new();
    subclasses.push(Subclass::new("AS", "A Street"));
    subclasses.push(Subclass::new("BS", "B Street"));
    let mut bump_questions: Vec<BumpQuestion> = Vec::new();
    bump_questions.push(BumpQuestion::new("fenders", "Are your fenders unmodified?", ""));
    bump_questions.push(
        BumpQuestion::new("tires", "Are your tires 200 treadwear and DOT legal?", ""),
    );
    proof {
        let street = scca_rules_view().classes[0];
        assert(views(subclasses@) =~= street.subclasses);
        assert(views(bump_questions@) =~= street.bump_questions);
    }
    let builder = RulebookBuilder::new("SCCA").class("Street", subclasses, bump_questions);
    proof {
        assert(builder@.classes =~= scca_rules_view().classes);
        lemma_scca_rules_valid();
    }
    match builder.build() {
        Ok(rulebook) => rulebook,
        Err(_) => vstd::pervasive::unreached(),
    }
}

} // verus!
