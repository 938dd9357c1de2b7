//! Building a rulebook: an organization, then its classes, then a check of
//! the whole draft.

use vstd::prelude::*;
use crate::error::ValidationError;
use crate::model::{
    lemma_first_defect, lemma_valid_iff_no_defect, name_taken, views, BumpQuestion, Class,
    ClassView, Rulebook, RulebookView, Subclass,
};

verus! {

/// A rulebook in the making. Nothing is checked before [`build`].
///
/// [`build`]: RulebookBuilder::build
#[derive(Debug)]
pub struct RulebookBuilder {
    organization: String,
    classes: Vec<Class>,
}

impl View for RulebookBuilder {
    type V = RulebookView;

    /// The draft: what the rulebook will hold if the draft is valid.
    closed spec fn view(&self) -> RulebookView {
        RulebookView { organization: self.organization@, classes: views(self.classes@) }
    }
}

impl RulebookBuilder {
    /// Starts a rulebook of the given organization, without classes.
    pub fn new(organization: &str) -> (builder: RulebookBuilder)
        ensures
            builder@ == (RulebookView {
                organization: organization@,
                classes: Seq::<ClassView>::empty(),
            }),
    {
        let builder = RulebookBuilder { organization: organization.to_owned(), classes: Vec::new() };
        assert(views(builder.classes@) =~= Seq::<ClassView>::empty());
        builder
    }

    /// Adds a class, after the classes added so far.
    pub fn class(
        self,
        name: &str,
        subclasses: Vec<Subclass>,
        bump_questions: Vec<BumpQuestion>,
    ) -> (builder: RulebookBuilder)
        ensures
            builder@ == (RulebookView {
                organization: self@.organization,
                classes: self@.classes.push(
                    ClassView {
                        name: name@,
                        subclasses: views(subclasses@),
                        bump_questions: views(bump_questions@),
                    },
                ),
            }),
    {
        let class = Class::assemble(name.to_owned(), subclasses, bump_questions);
        let mut classes = self.classes;
        classes.push(class);
        assert(views(classes@) =~= views(self.classes@).push(class@));
        RulebookBuilder { organization: self.organization, classes }
    }

    /// Checks the draft, class by class in the order in which they were
    /// added, and hands out the rulebook if nothing is wrong. Otherwise the
    /// error is that of the first class with something wrong:
    /// `DuplicateName` if its name is that of an earlier class; else
    /// `EmptyClass` if it has no subclass; else `DuplicateName`, for a
    /// subclass code or a question id that it holds twice.
    pub fn build(self) -> (result: Result<Rulebook, ValidationError>)
        ensures
            result is Ok <==> self@.valid(),
            match result {
                Ok(rulebook) => rulebook@ == self@,
                Err(error) => self@.first_defect() == Some(error),
            },
    {
        proof {
            lemma_valid_iff_no_defect(self@);
        }
        let mut i: usize = 0;
        while i < self.classes.len()
            invariant
                i <= self.classes.len(),
                forall|j: int| 0 <= j < i ==> self@.defect_at(j) is None,
            decreases self.classes.len() - i,
        {
            let defect = if is_name_taken(&self.classes, i) {
                Some(ValidationError::DuplicateName)
            } else {
                self.classes[i].defect()
            };
            assert(views(self.classes@)[i as int] == self.classes@[i as int]@);
            assert(defect == self@.defect_at(i as int));
            match defect {
                Some(error) => {
                    proof {
                        assert(self@.first_defect_at(i as int));
                        lemma_first_defect(self@, i as int);
                        lemma_valid_iff_no_defect(self@);
                    }
                    return Err(error);
                },
                None => {},
            }
            i += 1;
        }
        Ok(Rulebook::assemble(self.organization, self.classes))
    }
}

/// Whether the name of the class at `i` is that of a class before it.
fn is_name_taken(classes: &Vec<Class>, i: usize) -> (taken: bool)
    requires
        i < classes.len(),
    ensures
        taken == name_taken(views(classes@), i as int),
{
    let mut j: usize = 0;
    while j < i
        invariant
            j <= i < classes.len(),
            forall|k: int|
                0 <= k < j ==> (#[trigger] views(classes@)[k]).name != views(classes@)[i as int].name,
        decreases i - j,
    {
        if classes[j].same_name(&classes[i]) {
            assert(views(classes@)[j as int].name == views(classes@)[i as int].name);
            return true;
        }
        j += 1;
    }
    false
}

} // verus!
