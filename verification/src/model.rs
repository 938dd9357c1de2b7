//! The rulebook: an organization, its classes, and for each class its
//! subclasses and bump questions.

use vstd::prelude::*;
use crate::error::ValidationError;

verus! {

/// The views of the items of a sequence, in the same order.
pub open spec fn views<T: View>(items: Seq<T>) -> Seq<T::V> {
    items.map_values(|item: T| item@)
}

/// A finer division within a class, such as "AS" ("A Street").
#[derive(Debug, PartialEq, Eq)]
pub struct Subclass {
    /// Short code, unique within the class.
    pub code: String,
    /// Human-facing name.
    pub display_name: String,
}

/// A [`Subclass`] as plain text.
pub struct SubclassView {
    pub code: Seq<char>,
    pub display_name: Seq<char>,
}

impl View for Subclass {
    type V = SubclassView;

    open spec fn view(&self) -> SubclassView {
        SubclassView { code: self.code@, display_name: self.display_name@ }
    }
}

impl Subclass {
    /// A subclass with the given code and display name.
    pub fn new(code: &str, display_name: &str) -> (subclass: Subclass)
        ensures
            subclass@ == (SubclassView { code: code@, display_name: display_name@ }),
    {
        Subclass { code: code.to_owned(), display_name: display_name.to_owned() }
    }
}

impl Clone for Subclass {
    fn clone(&self) -> (copy: Subclass)
        ensures
            copy@ == self@,
    {
        Subclass { code: self.code.clone(), display_name: self.display_name.clone() }
    }
}

/// A yes/no question; the answer "no" bumps the entrant out of the class
/// that asks it.
#[derive(Debug, PartialEq, Eq)]
pub struct BumpQuestion {
    /// Stable identifier by which answers are keyed, unique within the class.
    pub id: String,
    /// The short question.
    pub prompt: String,
    /// Optional elaboration; may be empty.
    pub body: String,
}

/// A [`BumpQuestion`] as plain text.
pub struct BumpQuestionView {
    pub id: Seq<char>,
    pub prompt: Seq<char>,
    pub body: Seq<char>,
}

impl View for BumpQuestion {
    type V = BumpQuestionView;

    open spec fn view(&self) -> BumpQuestionView {
        BumpQuestionView { id: self.id@, prompt: self.prompt@, body: self.body@ }
    }
}

impl BumpQuestion {
    /// A question with the given id, prompt and body.
    pub fn new(id: &str, prompt: &str, body: &str) -> (question: BumpQuestion)
        ensures
            question@ == (BumpQuestionView { id: id@, prompt: prompt@, body: body@ }),
    {
        BumpQuestion { id: id.to_owned(), prompt: prompt.to_owned(), body: body.to_owned() }
    }
}

impl Clone for BumpQuestion {
    fn clone(&self) -> (copy: BumpQuestion)
        ensures
            copy@ == self@,
    {
        BumpQuestion {
            id: self.id.clone(),
            prompt: self.prompt.clone(),
            body: self.body.clone(),
        }
    }
}

/// A [`Class`] as plain text.
pub struct ClassView {
    pub name: Seq<char>,
    pub subclasses: Seq<SubclassView>,
    pub bump_questions: Seq<BumpQuestionView>,
}

impl ClassView {
    /// The subclass codes, in declaration order.
    pub open spec fn subclass_codes(self) -> Seq<Seq<char>> {
        self.subclasses.map_values(|s: SubclassView| s.code)
    }

    /// The question ids, in the order in which the questions are asked.
    pub open spec fn question_ids(self) -> Seq<Seq<char>> {
        self.bump_questions.map_values(|q: BumpQuestionView| q.id)
    }

    /// At least one subclass; no subclass code and no question id twice.
    pub open spec fn valid(self) -> bool {
        &&& self.subclasses.len() > 0
        &&& self.subclass_codes().no_duplicates()
        &&& self.question_ids().no_duplicates()
    }

    /// What is wrong with the class taken by itself, if anything. A class
    /// without subclasses is reported as empty whatever else is wrong with
    /// it.
    pub open spec fn defect(self) -> Option<ValidationError> {
        if self.subclasses.len() == 0 {
            Some(ValidationError::EmptyClass)
        } else if !self.subclass_codes().no_duplicates() || !self.question_ids().no_duplicates() {
            Some(ValidationError::DuplicateName)
        } else {
            None
        }
    }
}

/// A competition category of a rulebook, such as "Street".
///
/// Classes are made by building a rulebook and read through its accessors,
/// which also state that the classes of a [`Rulebook`] are all valid.
#[derive(Debug)]
pub struct Class {
    name: String,
    subclasses: Vec<Subclass>,
    bump_questions: Vec<BumpQuestion>,
}

impl View for Class {
    type V = ClassView;

    closed spec fn view(&self) -> ClassView {
        ClassView {
            name: self.name@,
            subclasses: views(self.subclasses@),
            bump_questions: views(self.bump_questions@),
        }
    }
}

impl Class {
    /// Puts a class together, unchecked.
    pub(crate) fn assemble(
        name: String,
        subclasses: Vec<Subclass>,
        bump_questions: Vec<BumpQuestion>,
    ) -> (class: Class)
        ensures
            class@ == (ClassView {
                name: name@,
                subclasses: views(subclasses@),
                bump_questions: views(bump_questions@),
            }),
    {
        Class { name, subclasses, bump_questions }
    }

    /// Whether the two classes have the same name.
    pub(crate) fn same_name(&self, other: &Class) -> (same: bool)
        ensures
            same == (self@.name == other@.name),
    {
        self.name == other.name
    }

    /// What is wrong with the class taken by itself, if anything.
    pub(crate) fn defect(&self) -> (defect: Option<ValidationError>)
        ensures
            defect == self@.defect(),
    {
        if self.subclasses.len() == 0 {
            return Some(ValidationError::EmptyClass);
        }
        let mut codes: Vec<&String> = Vec::new();
        let mut i: usize = 0;
        while i < self.subclasses.len()
            invariant
                i <= self.subclasses.len(),
                views(codes@) == self@.subclass_codes().take(i as int),
            decreases self.subclasses.len() - i,
        {
            codes.push(&self.subclasses[i].code);
            assert(views(codes@) =~= self@.subclass_codes().take(i as int).push(
                self.subclasses@[i as int]@.code,
            ));
            i += 1;
        }
        assert(self@.subclass_codes().take(i as int) =~= self@.subclass_codes());
        let mut ids: Vec<&String> = Vec::new();
        let mut k: usize = 0;
        while k < self.bump_questions.len()
            invariant
                k <= self.bump_questions.len(),
                views(ids@) == self@.question_ids().take(k as int),
            decreases self.bump_questions.len() - k,
        {
            ids.push(&self.bump_questions[k].id);
            assert(views(ids@) =~= self@.question_ids().take(k as int).push(
                self.bump_questions@[k as int]@.id,
            ));
            k += 1;
        }
        assert(self@.question_ids().take(k as int) =~= self@.question_ids());
        if has_repeat(&codes) || has_repeat(&ids) {
            Some(ValidationError::DuplicateName)
        } else {
            None
        }
    }

    /// The name of the class.
    pub fn name(&self) -> (name: &str)
        ensures
            name@ == self@.name,
    {
        self.name.as_str()
    }

    /// The subclasses, in declaration order.
    pub fn subclasses(&self) -> (subclasses: &[Subclass])
        ensures
            views(subclasses@) == self@.subclasses,
    {
        self.subclasses.as_slice()
    }

    /// The bump questions, in the order in which they are asked.
    pub fn bump_questions(&self) -> (questions: &[BumpQuestion])
        ensures
            views(questions@) == self@.bump_questions,
    {
        self.bump_questions.as_slice()
    }
}

/// Whether some text occurs twice in the list.
fn has_repeat(texts: &Vec<&String>) -> (repeat: bool)
    ensures
        repeat == !views(texts@).no_duplicates(),
{
    let mut i: usize = 0;
    while i < texts.len()
        invariant
            i <= texts.len(),
            forall|a: int, b: int| 0 <= a < b < i ==> views(texts@)[a] != views(texts@)[b],
        decreases texts.len() - i,
    {
        let mut j: usize = 0;
        while j < i
            invariant
                j <= i < texts.len(),
                forall|a: int| 0 <= a < j ==> views(texts@)[a] != views(texts@)[i as int],
            decreases i - j,
        {
            if *texts[j] == *texts[i] {
                assert(views(texts@)[j as int] == views(texts@)[i as int]);
                return true;
            }
            j += 1;
        }
        i += 1;
    }
    let ghost all = views(texts@);
    assert forall|a: int, b: int|
        0 <= a < all.len() && 0 <= b < all.len() && a != b implies all[a] != all[b] by {
        if a < b {
            assert(all[a] != all[b]);
        } else {
            assert(all[b] != all[a]);
        }
    }
    false
}

/// Whether the name of the class at `i` is that of a class before it.
pub open spec fn name_taken(classes: Seq<ClassView>, i: int) -> bool {
    exists|j: int| 0 <= j < i && (#[trigger] classes[j]).name == classes[i].name
}

/// A [`Rulebook`] as plain text.
pub struct RulebookView {
    pub organization: Seq<char>,
    pub classes: Seq<ClassView>,
}

impl RulebookView {
    /// The class names, in rulebook order.
    pub open spec fn class_names(self) -> Seq<Seq<char>> {
        self.classes.map_values(|c: ClassView| c.name)
    }

    /// Whether some class has the given name.
    pub open spec fn has_class(self, name: Seq<char>) -> bool {
        self.class_names().contains(name)
    }

    /// Whether some class of the given name has a question of the given id.
    pub open spec fn has_question(self, class_name: Seq<char>, question_id: Seq<char>) -> bool {
        exists|i: int|
            0 <= i < self.classes.len() && (#[trigger] self.classes[i]).name == class_name
                && self.classes[i].question_ids().contains(question_id)
    }

    /// No class name twice, and every class valid.
    pub open spec fn valid(self) -> bool {
        &&& self.class_names().no_duplicates()
        &&& forall|i: int| 0 <= i < self.classes.len() ==> (#[trigger] self.classes[i]).valid()
    }

    /// What is wrong with the class at `i`, given the classes before it:
    /// a name that is taken, or else its own defect.
    pub open spec fn defect_at(self, i: int) -> Option<ValidationError> {
        if name_taken(self.classes, i) {
            Some(ValidationError::DuplicateName)
        } else {
            self.classes[i].defect()
        }
    }

    /// Whether `i` is the first class with something wrong.
    pub open spec fn first_defect_at(self, i: int) -> bool {
        &&& 0 <= i < self.classes.len()
        &&& self.defect_at(i) is Some
        &&& forall|j: int| 0 <= j < i ==> self.defect_at(j) is None
    }

    /// What is wrong with the first class with something wrong, if there is
    /// such a class.
    pub open spec fn first_defect(self) -> Option<ValidationError> {
        if exists|i: int| self.first_defect_at(i) {
            self.defect_at(choose|i: int| self.first_defect_at(i))
        } else {
            None
        }
    }
}

/// If something is wrong with the class at `i`, some class up to `i` is the
/// first with something wrong.
proof fn lemma_least_defect(rulebook: RulebookView, i: int)
    requires
        0 <= i < rulebook.classes.len(),
        rulebook.defect_at(i) is Some,
    ensures
        exists|k: int| rulebook.first_defect_at(k),
    decreases i,
{
    if exists|j: int| 0 <= j < i && rulebook.defect_at(j) is Some {
        let j = choose|j: int| 0 <= j < i && rulebook.defect_at(j) is Some;
        lemma_least_defect(rulebook, j);
    } else {
        assert(rulebook.first_defect_at(i));
    }
}

/// The first class with something wrong decides the first defect.
pub proof fn lemma_first_defect(rulebook: RulebookView, i: int)
    requires
        rulebook.first_defect_at(i),
    ensures
        rulebook.first_defect() == rulebook.defect_at(i),
{
    let k = choose|k: int| rulebook.first_defect_at(k);
    assert(rulebook.first_defect_at(k));
    assert(k == i) by {
        if k < i {
            assert(rulebook.defect_at(k) is None);
        }
        if i < k {
            assert(rulebook.defect_at(i) is None);
        }
    }
}

/// A draft is valid exactly if it has no first defect.
pub proof fn lemma_valid_iff_no_defect(rulebook: RulebookView)
    ensures
        rulebook.valid() <==> rulebook.first_defect() is None,
        rulebook.first_defect() is None <==> forall|i: int|
            0 <= i < rulebook.classes.len() ==> rulebook.defect_at(i) is None,
{
    let names = rulebook.class_names();
    if rulebook.first_defect() is None {
        assert forall|i: int| 0 <= i < rulebook.classes.len() implies rulebook.defect_at(i)
            is None by {
            if rulebook.defect_at(i) is Some {
                lemma_least_defect(rulebook, i);
                let k = choose|k: int| rulebook.first_defect_at(k);
                lemma_first_defect(rulebook, k);
            }
        }
    }
    if rulebook.valid() {
        assert forall|i: int| 0 <= i < rulebook.classes.len() implies rulebook.defect_at(i)
            is None by {
            assert(rulebook.classes[i].valid());
            if name_taken(rulebook.classes, i) {
                let j = choose|j: int|
                    0 <= j < i && (#[trigger] rulebook.classes[j]).name == rulebook.classes[i].name;
                assert(names[j] == names[i]);
            }
        }
    }
    if forall|i: int| 0 <= i < rulebook.classes.len() ==> rulebook.defect_at(i) is None {
        assert forall|a: int, b: int|
            0 <= a < names.len() && 0 <= b < names.len() && a != b implies names[a] != names[b] by {
            if names[a] == names[b] {
                if a < b {
                    assert(rulebook.classes[a].name == rulebook.classes[b].name);
                    assert(name_taken(rulebook.classes, b));
                    assert(rulebook.defect_at(b) is Some);
                } else {
                    assert(rulebook.classes[b].name == rulebook.classes[a].name);
                    assert(name_taken(rulebook.classes, a));
                    assert(rulebook.defect_at(a) is Some);
                }
            }
        }
        assert forall|i: int| 0 <= i < rulebook.classes.len() implies (#[trigger] rulebook.classes[i])
            .valid() by {
            assert(rulebook.defect_at(i) is None);
        }
    }
}

/// The classes that one organization publishes. Always valid, and never
/// changed once built.
#[derive(Debug)]
pub struct Rulebook {
    organization: String,
    classes: Vec<Class>,
}

impl View for Rulebook {
    type V = RulebookView;

    closed spec fn view(&self) -> RulebookView {
        RulebookView { organization: self.organization@, classes: views(self.classes@) }
    }
}

impl Rulebook {
    #[verifier::type_invariant]
    spec fn well_formed(self) -> bool {
        self@.valid()
    }

    /// Puts a rulebook together from a valid draft.
    pub(crate) fn assemble(organization: String, classes: Vec<Class>) -> (rulebook: Rulebook)
        requires
            (RulebookView { organization: organization@, classes: views(classes@) }).valid(),
        ensures
            rulebook@ == (RulebookView { organization: organization@, classes: views(classes@) }),
    {
        Rulebook { organization, classes }
    }

    /// The organization that publishes this rulebook.
    pub fn organization(&self) -> (organization: &str)
        ensures
            organization@ == self@.organization,
    {
        self.organization.as_str()
    }

    /// The classes, in rulebook order.
    pub fn classes(&self) -> (classes: &[Class])
        ensures
            views(classes@) == self@.classes,
            self@.valid(),
    {
        proof {
            use_type_invariant(self);
        }
        self.classes.as_slice()
    }

    /// The class with the given name, if the rulebook has one.
    pub fn class_by_name(&self, name: &str) -> (found: Option<&Class>)
        ensures
            self@.valid(),
            match found {
                Some(class) => class@.name == name@ && self@.classes.contains(class@),
                None => !self@.has_class(name@),
            },
    {
        let wanted = name.to_owned();
        match self.position(&wanted) {
            Some(i) => Some(&self.classes[i]),
            None => None,
        }
    }

    /// The index of the class with the given name, if the rulebook has one.
    pub(crate) fn position(&self, name: &String) -> (found: Option<usize>)
        ensures
            self@.valid(),
            match found {
                Some(i) => i < self@.classes.len() && self@.classes[i as int].name == name@,
                None => !self@.has_class(name@),
            },
    {
        proof {
            use_type_invariant(self);
        }
        let mut i: usize = 0;
        while i < self.classes.len()
            invariant
                i <= self.classes.len(),
                self@.valid(),
                forall|k: int| 0 <= k < i ==> self@.class_names()[k] != name@,
            decreases self.classes.len() - i,
        {
            if self.classes[i].name == *name {
                return Some(i);
            }
            i += 1;
        }
        None
    }
}

} // verus!
