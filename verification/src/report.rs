//! What the classifier reports: one verdict for each class, and a warning
//! for each answer that names nothing in the rulebook.

use vstd::prelude::*;
use crate::error::ValidationError;
use crate::model::{views, Subclass, SubclassView};

verus! {

/// The outcome for one class.
#[derive(Debug, PartialEq, Eq)]
pub enum Verdict {
    /// Every question of the class was answered "yes": the entrant may
    /// compete in any of its subclasses.
    Eligible { class_name: String, subclasses: Vec<Subclass> },
    /// At least one question was answered "no". `reasons` holds the ids of
    /// all such questions, in the order of the class's questions.
    Bumped { class_name: String, reasons: Vec<String> },
    /// No question was answered "no", but some have no answer yet.
    /// `unanswered` holds their ids, in the order of the class's questions.
    Incomplete { class_name: String, unanswered: Vec<String> },
}

/// A [`Verdict`] as plain text.
pub enum VerdictView {
    Eligible { class_name: Seq<char>, subclasses: Seq<SubclassView> },
    Bumped { class_name: Seq<char>, reasons: Seq<Seq<char>> },
    Incomplete { class_name: Seq<char>, unanswered: Seq<Seq<char>> },
}

impl VerdictView {
    /// The class that the verdict is about.
    pub open spec fn class_name(self) -> Seq<char> {
        match self {
            VerdictView::Eligible { class_name, .. } => class_name,
            VerdictView::Bumped { class_name, .. } => class_name,
            VerdictView::Incomplete { class_name, .. } => class_name,
        }
    }
}

impl View for Verdict {
    type V = VerdictView;

    open spec fn view(&self) -> VerdictView {
        match self {
            Verdict::Eligible { class_name, subclasses } => VerdictView::Eligible {
                class_name: class_name@,
                subclasses: views(subclasses@),
            },
            Verdict::Bumped { class_name, reasons } => VerdictView::Bumped {
                class_name: class_name@,
                reasons: views(reasons@),
            },
            Verdict::Incomplete { class_name, unanswered } => VerdictView::Incomplete {
                class_name: class_name@,
                unanswered: views(unanswered@),
            },
        }
    }
}

/// An answer that was ignored because the rulebook has no such class
/// ([`ValidationError::UnknownClass`]) or the class has no such question
/// ([`ValidationError::UnknownQuestion`]).
#[derive(Debug, PartialEq, Eq)]
pub struct Warning {
    pub kind: ValidationError,
    pub class_name: String,
    pub question_id: String,
}

/// A [`Warning`] as plain text.
pub struct WarningView {
    pub kind: ValidationError,
    pub class_name: Seq<char>,
    pub question_id: Seq<char>,
}

impl View for Warning {
    type V = WarningView;

    open spec fn view(&self) -> WarningView {
        WarningView {
            kind: self.kind,
            class_name: self.class_name@,
            question_id: self.question_id@,
        }
    }
}

/// The result of one classification.
#[derive(Debug, PartialEq, Eq)]
pub struct EligibilityReport {
    /// One verdict for each class of the rulebook, in rulebook order.
    pub verdicts: Vec<Verdict>,
    /// One warning for each ignored answer, in the order of the answers.
    pub warnings: Vec<Warning>,
}

/// An [`EligibilityReport`] as plain text.
pub struct ReportView {
    pub verdicts: Seq<VerdictView>,
    pub warnings: Seq<WarningView>,
}

impl View for EligibilityReport {
    type V = ReportView;

    open spec fn view(&self) -> ReportView {
        ReportView { verdicts: views(self.verdicts@), warnings: views(self.warnings@) }
    }
}

} // verus!
