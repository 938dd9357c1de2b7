//! In-memory competition rulebooks and the classifier that decides, from an
//! entrant's yes/no answers, which classes the entrant may enter.
//!
//! An organization publishes classes; each class has subclasses and a list
//! of bump questions. Answering "no" to a bump question bumps the entrant
//! out of the class that asks it.
//!
//! A [`Rulebook`] is built once through [`RulebookBuilder`], which refuses
//! repeated names and classes without subclasses, and is immutable
//! afterwards. [`classify`] is a pure function of a rulebook and an
//! [`AnswerSet`]; it never fails. For each class it reports one
//! [`Verdict`]: `Bumped` with every question answered "no", else
//! `Incomplete` with every question left open, else `Eligible` with all
//! subclasses. Answers that name nothing in the rulebook are ignored and
//! reported as [`Warning`]s.
//!
//! Contracts are stated over plain-text views (`Seq<char>` for text) of the
//! data; [`laws`] holds what follows from them for every classification.

pub mod answers;
pub mod builder;
pub mod classify;
pub mod error;
pub mod laws;
pub mod model;
pub mod report;
pub mod sample;

pub use answers::{Answer, AnswerSet};
pub use builder::RulebookBuilder;
pub use classify::{audit_answer, audit_answers, classify, classify_class};
pub use error::ValidationError;
pub use model::{BumpQuestion, Class, Rulebook, Subclass};
pub use report::{EligibilityReport, Verdict, Warning};
pub use sample::scca_rules;
