//! Where the native library is looked for when the service starts.
//!
//! The library is looked for in a fixed order of places, and the first place
//! that yields it wins. A [`BindPlan`] decides, from the outcome of the last
//! attempt, what comes next: the next place to try, the library that was
//! found, or the failure of the start when every place has failed. Loading
//! the library from a place is the caller's part.

use crate::error::{PdfServiceError, PdfServiceErrorView};
use pdfium_render::prelude::Pdfium;
use std::path::PathBuf;
use vstd::prelude::*;

verus! {

/// `std::path::PathBuf`: a path, carried from the call that makes it to the
/// caller who opens the file. Nothing in it is looked at.
#[verifier::external_type_specification]
#[verifier::external_body]
pub struct ExPathBuf(std::path::PathBuf);

/// A place where the native library is looked for.
#[derive(Debug, PartialEq, Eq)]
pub enum BindTarget {
    /// A directory, with the path of the library file in it. The file has
    /// the name that the platform gives the library.
    Directory { directory: String, library: PathBuf },
    /// Wherever the system finds a library of the platform's usual name.
    System,
}

/// The mathematical content of a [`BindTarget`]: the place. The name of the
/// library file is the platform's and is not part of it.
pub enum BindTargetView {
    Directory(Seq<char>),
    System,
}

impl View for BindTarget {
    type V = BindTargetView;

    open spec fn view(&self) -> BindTargetView {
        match self {
            BindTarget::Directory { directory, .. } => BindTargetView::Directory(directory@),
            BindTarget::System => BindTargetView::System,
        }
    }
}

/// `Pdfium::pdfium_platform_library_name_at_path` joins `directory` and the
/// file name that the platform gives the library. The name differs from one
/// platform to the next, so nothing is claimed of the path.
#[verifier::external_body]
fn library_in(directory: &str) -> (library: PathBuf) {
    Pdfium::pdfium_platform_library_name_at_path(directory)
}

/// The library file in the directory `path` as a place to try.
fn directory(path: &str) -> (place: BindTarget)
    ensures
        place@ == BindTargetView::Directory(path@),
{
    BindTarget::Directory { directory: String::from_str(path), library: library_in(path) }
}

/// The places in the order in which they are tried: the working directory,
/// two usual library directories, then the system's own search.
pub open spec fn bind_order() -> Seq<BindTargetView> {
    seq![
        BindTargetView::Directory("./"@),
        BindTargetView::Directory("/usr/lib"@),
        BindTargetView::Directory("/usr/local/lib"@),
        BindTargetView::System,
    ]
}

/// What the search for the native library does next.
#[derive(Debug, PartialEq, Eq)]
pub enum BindStep<B> {
    /// Try this place, and report the outcome.
    Try(BindTarget),
    /// The search is over: with the library, or with the failure of the
    /// start.
    Done(Result<B, PdfServiceError>),
}

/// The mathematical content of a [`BindStep`].
pub enum BindStepView<B> {
    Try(BindTargetView),
    Bound(B),
    Failed(PdfServiceErrorView),
}

impl<B> View for BindStep<B> {
    type V = BindStepView<B>;

    open spec fn view(&self) -> BindStepView<B> {
        match self {
            BindStep::Try(place) => BindStepView::Try(place@),
            BindStep::Done(Ok(bound)) => BindStepView::Bound(*bound),
            BindStep::Done(Err(error)) => BindStepView::Failed(error@),
        }
    }
}

/// How far the search for the native library has come.
pub struct BindPlan {
    failed: usize,
    reason: String,
}

/// The mathematical content of a [`BindPlan`].
pub struct BindPlanView {
    /// How many places have failed.
    pub failed: nat,
    /// Why the last of them failed.
    pub reason: Seq<char>,
}

impl View for BindPlan {
    type V = BindPlanView;

    closed spec fn view(&self) -> BindPlanView {
        BindPlanView { failed: self.failed as nat, reason: self.reason@ }
    }
}

impl BindPlanView {
    /// The plan with every place still to try.
    pub open spec fn start() -> BindPlanView {
        BindPlanView { failed: 0, reason: Seq::empty() }
    }

    /// The plan after the place that was tried has failed for `reason`.
    pub open spec fn after_failure(self, reason: Seq<char>) -> BindPlanView {
        BindPlanView {
            failed: if self.failed < bind_order().len() {
                self.failed + 1
            } else {
                self.failed
            },
            reason,
        }
    }

    /// The plan after the places that were tried have failed for `reasons`,
    /// one after the other.
    pub open spec fn after_failures(self, reasons: Seq<Seq<char>>) -> BindPlanView
        decreases reasons.len(),
    {
        if reasons.len() == 0 {
            self
        } else {
            self.after_failures(reasons.drop_last()).after_failure(reasons.last())
        }
    }

    /// The place to try next, if one is left.
    pub open spec fn target(self) -> Option<BindTargetView> {
        if self.failed < bind_order().len() {
            Some(bind_order()[self.failed as int])
        } else {
            None
        }
    }

    /// What comes next while nothing has been found: the next place in the
    /// order, or, when every place has failed, the failure of the start,
    /// with the reason why the last place failed.
    pub open spec fn next<B>(self) -> BindStepView<B> {
        match self.target() {
            Some(place) => BindStepView::Try(place),
            None => BindStepView::Failed(PdfServiceErrorView::InitError(self.reason)),
        }
    }

    /// The plan after `outcome` was reported: nothing for the first step, a
    /// success or a failure of the place that was tried after that.
    pub open spec fn after<B>(self, outcome: Option<Result<B, String>>) -> BindPlanView {
        match outcome {
            Some(Err(reason)) => self.after_failure(reason@),
            _ => self,
        }
    }

    /// What comes next once `outcome` was reported. The first place that
    /// yields the library ends the search.
    pub open spec fn step<B>(self, outcome: Option<Result<B, String>>) -> BindStepView<B> {
        match outcome {
            Some(Ok(bound)) => BindStepView::Bound(bound),
            _ => self.after(outcome).next(),
        }
    }
}

impl BindPlan {
    /// A plan with every place still to try.
    pub fn new() -> (plan: Self)
        ensures
            plan@ == BindPlanView::start(),
    {
        BindPlan { failed: 0, reason: String::new() }
    }

    /// The place to try next, if one is left.
    fn target(&self) -> (target: Option<BindTarget>)
        ensures
            match target {
                Some(place) => self@.target() == Some(place@),
                None => self@.target() is None,
            },
    {
        if self.failed == 0 {
            Some(directory("./"))
        } else if self.failed == 1 {
            Some(directory("/usr/lib"))
        } else if self.failed == 2 {
            Some(directory("/usr/local/lib"))
        } else if self.failed == 3 {
            Some(BindTarget::System)
        } else {
            None
        }
    }

    /// Decides what comes next.
    ///
    /// `outcome` is `None` for the first step, and after that the outcome of
    /// trying the place that the step before has named: the library, or the
    /// reason why the place does not yield it.
    pub fn step<B>(&mut self, outcome: Option<Result<B, String>>) -> (next: BindStep<B>)
        ensures
            final(self)@ == old(self)@.after(outcome),
            next@ == old(self)@.step(outcome),
    {
        match outcome {
            Some(Ok(bound)) => {
                return BindStep::Done(Ok(bound));
            },
            Some(Err(reason)) => {
                if self.failed < 4 {
                    self.failed = self.failed + 1;
                }
                self.reason = reason;
            },
            None => {},
        }
        match self.target() {
            Some(place) => BindStep::Try(place),
            None => BindStep::Done(Err(PdfServiceError::InitError(self.reason.clone()))),
        }
    }
}

/// The places are tried in their order: after some failures the next place
/// in the order is due, and once every place has failed the start fails, for
/// the reason for which the last place failed.
pub proof fn lemma_places_are_tried_in_order(reasons: Seq<Seq<char>>)
    ensures
        reasons.len() < bind_order().len() ==> BindPlanView::start().after_failures(
            reasons,
        ).target() == Some(bind_order()[reasons.len() as int]),
        reasons.len() >= bind_order().len() ==> BindPlanView::start().after_failures(
            reasons,
        ).target() is None && BindPlanView::start().after_failures(reasons).reason
            == reasons.last(),
{
    lemma_failures_are_counted(reasons);
}

/// After some failures, as many places have failed, but no more than there
/// are places, and the reason kept is that of the last failure.
proof fn lemma_failures_are_counted(reasons: Seq<Seq<char>>)
    ensures
        BindPlanView::start().after_failures(reasons).failed == if reasons.len()
            < bind_order().len() {
            reasons.len()
        } else {
            bind_order().len()
        },
        reasons.len() > 0 ==> BindPlanView::start().after_failures(reasons).reason
            == reasons.last(),
    decreases reasons.len(),
{
    if reasons.len() > 0 {
        lemma_failures_are_counted(reasons.drop_last());
    }
}

} // verus!
