//! Board evaluation display: which parts of the evaluation panel are shown.
//!
//! The evaluation itself comes from the neural network crate, and the bar
//! is drawn by the application.
use vstd::prelude::*;

verus! {

/// Board evaluation display settings.
pub struct EvaluationDisplay {
    show_bar: bool,
    show_confidence: bool,
}

impl EvaluationDisplay {
    /// Both the win probability bar and the confidence are shown.
    pub fn new() -> (d: Self)
        ensures
            d.bar_shown(),
            d.confidence_shown(),
    {
        EvaluationDisplay { show_bar: true, show_confidence: true }
    }

    /// Whether the panel, with its win probability bar, is shown.
    pub closed spec fn bar_shown(&self) -> bool {
        self.show_bar
    }

    /// Whether the confidence indicator is shown.
    pub closed spec fn confidence_shown(&self) -> bool {
        self.show_confidence
    }

    /// Whether the panel, with its win probability bar, is shown.
    pub fn shows_bar(&self) -> (r: bool)
        ensures
            r == self.bar_shown(),
    {
        self.show_bar
    }

    /// Whether the confidence indicator is shown under the bar.
    pub fn shows_confidence(&self) -> (r: bool)
        ensures
            r == (self.bar_shown() && self.confidence_shown()),
    {
        self.show_bar && self.show_confidence
    }
}

} // verus!
