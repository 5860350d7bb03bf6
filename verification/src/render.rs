//! What a display needs to draw one frame.

use vstd::prelude::*;

verus! {

/// A picture of the session at one moment: the current entry and how far
/// the review has come. It borrows from the session and changes nothing.
#[derive(Clone, Copy, Debug)]
pub struct RenderState<'a> {
    /// The place of the current entry, counted from one.
    pub position: usize,
    /// The number of entries.
    pub total: usize,
    /// The text under review.
    pub text: &'a str,
    /// The reference answer, where the example has one.
    pub ground_truth: Option<&'a str>,
    /// The label of the current entry, where it has one.
    pub label: Option<&'a str>,
}

/// Shown in place of a reference answer that an example does not have.
pub open spec fn unavailable_text() -> Seq<char> {
    "n/a"@
}

/// Shown in place of the label of an entry that has none.
pub open spec fn unset_text() -> Seq<char> {
    "<None>"@
}

/// The part `position` of `total`, in whole percent, rounded down.
pub open spec fn percent_of(position: int, total: int) -> int {
    (position * 100) / total
}

impl<'a> RenderState<'a> {
    /// The position is one of `1..=total`.
    pub open spec fn valid(&self) -> bool {
        1 <= self.position <= self.total
    }

    /// How far the review has come, in whole percent: the position over
    /// the total, rounded down. Between 0 and 100.
    pub fn percent(&self) -> (percent: u16)
        requires
            self.valid(),
        ensures
            percent == percent_of(self.position as int, self.total as int),
            percent <= 100,
    {
        let scaled: u128 = (self.position as u128) * 100;
        let total: u128 = self.total as u128;
        assert(scaled / total <= 100) by (nonlinear_arith)
            requires
                0 < total,
                scaled <= 100 * total,
        ;
        (scaled / total) as u16
    }

    /// The reference answer, or `n/a` where there is none.
    pub fn ground_truth_text(&self) -> (text: &'a str)
        ensures
            text@ == match self.ground_truth {
                Some(reference) => reference@,
                None => unavailable_text(),
            },
    {
        match self.ground_truth {
            Some(reference) => reference,
            None => "n/a",
        }
    }

    /// The label, or `<None>` where the entry has none.
    pub fn label_text(&self) -> (text: &'a str)
        ensures
            text@ == match self.label {
                Some(label) => label@,
                None => unset_text(),
            },
    {
        match self.label {
            Some(label) => label,
            None => "<None>",
        }
    }
}

} // verus!
