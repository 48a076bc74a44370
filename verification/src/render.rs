//! Reports as the terminal shows them.

use crate::report::{Report, ReportView};
use vstd::prelude::*;

verus! {

/// One line of markdown as the terminal shows it: what `termimad::inline`
/// displays for `markdown` under its default skin.
///
/// Nothing is claimed of the result. It holds escape sequences that depend
/// on the skin and on whether the environment switches colors off.
#[verifier::external_body]
fn render_inline(markdown: &str) -> (rendered: String) {
    termimad::inline(markdown).to_string()
}

impl Report {
    /// The headline of the report as the terminal shows it. A listing has no
    /// headline, and its announcement is empty.
    pub fn announcement(&self) -> (text: String)
        ensures
            self@ is Listed ==> text@ == Seq::<char>::empty(),
    {
        match self {
            Report::Listed { .. } => String::new(),
            _ => self.announce(render_inline(self.headline().as_str())),
        }
    }

    /// What is announced of the report where the terminal shows its headline
    /// as `rendered`: that text, and nothing for a listing.
    pub fn announce(&self, rendered: String) -> (text: String)
        ensures
            text@ == announced(self@, rendered@),
    {
        match self {
            Report::Listed { .. } => String::new(),
            _ => rendered,
        }
    }
}

/// What is announced of a report whose headline the terminal shows as
/// `rendered`.
pub open spec fn announced(report: ReportView, rendered: Seq<char>) -> Seq<char> {
    if report is Listed {
        Seq::empty()
    } else {
        rendered
    }
}

} // verus!
