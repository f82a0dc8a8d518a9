//! The views that can be chosen from, and what the menu calls them.

use vstd::prelude::*;

verus! {

/// A view of the program.
#[derive(Clone, Copy, Debug, PartialEq, Eq, Structural)]
pub enum UI {
    ApiDash,
    Network,
    MetricsDash,
}

impl UI {
    /// The name under which the menu offers the view.
    pub open spec fn label(self) -> Seq<char> {
        match self {
            UI::ApiDash => "API Dashboard"@,
            UI::Network => "Network"@,
            UI::MetricsDash => "Metrics Dashboard"@,
        }
    }

    /// The name under which the menu offers the view.
    pub fn to_string(&self) -> (name: String)
        ensures
            name@ == self.label(),
    {
        let name: &str = match self {
            UI::ApiDash => "API Dashboard",
            UI::Network => "Network",
            UI::MetricsDash => "Metrics Dashboard",
        };
        String::from_str(name)
    }
}

} // verus!
