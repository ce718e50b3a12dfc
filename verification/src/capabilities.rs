//! The adjustments that every session's capabilities receive before the
//! session is opened.

use vstd::prelude::*;

verus! {

/// One adjustment of a browser's capabilities.
#[derive(Clone, Debug, PartialEq, Eq)]
pub enum Adjustment {
    /// Run the browser without its sandbox.
    NoSandbox,
    /// Keep the browser from using `/dev/shm`.
    DisableDevShmUsage,
    /// Pass this argument to the browser.
    Argument(&'static str),
    /// Set this option of the browser to this list of values.
    ListOption { name: &'static str, values: Vec<&'static str> },
}

/// An [`Adjustment`] with its texts as sequences of characters.
pub enum AdjustmentView {
    NoSandbox,
    DisableDevShmUsage,
    Argument(Seq<char>),
    ListOption { name: Seq<char>, values: Seq<Seq<char>> },
}

impl View for Adjustment {
    type V = AdjustmentView;

    open spec fn view(&self) -> AdjustmentView {
        match self {
            Adjustment::NoSandbox => AdjustmentView::NoSandbox,
            Adjustment::DisableDevShmUsage => AdjustmentView::DisableDevShmUsage,
            Adjustment::Argument(text) => AdjustmentView::Argument(text@),
            Adjustment::ListOption { name, values } => AdjustmentView::ListOption {
                name: name@,
                values: values@.map_values(|v: &'static str| v@),
            },
        }
    }
}

/// The user agent that sessions present.
pub open spec fn user_agent_argument() -> Seq<char> {
    "user-agent=Mozilla/5.0 (Windows NT 10.0; Win64; x64) AppleWebKit/537.36 (KHTML, like Gecko) Chrome/122.0.6261.111 Safari/537.36"@
}

/// The fixed adjustments, in the order in which they are applied.
pub open spec fn standard_adjustments() -> Seq<AdjustmentView> {
    seq![
        AdjustmentView::NoSandbox,
        AdjustmentView::DisableDevShmUsage,
        AdjustmentView::Argument("--disable-blink-features=AutomationControlled"@),
        AdjustmentView::Argument("window-size=1920,1080"@),
        AdjustmentView::Argument(user_agent_argument()),
        AdjustmentView::Argument("disable-infobars"@),
        AdjustmentView::ListOption { name: "excludeSwitches"@, values: seq!["enable-automation"@] },
    ]
}

/// The adjustments as sequences of characters.
pub open spec fn adjustment_views(adjustments: Seq<Adjustment>) -> Seq<AdjustmentView> {
    adjustments.map_values(|a: Adjustment| a@)
}

/// The fixed adjustments, in the order in which they are applied.
pub fn adjustments() -> (r: Vec<Adjustment>)
    ensures
        adjustment_views(r@) == standard_adjustments(),
{
    let mut switches: Vec<&'static str> = Vec::new();
    switches.push("enable-automation");
    let mut out: Vec<Adjustment> = Vec::new();
    out.push(Adjustment::NoSandbox);
    out.push(Adjustment::DisableDevShmUsage);
    out.push(Adjustment::Argument("--disable-blink-features=AutomationControlled"));
    out.push(Adjustment::Argument("window-size=1920,1080"));
    out.push(
        Adjustment::Argument(
            "user-agent=Mozilla/5.0 (Windows NT 10.0; Win64; x64) AppleWebKit/537.36 (KHTML, like Gecko) Chrome/122.0.6261.111 Safari/537.36",
        ),
    );
    out.push(Adjustment::Argument("disable-infobars"));
    out.push(Adjustment::ListOption { name: "excludeSwitches", values: switches });
    proof {
        let views = adjustment_views(out@);
        assert(out@[6]@ matches AdjustmentView::ListOption { name, values } && values
            =~= seq!["enable-automation"@]);
        assert(views =~= standard_adjustments());
    }
    out
}

} // verus!
