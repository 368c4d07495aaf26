//! The tool-selection state machine: the closed set of editing tools, the
//! UI group each tool belongs to, and cyclic next/previous transitions over
//! the fixed tool order used by keyboard shortcuts.

use vstd::prelude::*;

verus! {

/// Every editing tool the toolbox offers.
#[derive(Clone, Copy, PartialEq, Eq, Structural, Debug)]
pub enum ToolsTypes {
    NoneSelected,
    ClickFill,
    BucketFill,
    Invert,
    Line,
    Rect,
    Ellipse,
    Greyscale,
    Gaussian,
    Box,
}

/// The fixed cyclic order of the tools, as keyboard cycling walks it.
/// `NoneSelected` sits at ordinal 0; filters follow the shapes.
pub open spec fn spec_ordinal(t: ToolsTypes) -> int {
    match t {
        ToolsTypes::NoneSelected => 0,
        ToolsTypes::ClickFill => 1,
        ToolsTypes::BucketFill => 2,
        ToolsTypes::Line => 3,
        ToolsTypes::Rect => 4,
        ToolsTypes::Ellipse => 5,
        ToolsTypes::Invert => 6,
        ToolsTypes::Greyscale => 7,
        ToolsTypes::Gaussian => 8,
        ToolsTypes::Box => 9,
    }
}

/// The tool standing at a given ordinal of the cycle.
pub open spec fn spec_tool_at(i: int) -> ToolsTypes {
    if i == 0 {
        ToolsTypes::NoneSelected
    } else if i == 1 {
        ToolsTypes::ClickFill
    } else if i == 2 {
        ToolsTypes::BucketFill
    } else if i == 3 {
        ToolsTypes::Line
    } else if i == 4 {
        ToolsTypes::Rect
    } else if i == 5 {
        ToolsTypes::Ellipse
    } else if i == 6 {
        ToolsTypes::Invert
    } else if i == 7 {
        ToolsTypes::Greyscale
    } else if i == 8 {
        ToolsTypes::Gaussian
    } else {
        ToolsTypes::Box
    }
}

/// The tool one step forward in the cycle, wrapping after the last.
pub open spec fn spec_next_tool(t: ToolsTypes) -> ToolsTypes {
    spec_tool_at((spec_ordinal(t) + 1) % 10)
}

/// The tool one step backward in the cycle, wrapping before the first.
pub open spec fn spec_previous_tool(t: ToolsTypes) -> ToolsTypes {
    spec_tool_at((spec_ordinal(t) + 9) % 10)
}

impl ToolsTypes {
    /// The identifier of the selection control group this tool belongs to.
    pub open spec fn spec_select_id(self) -> Seq<char> {
        match self {
            ToolsTypes::NoneSelected => "none"@,
            ToolsTypes::ClickFill => "fills"@,
            ToolsTypes::BucketFill => "fills"@,
            ToolsTypes::Invert => "filters"@,
            ToolsTypes::Line => "shapes"@,
            ToolsTypes::Rect => "shapes"@,
            ToolsTypes::Ellipse => "shapes"@,
            ToolsTypes::Greyscale => "filters"@,
            ToolsTypes::Gaussian => "filters"@,
            ToolsTypes::Box => "filters"@,
        }
    }

    pub fn get_select_id(&self) -> (r: &'static str)
        ensures
            r@ == self.spec_select_id(),
    {
        match self {
            ToolsTypes::NoneSelected => "none",
            ToolsTypes::ClickFill => "fills",
            ToolsTypes::BucketFill => "fills",
            ToolsTypes::Invert => "filters",
            ToolsTypes::Line => "shapes",
            ToolsTypes::Rect => "shapes",
            ToolsTypes::Ellipse => "shapes",
            ToolsTypes::Greyscale => "filters",
            ToolsTypes::Gaussian => "filters",
            ToolsTypes::Box => "filters",
        }
    }

    /// The option value a selection control shows for this tool.
    pub open spec fn spec_value(self) -> Seq<char> {
        match self {
            ToolsTypes::NoneSelected => "none-selected"@,
            ToolsTypes::ClickFill => "click-fill"@,
            ToolsTypes::BucketFill => "bucket-fill"@,
            ToolsTypes::Invert => "invert"@,
            ToolsTypes::Line => "line"@,
            ToolsTypes::Rect => "rect"@,
            ToolsTypes::Ellipse => "ellipse"@,
            ToolsTypes::Greyscale => "greyscale"@,
            ToolsTypes::Gaussian => "gaussian"@,
            ToolsTypes::Box => "box"@,
        }
    }

    pub fn as_str(&self) -> (r: &'static str)
        ensures
            r@ == self.spec_value(),
    {
        match self {
            ToolsTypes::NoneSelected => "none-selected",
            ToolsTypes::ClickFill => "click-fill",
            ToolsTypes::BucketFill => "bucket-fill",
            ToolsTypes::Invert => "invert",
            ToolsTypes::Line => "line",
            ToolsTypes::Rect => "rect",
            ToolsTypes::Ellipse => "ellipse",
            ToolsTypes::Greyscale => "greyscale",
            ToolsTypes::Gaussian => "gaussian",
            ToolsTypes::Box => "box",
        }
    }

    pub fn next_tool(self) -> (t: ToolsTypes)
        ensures
            t == spec_next_tool(self),
    {
        match self {
            ToolsTypes::NoneSelected => ToolsTypes::ClickFill,
            ToolsTypes::ClickFill => ToolsTypes::BucketFill,
            ToolsTypes::BucketFill => ToolsTypes::Line,
            ToolsTypes::Line => ToolsTypes::Rect,
            ToolsTypes::Rect => ToolsTypes::Ellipse,
            ToolsTypes::Ellipse => ToolsTypes::Invert,
            ToolsTypes::Invert => ToolsTypes::Greyscale,
            ToolsTypes::Greyscale => ToolsTypes::Gaussian,
            ToolsTypes::Gaussian => ToolsTypes::Box,
            ToolsTypes::Box => ToolsTypes::NoneSelected,
        }
    }

    pub fn previous_tool(self) -> (t: ToolsTypes)
        ensures
            t == spec_previous_tool(self),
    {
        match self {
            ToolsTypes::NoneSelected => ToolsTypes::Box,
            ToolsTypes::ClickFill => ToolsTypes::NoneSelected,
            ToolsTypes::BucketFill => ToolsTypes::ClickFill,
            ToolsTypes::Line => ToolsTypes::BucketFill,
            ToolsTypes::Rect => ToolsTypes::Line,
            ToolsTypes::Ellipse => ToolsTypes::Rect,
            ToolsTypes::Invert => ToolsTypes::Ellipse,
            ToolsTypes::Greyscale => ToolsTypes::Invert,
            ToolsTypes::Gaussian => ToolsTypes::Greyscale,
            ToolsTypes::Box => ToolsTypes::Gaussian,
        }
    }
}

/// Cycling one step forward and then one step backward returns to the
/// starting tool, and the other way round: the two transitions are inverse
/// on every tool.
pub proof fn lemma_cycle_round_trip(t: ToolsTypes)
    ensures
        spec_previous_tool(spec_next_tool(t)) == t,
        spec_next_tool(spec_previous_tool(t)) == t,
{
}

/// The values the three tool selection controls show after synchronizing
/// to a tool.
pub struct SelectValues {
    pub fills: &'static str,
    pub shapes: &'static str,
    pub filters: &'static str,
}

/// Synchronizes the selection controls to a tool: every group's control
/// shows the neutral placeholder, except the control of the group the tool
/// belongs to, which shows the tool's own option value.
pub fn select_values(tool: ToolsTypes) -> (r: SelectValues)
    ensures
        r.fills@ == if tool.spec_select_id() == "fills"@ {
            tool.spec_value()
        } else {
            "none-selected"@
        },
        r.shapes@ == if tool.spec_select_id() == "shapes"@ {
            tool.spec_value()
        } else {
            "none-selected"@
        },
        r.filters@ == if tool.spec_select_id() == "filters"@ {
            tool.spec_value()
        } else {
            "none-selected"@
        },
{
    proof {
        reveal_strlit("none");
        reveal_strlit("fills");
        reveal_strlit("shapes");
        reveal_strlit("filters");
        assert("none"@.len() == 4);
        assert("fills"@.len() == 5);
        assert("shapes"@.len() == 6);
        assert("filters"@.len() == 7);
    }
    let id = tool.get_select_id();
    let value = tool.as_str();
    if crate::keybinds::str_eq(id, "fills") {
        SelectValues { fills: value, shapes: "none-selected", filters: "none-selected" }
    } else if crate::keybinds::str_eq(id, "shapes") {
        SelectValues { fills: "none-selected", shapes: value, filters: "none-selected" }
    } else if crate::keybinds::str_eq(id, "filters") {
        SelectValues { fills: "none-selected", shapes: "none-selected", filters: value }
    } else {
        SelectValues {
            fills: "none-selected",
            shapes: "none-selected",
            filters: "none-selected",
        }
    }
}

} // verus!
