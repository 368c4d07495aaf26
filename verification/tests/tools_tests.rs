use bmp_editor::tools::{select_values, ToolsTypes};

fn all_tools() -> Vec<ToolsTypes> {
    vec![
        ToolsTypes::NoneSelected,
        ToolsTypes::ClickFill,
        ToolsTypes::BucketFill,
        ToolsTypes::Line,
        ToolsTypes::Rect,
        ToolsTypes::Ellipse,
        ToolsTypes::Invert,
        ToolsTypes::Greyscale,
        ToolsTypes::Gaussian,
        ToolsTypes::Box,
    ]
}

#[test]
fn cycle_round_trip_from_every_tool() {
    for t in all_tools() {
        assert_eq!(t.next_tool().previous_tool(), t);
        assert_eq!(t.previous_tool().next_tool(), t);
    }
}

#[test]
fn cycle_walks_the_fixed_order() {
    let order = all_tools();
    for i in 0..order.len() {
        let next = order[(i + 1) % order.len()];
        assert_eq!(order[i].next_tool(), next);
        assert_eq!(next.previous_tool(), order[i]);
    }
}

#[test]
fn cycle_wraps_at_both_ends() {
    assert_eq!(ToolsTypes::Box.next_tool(), ToolsTypes::NoneSelected);
    assert_eq!(ToolsTypes::NoneSelected.previous_tool(), ToolsTypes::Box);
}

#[test]
fn select_ids_name_the_groups() {
    assert_eq!(ToolsTypes::NoneSelected.get_select_id(), "none");
    assert_eq!(ToolsTypes::ClickFill.get_select_id(), "fills");
    assert_eq!(ToolsTypes::BucketFill.get_select_id(), "fills");
    assert_eq!(ToolsTypes::Line.get_select_id(), "shapes");
    assert_eq!(ToolsTypes::Rect.get_select_id(), "shapes");
    assert_eq!(ToolsTypes::Ellipse.get_select_id(), "shapes");
    assert_eq!(ToolsTypes::Invert.get_select_id(), "filters");
    assert_eq!(ToolsTypes::Greyscale.get_select_id(), "filters");
    assert_eq!(ToolsTypes::Gaussian.get_select_id(), "filters");
    assert_eq!(ToolsTypes::Box.get_select_id(), "filters");
}

#[test]
fn option_values_match_the_controls() {
    assert_eq!(ToolsTypes::NoneSelected.as_str(), "none-selected");
    assert_eq!(ToolsTypes::ClickFill.as_str(), "click-fill");
    assert_eq!(ToolsTypes::BucketFill.as_str(), "bucket-fill");
    assert_eq!(ToolsTypes::Invert.as_str(), "invert");
    assert_eq!(ToolsTypes::Line.as_str(), "line");
    assert_eq!(ToolsTypes::Rect.as_str(), "rect");
    assert_eq!(ToolsTypes::Ellipse.as_str(), "ellipse");
    assert_eq!(ToolsTypes::Greyscale.as_str(), "greyscale");
    assert_eq!(ToolsTypes::Gaussian.as_str(), "gaussian");
    assert_eq!(ToolsTypes::Box.as_str(), "box");
}

#[test]
fn select_sync_highlights_only_the_tools_group() {
    let v = select_values(ToolsTypes::ClickFill);
    assert_eq!(v.fills, "click-fill");
    assert_eq!(v.shapes, "none-selected");
    assert_eq!(v.filters, "none-selected");

    let v = select_values(ToolsTypes::Line);
    assert_eq!(v.fills, "none-selected");
    assert_eq!(v.shapes, "line");
    assert_eq!(v.filters, "none-selected");

    let v = select_values(ToolsTypes::Gaussian);
    assert_eq!(v.fills, "none-selected");
    assert_eq!(v.shapes, "none-selected");
    assert_eq!(v.filters, "gaussian");

    // The filters control really can reflect the greyscale tool.
    let v = select_values(ToolsTypes::Greyscale);
    assert_eq!(v.fills, "none-selected");
    assert_eq!(v.shapes, "none-selected");
    assert_eq!(v.filters, "greyscale");

    let v = select_values(ToolsTypes::NoneSelected);
    assert_eq!(v.fills, "none-selected");
    assert_eq!(v.shapes, "none-selected");
    assert_eq!(v.filters, "none-selected");
}
