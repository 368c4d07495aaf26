use bmp_editor::color::Rgba;
use bmp_editor::editor::{App, AppMessage, PixelInfo};
use bmp_editor::image::{create_image, get_pixel};
use bmp_editor::render::{PixelCoord, PixelRedrawRange};
use bmp_editor::tools::ToolsTypes;

fn white() -> Rgba {
    Rgba { r: 255, g: 255, b: 255, a: 255 }
}

fn black() -> Rgba {
    Rgba { r: 0, g: 0, b: 0, a: 255 }
}

fn app_with_image(height: u32, width: u32) -> App {
    let mut app = App::create();
    assert!(app.update(AppMessage::NewBMP(create_image(height, width))));
    app
}

fn pixel(app: &App, x: u16, y: u16) -> Rgba {
    get_pixel(app.current_bmp.as_ref().unwrap(), x, y).unwrap()
}

#[test]
fn fresh_editor_state() {
    let app = App::create();
    assert!(app.current_bmp.is_none());
    assert_eq!(app.selected_tool, ToolsTypes::NoneSelected);
    assert_eq!(app.tool_color, white());
    assert!(!app.show_create && !app.show_load && !app.show_pixel_info && !app.show_image_actions);
    assert!(app.should_redraw);
    assert_eq!(app.only_redraw_coords, PixelRedrawRange::Empty);
    assert!(app.pixel_info.is_none());
    assert_eq!(app.last_diff.len(), 0);
}

#[test]
fn create_and_load_show_their_dialogs() {
    let mut app = App::create();
    assert!(app.update(AppMessage::Create));
    assert!(app.show_create);
    assert!(app.update(AppMessage::Load));
    assert!(app.show_load);
}

#[test]
fn new_image_swaps_dialogs_for_the_editing_surface() {
    let app = app_with_image(2, 2);
    assert!(!app.show_create && !app.show_load);
    assert!(app.show_image_actions);
    assert!(app.current_bmp.is_some());
}

#[test]
fn click_fill_scenario_paints_one_pixel() {
    // Create a 2x2 white image, select ClickFill with black, click (0, 1).
    let mut app = app_with_image(2, 2);
    assert!(app.update(AppMessage::ToolSelected(ToolsTypes::ClickFill)));
    app.update(AppMessage::ChangeToolColor(black()));
    assert!(app.update(AppMessage::PixelClicked(0, 1)));

    assert_eq!(pixel(&app, 0, 1), black());
    assert_eq!(pixel(&app, 0, 0), white());
    assert_eq!(pixel(&app, 1, 0), white());
    assert_eq!(pixel(&app, 1, 1), white());
    assert_eq!(
        app.only_redraw_coords,
        PixelRedrawRange::Point(PixelCoord { x: 0, y: 1 })
    );
    assert!(app.should_redraw);
    // The recorded pixel info holds the color the pixel had before the fill.
    assert_eq!(
        app.pixel_info,
        Some(PixelInfo { color: white(), coords: PixelCoord { x: 0, y: 1 } })
    );
    assert_eq!(app.last_diff.len(), 1);
}

#[test]
fn undo_restores_the_prior_pixel_color() {
    // Edit (0, 0) from white to black, then undo: the exact prior color is back.
    let mut app = app_with_image(2, 2);
    app.update(AppMessage::ToolSelected(ToolsTypes::ClickFill));
    app.update(AppMessage::ChangeToolColor(black()));
    app.update(AppMessage::PixelClicked(0, 0));
    assert_eq!(pixel(&app, 0, 0), black());

    assert!(app.update(AppMessage::Undo));
    assert_eq!(pixel(&app, 0, 0), white());
    assert_eq!(pixel(&app, 0, 1), white());
    assert_eq!(pixel(&app, 1, 0), white());
    assert_eq!(pixel(&app, 1, 1), white());
    assert_eq!(app.last_diff.len(), 0);
    assert!(app.should_redraw);
    assert_eq!(app.only_redraw_coords, PixelRedrawRange::Empty);
}

#[test]
fn undo_on_empty_history_is_a_no_op() {
    let mut app = app_with_image(2, 2);
    let tool = app.selected_tool;
    assert!(!app.update(AppMessage::Undo));
    assert_eq!(app.selected_tool, tool);
    assert_eq!(app.last_diff.len(), 0);
    assert_eq!(pixel(&app, 0, 0), white());
    assert_eq!(app.only_redraw_coords, PixelRedrawRange::Empty);
}

#[test]
fn undo_skips_a_diff_recorded_for_another_image_size() {
    let mut app = app_with_image(2, 2);
    app.update(AppMessage::ToolSelected(ToolsTypes::ClickFill));
    app.update(AppMessage::ChangeToolColor(black()));
    app.update(AppMessage::PixelClicked(0, 0));
    assert_eq!(app.last_diff.len(), 1);
    // Replace the image: the recorded diff no longer fits the new size.
    assert!(app.update(AppMessage::NewBMP(create_image(3, 3))));
    assert!(app.update(AppMessage::Undo));
    assert_eq!(app.last_diff.len(), 0);
    for y in 0..3 {
        for x in 0..3 {
            assert_eq!(pixel(&app, x, y), white());
        }
    }
}

#[test]
fn line_edit_narrows_the_redraw_range() {
    // Draw a line from (0, 0) to (1, 1) on a 3x3 image.
    let mut app = app_with_image(3, 3);
    app.update(AppMessage::ToolSelected(ToolsTypes::Line));
    app.update(AppMessage::ChangeToolColor(black()));
    assert!(app.update(AppMessage::DrawLine((0, 0), (1, 1))));

    assert_eq!(
        app.only_redraw_coords,
        PixelRedrawRange::Rect(PixelCoord { x: 0, y: 0 }, PixelCoord { x: 1, y: 1 })
    );
    assert!(app.only_redraw_coords.is_not_empty());
    assert_eq!(pixel(&app, 0, 0), black());
    assert_eq!(pixel(&app, 1, 1), black());
    assert_eq!(pixel(&app, 2, 0), white());
    assert_eq!(pixel(&app, 0, 2), white());
    assert_eq!(pixel(&app, 2, 2), white());
    assert_eq!(app.last_diff.len(), 1);
}

#[test]
fn line_endpoints_in_either_order_are_normalized() {
    let mut app = app_with_image(3, 3);
    app.update(AppMessage::ToolSelected(ToolsTypes::Line));
    app.update(AppMessage::ChangeToolColor(black()));
    assert!(app.update(AppMessage::DrawLine((2, 2), (1, 1))));
    assert_eq!(
        app.only_redraw_coords,
        PixelRedrawRange::Rect(PixelCoord { x: 1, y: 1 }, PixelCoord { x: 2, y: 2 })
    );
}

#[test]
fn out_of_bounds_line_is_ignored() {
    let mut app = app_with_image(3, 3);
    app.update(AppMessage::ToolSelected(ToolsTypes::Line));
    assert!(!app.update(AppMessage::DrawLine((0, 0), (5, 5))));
    assert_eq!(app.last_diff.len(), 0);
}

#[test]
fn bucket_fill_floods_connected_pixels() {
    let mut app = app_with_image(2, 2);
    app.update(AppMessage::ToolSelected(ToolsTypes::BucketFill));
    app.update(AppMessage::ChangeToolColor(black()));
    assert!(app.update(AppMessage::PixelClicked(1, 1)));
    for y in 0..2 {
        for x in 0..2 {
            assert_eq!(pixel(&app, x, y), black());
        }
    }
    assert_eq!(app.only_redraw_coords, PixelRedrawRange::Empty);
    assert!(app.should_redraw);
}

#[test]
fn change_selected_pixel_recolors_the_clicked_pixel() {
    let mut app = app_with_image(2, 2);
    // A plain click with no fill tool only records the pixel.
    assert!(app.update(AppMessage::PixelClicked(1, 0)));
    assert_eq!(pixel(&app, 1, 0), white());
    assert!(!app.should_redraw);
    // The pixel panel then submits a new color for it.
    let red = Rgba { r: 200, g: 0, b: 0, a: 255 };
    assert!(app.update(AppMessage::ChangeSelectedPixel(red)));
    assert_eq!(pixel(&app, 1, 0), red);
    assert_eq!(
        app.only_redraw_coords,
        PixelRedrawRange::Point(PixelCoord { x: 1, y: 0 })
    );
}

#[test]
fn clicks_outside_the_image_are_ignored() {
    let mut app = app_with_image(2, 2);
    assert!(!app.update(AppMessage::PixelClicked(2, 0)));
    assert!(!app.update(AppMessage::PixelClicked(0, 2)));
    assert!(app.pixel_info.is_none());
    assert_eq!(app.last_diff.len(), 0);
}

#[test]
fn actions_without_an_image_are_no_ops() {
    let mut app = App::create();
    assert!(!app.update(AppMessage::PixelClicked(0, 0)));
    assert!(!app.update(AppMessage::Filter(String::from("invert"))));
    assert!(!app.update(AppMessage::DrawLine((0, 0), (1, 1))));
    assert!(!app.update(AppMessage::Undo));
    assert!(app.current_bmp.is_none());
}

#[test]
fn invert_filter_flips_every_channel() {
    let mut app = app_with_image(2, 2);
    assert!(app.update(AppMessage::Filter(String::from("invert"))));
    for y in 0..2 {
        for x in 0..2 {
            assert_eq!(pixel(&app, x, y), Rgba { r: 0, g: 0, b: 0, a: 255 });
        }
    }
    assert_eq!(app.last_diff.len(), 1);
    // Inverting twice returns to white.
    assert!(app.update(AppMessage::Filter(String::from("invert"))));
    assert_eq!(pixel(&app, 0, 0), white());
    assert_eq!(app.last_diff.len(), 2);
}

#[test]
fn greyscale_filter_averages_to_one_grey_level() {
    let mut app = app_with_image(2, 2);
    app.update(AppMessage::ToolSelected(ToolsTypes::ClickFill));
    app.update(AppMessage::ChangeToolColor(Rgba { r: 100, g: 150, b: 200, a: 255 }));
    app.update(AppMessage::PixelClicked(0, 0));
    assert!(app.update(AppMessage::Filter(String::from("greyscale"))));
    // 0.2126 * 100 + 0.7152 * 150 + 0.0722 * 200, rounded.
    assert_eq!(pixel(&app, 0, 0), Rgba { r: 143, g: 143, b: 143, a: 255 });
    assert_eq!(pixel(&app, 1, 1), white());
}

#[test]
fn unknown_filter_does_nothing() {
    let mut app = app_with_image(2, 2);
    assert!(!app.update(AppMessage::Filter(String::from("sepia"))));
    assert_eq!(pixel(&app, 0, 0), white());
    assert_eq!(app.last_diff.len(), 0);
}

#[test]
fn rect_edit_paints_between_its_corners() {
    let mut app = app_with_image(4, 4);
    app.update(AppMessage::ToolSelected(ToolsTypes::Rect));
    app.update(AppMessage::ChangeToolColor(black()));
    assert!(app.update(AppMessage::DrawRect((0, 0), (2, 2))));
    assert_eq!(pixel(&app, 0, 0), black());
    assert_eq!(pixel(&app, 1, 1), black());
    assert_eq!(pixel(&app, 2, 2), black());
    assert_eq!(pixel(&app, 3, 0), white());
    assert_eq!(pixel(&app, 0, 3), white());
    assert_eq!(pixel(&app, 3, 3), white());
    assert_eq!(
        app.only_redraw_coords,
        PixelRedrawRange::Rect(PixelCoord { x: 0, y: 0 }, PixelCoord { x: 2, y: 2 })
    );
}

#[test]
fn degenerate_rect_is_ignored() {
    let mut app = app_with_image(4, 4);
    app.update(AppMessage::ToolSelected(ToolsTypes::Rect));
    assert!(!app.update(AppMessage::DrawRect((1, 1), (1, 1))));
    assert!(!app.update(AppMessage::DrawRect((2, 2), (1, 1))));
    // One pixel wide or tall is rejected too: the shape library's fill
    // bounds wrap on such rectangles.
    assert!(!app.update(AppMessage::DrawRect((0, 0), (1, 3))));
    assert!(!app.update(AppMessage::DrawRect((0, 0), (3, 1))));
    assert_eq!(app.last_diff.len(), 0);
    assert_eq!(pixel(&app, 0, 0), white());
}

#[test]
fn ellipse_edit_stays_inside_its_bounding_box() {
    let mut app = app_with_image(5, 5);
    app.update(AppMessage::ToolSelected(ToolsTypes::Ellipse));
    app.update(AppMessage::ChangeToolColor(black()));
    assert!(app.update(AppMessage::DrawEllipse((2, 2), (1, 1))));
    assert_eq!(pixel(&app, 2, 1), black());
    assert_eq!(pixel(&app, 2, 3), black());
    assert_eq!(pixel(&app, 1, 2), black());
    assert_eq!(pixel(&app, 3, 2), black());
    assert_eq!(pixel(&app, 0, 0), white());
    assert_eq!(pixel(&app, 4, 4), white());
    assert_eq!(app.only_redraw_coords, PixelRedrawRange::Empty);
}

#[test]
fn ellipse_reaching_outside_the_image_is_ignored() {
    let mut app = app_with_image(5, 5);
    app.update(AppMessage::ToolSelected(ToolsTypes::Ellipse));
    assert!(!app.update(AppMessage::DrawEllipse((0, 0), (1, 1))));
    assert!(!app.update(AppMessage::DrawEllipse((4, 4), (1, 1))));
    assert_eq!(app.last_diff.len(), 0);
}

#[test]
fn blur_requires_a_blur_tool_and_a_sane_radius() {
    let mut app = app_with_image(3, 3);
    assert!(!app.update(AppMessage::Blur(3)));
    app.update(AppMessage::ToolSelected(ToolsTypes::Gaussian));
    assert!(!app.update(AppMessage::Blur(0)));
    assert!(app.update(AppMessage::Blur(3)));
    assert_eq!(app.last_diff.len(), 1);
    app.update(AppMessage::ToolSelected(ToolsTypes::Box));
    assert!(app.update(AppMessage::Blur(3)));
    assert!(!app.update(AppMessage::Blur(17)));
    assert_eq!(app.last_diff.len(), 2);
}

#[test]
fn change_pixels_recolors_exactly_the_listed_pixels() {
    let mut app = app_with_image(2, 2);
    assert!(app.update(AppMessage::ChangePixels(vec![(0, 0), (1, 1)], black())));
    assert_eq!(pixel(&app, 0, 0), black());
    assert_eq!(pixel(&app, 1, 1), black());
    assert_eq!(pixel(&app, 0, 1), white());
    assert_eq!(pixel(&app, 1, 0), white());
    assert_eq!(app.last_diff.len(), 1);
}

#[test]
fn change_pixels_serves_large_images() {
    let mut app = app_with_image(200, 200);
    assert!(app.update(AppMessage::ChangePixels(vec![(0, 0), (199, 199)], black())));
    assert_eq!(pixel(&app, 0, 0), black());
    assert_eq!(pixel(&app, 199, 199), black());
    assert_eq!(pixel(&app, 199, 0), white());
    assert_eq!(pixel(&app, 100, 100), white());
    assert_eq!(app.last_diff.len(), 1);
}

#[test]
fn change_pixels_with_an_out_of_bounds_coordinate_is_ignored() {
    let mut app = app_with_image(2, 2);
    assert!(!app.update(AppMessage::ChangePixels(vec![(0, 0), (5, 5)], black())));
    assert_eq!(pixel(&app, 0, 0), white());
    assert_eq!(app.last_diff.len(), 0);
}

#[test]
fn eleven_edits_then_undo_reverts_the_eleventh() {
    let mut app = app_with_image(2, 2);
    app.update(AppMessage::ToolSelected(ToolsTypes::ClickFill));
    for k in 1..=11u8 {
        app.update(AppMessage::ChangeToolColor(Rgba { r: k, g: 0, b: 0, a: 255 }));
        app.update(AppMessage::PixelClicked(0, 0));
    }
    assert_eq!(app.last_diff.len(), 10);
    assert_eq!(pixel(&app, 0, 0), Rgba { r: 11, g: 0, b: 0, a: 255 });
    assert!(app.update(AppMessage::Undo));
    assert_eq!(pixel(&app, 0, 0), Rgba { r: 10, g: 0, b: 0, a: 255 });
    assert_eq!(app.last_diff.len(), 9);
}

#[test]
fn key_down_selects_tools_directly() {
    let mut app = app_with_image(2, 2);
    assert!(app.key_down("c", false));
    assert_eq!(app.selected_tool, ToolsTypes::ClickFill);
    assert!(app.key_down("g", false));
    assert_eq!(app.selected_tool, ToolsTypes::Greyscale);
    assert!(!app.key_down("x", false));
    assert_eq!(app.selected_tool, ToolsTypes::Greyscale);
}

#[test]
fn key_down_cycles_through_the_tool_order() {
    let mut app = app_with_image(2, 2);
    assert_eq!(app.selected_tool, ToolsTypes::NoneSelected);
    assert!(app.key_down("]", false));
    assert_eq!(app.selected_tool, ToolsTypes::ClickFill);
    assert!(app.key_down("[", false));
    assert_eq!(app.selected_tool, ToolsTypes::NoneSelected);
    assert!(app.key_down("[", false));
    assert_eq!(app.selected_tool, ToolsTypes::Box);
}

#[test]
fn ctrl_z_undoes_the_last_edit() {
    let mut app = app_with_image(2, 2);
    app.update(AppMessage::ToolSelected(ToolsTypes::ClickFill));
    app.update(AppMessage::ChangeToolColor(black()));
    app.update(AppMessage::PixelClicked(0, 0));
    assert_eq!(pixel(&app, 0, 0), black());
    assert!(app.key_down("z", true));
    assert_eq!(pixel(&app, 0, 0), white());
    // Plain "z" is unbound and does nothing.
    assert!(!app.key_down("z", false));
}

#[test]
fn tool_and_color_changes_do_not_touch_the_image() {
    let mut app = app_with_image(2, 2);
    assert!(app.update(AppMessage::ToolSelected(ToolsTypes::Invert)));
    assert!(!app.should_redraw);
    assert!(!app.update(AppMessage::ChangeToolColor(black())));
    assert_eq!(app.tool_color, black());
    assert_eq!(pixel(&app, 0, 0), white());
    assert_eq!(app.last_diff.len(), 0);
}
