//! The editor controller: the single owner of the current image, the
//! selected tool and color, the last clicked pixel, the undo history and
//! the redraw directive. Every user action arrives as one message; handling
//! a message resets the redraw directive, dispatches to the image library
//! or the tool machine, records a diff for every image edit before
//! committing the new image, and narrows the redraw directive when the
//! edit's footprint is known.

use crate::color::Rgba;
use crate::image::{
    box_blur_raw, box_of, clone_image, contains_coord, diff_exact, diff_images,
    draw_ellipse_raw, draw_line_raw, draw_rect_raw, ellipse_raster, fill_bucket_raw,
    flood_region_of, gaussian_blur_raw, gaussian_of, grey_level, greyscale_raw, image_dims,
    image_pixels, image_size, image_valid, in_span, invert_raw, line_direction_ok, line_raster,
    read_pixel, rect_raster, set_pixel_raw,
};
use crate::keybinds::{
    dispatch_keydown, default_keybinds, spec_chord, spec_default_binds, spec_lookup,
    KeybindActions, KeybindTable,
};
use crate::render::{PixelCoord, PixelRedrawRange};
use crate::tools::{spec_next_tool, spec_previous_tool, ToolsTypes};
use crate::undo::{apply_befores, apply_diff_befores, spec_push, Diff, UndoHistory};
use bmp_rust::bmp::BMP;
use vstd::prelude::*;

verus! {

/// The last pixel the user clicked: its coordinate and the color it had at
/// that moment. Never cleared, only replaced.
#[derive(Clone, Copy, PartialEq, Eq, Structural, Debug)]
pub struct PixelInfo {
    pub color: Rgba,
    pub coords: PixelCoord,
}

/// Every action the editor reacts to.
pub enum AppMessage {
    Create,
    Load,
    NewBMP(BMP),
    PixelClicked(u16, u16),
    ChangePixels(Vec<(u16, u16)>, Rgba),
    ChangeSelectedPixel(Rgba),
    ToolSelected(ToolsTypes),
    FillBucket(Rgba),
    ChangeToolColor(Rgba),
    Filter(String),
    DrawLine((u16, u16), (u16, u16)),
    DrawRect((u16, u16), (u16, u16)),
    DrawEllipse((u16, u16), (u16, u16)),
    Blur(u8),
    Undo,
}

/// The whole editor state.
pub struct App {
    pub current_bmp: Option<BMP>,
    pub selected_tool: ToolsTypes,
    pub tool_color: Rgba,
    pub show_create: bool,
    pub show_load: bool,
    pub show_pixel_info: bool,
    pub show_image_actions: bool,
    pub should_redraw: bool,
    pub only_redraw_coords: PixelRedrawRange,
    pub pixel_info: Option<PixelInfo>,
    pub last_diff: UndoHistory,
    pub keybinds: KeybindTable,
}

/// The smaller of two pixel coordinates.
pub open spec fn min16(a: u16, b: u16) -> u16 {
    if a <= b {
        a
    } else {
        b
    }
}

/// The larger of two pixel coordinates.
pub open spec fn max16(a: u16, b: u16) -> u16 {
    if a <= b {
        b
    } else {
        a
    }
}

impl App {
    /// What every verified operation on the editor preserves: a present
    /// image is valid, the history is within its bound and holds only
    /// well-formed diffs, and the keybind chords are unique.
    pub open spec fn inv(self) -> bool {
        &&& (self.current_bmp matches Some(b) ==> image_valid(b))
        &&& self.last_diff.wf()
        &&& self.keybinds.wf()
    }
}

/// The message does not carry an unusable image: an image handed in by the
/// create or load dialogs must be a valid editor image.
pub open spec fn msg_ok(msg: AppMessage) -> bool {
    msg matches AppMessage::NewBMP(b) ==> image_valid(b)
}

/// Nothing changed but the redraw directive, which every action resets.
pub open spec fn no_op(pre: App, post: App) -> bool {
    post == (App { only_redraw_coords: PixelRedrawRange::Empty, ..pre })
}

pub open spec fn same_tools(pre: App, post: App) -> bool {
    post.selected_tool == pre.selected_tool && post.tool_color == pre.tool_color
}

pub open spec fn same_dialogs(pre: App, post: App) -> bool {
    &&& post.show_create == pre.show_create
    &&& post.show_load == pre.show_load
    &&& post.show_image_actions == pre.show_image_actions
}

pub open spec fn same_pixel_panel(pre: App, post: App) -> bool {
    post.show_pixel_info == pre.show_pixel_info && post.pixel_info == pre.pixel_info
}

pub open spec fn same_keybinds(pre: App, post: App) -> bool {
    post.keybinds.entries@ == pre.keybinds.entries@
}

/// What committing one image edit leaves behind: the image is replaced by
/// a new one of the same size, the exact per-pixel diff from the old image
/// to the new one is appended to the history (evicting the oldest entry if
/// it was full), and the canvas is marked for repaint. Tools, dialogs and
/// keybinds are untouched.
pub open spec fn edit_committed(pre: App, post: App) -> bool {
    pre.current_bmp matches Some(pb) && post.current_bmp matches Some(nb) && {
        let d = post.last_diff.diffs@.last();
        &&& image_valid(nb)
        &&& image_dims(nb) == image_dims(pb)
        &&& post.last_diff.diffs@.len() >= 1
        &&& d.size1 == image_dims(pb)
        &&& d.size2 == image_dims(pb)
        &&& diff_exact(
            d.entries@,
            image_pixels(pb),
            image_pixels(nb),
            image_dims(pb).0 as int,
            image_dims(pb).1 as int,
        )
        &&& post.last_diff.diffs@ == spec_push(pre.last_diff.diffs@, d)
        &&& post.should_redraw
        &&& same_tools(pre, post)
        &&& same_dialogs(pre, post)
        &&& same_keybinds(pre, post)
    }
}

pub open spec fn step_create(pre: App, post: App, r: bool) -> bool {
    &&& post == (App {
        show_create: true,
        only_redraw_coords: PixelRedrawRange::Empty,
        ..pre
    })
    &&& r
}

pub open spec fn step_load(pre: App, post: App, r: bool) -> bool {
    &&& post == (App { show_load: true, only_redraw_coords: PixelRedrawRange::Empty, ..pre })
    &&& r
}

pub open spec fn step_new_bmp(pre: App, post: App, b: BMP, r: bool) -> bool {
    &&& post == (App {
        show_create: false,
        show_load: false,
        show_image_actions: true,
        current_bmp: Some(b),
        only_redraw_coords: PixelRedrawRange::Empty,
        ..pre
    })
    &&& r
}

pub open spec fn step_tool_selected(pre: App, post: App, t: ToolsTypes, r: bool) -> bool {
    &&& post == (App {
        selected_tool: t,
        should_redraw: false,
        only_redraw_coords: PixelRedrawRange::Empty,
        ..pre
    })
    &&& r
}

pub open spec fn step_change_tool_color(pre: App, post: App, c: Rgba, r: bool) -> bool {
    &&& post == (App {
        tool_color: c,
        should_redraw: false,
        only_redraw_coords: PixelRedrawRange::Empty,
        ..pre
    })
    &&& !r
}

/// A pixel click lands on the image: hit testing already validated the
/// coordinate, but the controller still ignores anything out of bounds.
pub open spec fn click_valid(pre: App, x: u16, y: u16) -> bool {
    pre.current_bmp matches Some(pb) && (x as int) < image_dims(pb).0 && (y as int)
        < image_dims(pb).1
}

/// The image was flood-filled from `start` with `color`: every pixel of
/// the flooded region of the old contents (which always includes the start
/// pixel) now has the fill color, and every other pixel is unchanged.
pub open spec fn bucket_filled(
    oldpx: Map<(int, int), (u8, u8, u8, u8)>,
    newpx: Map<(int, int), (u8, u8, u8, u8)>,
    start: (int, int),
    color: (u8, u8, u8, u8),
) -> bool {
    &&& flood_region_of(oldpx, start).contains(start)
    &&& forall|c: (int, int)|
        oldpx.dom().contains(c) && flood_region_of(oldpx, start).contains(c)
            ==> #[trigger] newpx[c] == color
    &&& forall|c: (int, int)|
        oldpx.dom().contains(c) && !flood_region_of(oldpx, start).contains(c)
            ==> #[trigger] newpx[c] == oldpx[c]
}

pub open spec fn step_pixel_clicked(pre: App, post: App, x: u16, y: u16, r: bool) -> bool {
    if click_valid(pre, x, y) {
        &&& post.show_pixel_info
        &&& (pre.current_bmp matches Some(pb) && post.pixel_info matches Some(info)
            && info.coords == (PixelCoord { x, y }) && info.color@ == image_pixels(pb)[
            (x as int, y as int)
        ])
        &&& same_tools(pre, post)
        &&& same_dialogs(pre, post)
        &&& same_keybinds(pre, post)
        &&& match pre.selected_tool {
            ToolsTypes::ClickFill => {
                &&& edit_committed(pre, post)
                &&& (pre.current_bmp matches Some(pb) && post.current_bmp matches Some(nb)
                    && image_pixels(nb) == image_pixels(pb).insert(
                    (x as int, y as int),
                    pre.tool_color@,
                ))
                &&& post.only_redraw_coords == PixelRedrawRange::Point(PixelCoord { x, y })
                &&& r
            },
            ToolsTypes::BucketFill => {
                &&& edit_committed(pre, post)
                &&& (pre.current_bmp matches Some(pb) && post.current_bmp matches Some(nb)
                    && bucket_filled(
                    image_pixels(pb),
                    image_pixels(nb),
                    (x as int, y as int),
                    pre.tool_color@,
                ))
                &&& post.only_redraw_coords is Empty
                &&& r
            },
            _ => {
                &&& post.current_bmp == pre.current_bmp
                &&& post.last_diff.diffs@ == pre.last_diff.diffs@
                &&& !post.should_redraw
                &&& post.only_redraw_coords is Empty
                &&& r
            },
        }
    } else {
        no_op(pre, post) && !r
    }
}

/// The listed coordinates all lie inside the image.
pub open spec fn pixels_change_valid(pre: App, pixels: Seq<(u16, u16)>) -> bool {
    pre.current_bmp matches Some(pb) && forall|i: int|
        0 <= i < pixels.len() ==> (#[trigger] pixels[i]).0 < image_dims(pb).0 && pixels[i].1
            < image_dims(pb).1
}

pub open spec fn step_change_pixels(
    pre: App,
    post: App,
    pixels: Seq<(u16, u16)>,
    color: Rgba,
    r: bool,
) -> bool {
    if pixels_change_valid(pre, pixels) {
        &&& edit_committed(pre, post)
        &&& (pre.current_bmp matches Some(pb) && post.current_bmp matches Some(nb) && forall|
            c: (int, int),
        |
            image_pixels(pb).dom().contains(c) ==> #[trigger] image_pixels(nb)[c] == if contains_coord(pixels, c) {
                color@
            } else {
                image_pixels(pb)[c]
            })
        &&& post.only_redraw_coords is Empty
        &&& same_pixel_panel(pre, post)
        &&& r
    } else {
        no_op(pre, post) && !r
    }
}

/// A clicked pixel is on record and still inside the current image.
pub open spec fn selected_pixel_valid(pre: App) -> bool {
    pre.current_bmp matches Some(pb) && pre.pixel_info matches Some(info) && (info.coords.x
        as int) < image_dims(pb).0 && (info.coords.y as int) < image_dims(pb).1
}

pub open spec fn step_change_selected_pixel(pre: App, post: App, color: Rgba, r: bool) -> bool {
    if selected_pixel_valid(pre) {
        &&& edit_committed(pre, post)
        &&& (pre.current_bmp matches Some(pb) && post.current_bmp matches Some(nb)
            && pre.pixel_info matches Some(info) && image_pixels(nb) == image_pixels(pb).insert(
            (info.coords.x as int, info.coords.y as int),
            color@,
        ) && post.only_redraw_coords == PixelRedrawRange::Point(info.coords))
        &&& same_pixel_panel(pre, post)
        &&& r
    } else {
        no_op(pre, post) && !r
    }
}

pub open spec fn step_fill_bucket(pre: App, post: App, color: Rgba, r: bool) -> bool {
    if selected_pixel_valid(pre) {
        &&& edit_committed(pre, post)
        &&& (pre.current_bmp matches Some(pb) && post.current_bmp matches Some(nb)
            && pre.pixel_info matches Some(info) && bucket_filled(
            image_pixels(pb),
            image_pixels(nb),
            (info.coords.x as int, info.coords.y as int),
            color@,
        ))
        &&& post.only_redraw_coords is Empty
        &&& same_pixel_panel(pre, post)
        &&& r
    } else {
        no_op(pre, post) && !r
    }
}

pub open spec fn step_filter(pre: App, post: App, kind: String, r: bool) -> bool {
    if kind@ == "invert"@ && pre.current_bmp is Some {
        &&& edit_committed(pre, post)
        &&& (pre.current_bmp matches Some(pb) && post.current_bmp matches Some(nb) && forall|
            c: (int, int),
        |
            image_pixels(pb).dom().contains(c) ==> #[trigger] image_pixels(nb)[c]
                == crate::image::spec_invert_px(image_pixels(pb)[c]))
        &&& post.only_redraw_coords is Empty
        &&& same_pixel_panel(pre, post)
        &&& r
    } else if kind@ == "greyscale"@ && pre.current_bmp is Some {
        &&& edit_committed(pre, post)
        &&& (pre.current_bmp matches Some(pb) && post.current_bmp matches Some(nb) && forall|
            c: (int, int),
        |
            image_pixels(pb).dom().contains(c) ==> #[trigger] image_pixels(nb)[c] == {
                let g = grey_level(image_pixels(pb)[c]);
                (g, g, g, image_pixels(pb)[c].3)
            })
        &&& post.only_redraw_coords is Empty
        &&& same_pixel_panel(pre, post)
        &&& r
    } else {
        no_op(pre, post) && !r
    }
}

/// Both endpoints are inside the image and the line runs in a direction
/// the shape library handles without mis-stepping.
pub open spec fn line_valid(pre: App, p1: (u16, u16), p2: (u16, u16)) -> bool {
    pre.current_bmp matches Some(pb) && {
        &&& (p1.0 as int) < image_dims(pb).0 && (p2.0 as int) < image_dims(pb).0
        &&& (p1.1 as int) < image_dims(pb).1 && (p2.1 as int) < image_dims(pb).1
        &&& line_direction_ok(p1, p2)
    }
}

pub open spec fn step_draw_line(
    pre: App,
    post: App,
    p1: (u16, u16),
    p2: (u16, u16),
    r: bool,
) -> bool {
    if line_valid(pre, p1, p2) {
        &&& edit_committed(pre, post)
        &&& (pre.current_bmp matches Some(pb) && post.current_bmp matches Some(nb)
            && image_pixels(nb) == line_raster(
            image_pixels(pb),
            (p1.0 as int, p1.1 as int),
            (p2.0 as int, p2.1 as int),
            pre.tool_color@,
        ) && forall|c: (int, int)|
            image_pixels(pb).dom().contains(c) && !in_span(
                c,
                (p1.0 as int, p1.1 as int),
                (p2.0 as int, p2.1 as int),
            ) ==> #[trigger] image_pixels(nb)[c] == image_pixels(pb)[c])
        &&& post.only_redraw_coords == PixelRedrawRange::Rect(
            PixelCoord { x: min16(p1.0, p2.0), y: min16(p1.1, p2.1) },
            PixelCoord { x: max16(p1.0, p2.0), y: max16(p1.1, p2.1) },
        )
        &&& same_pixel_panel(pre, post)
        &&& r
    } else {
        no_op(pre, post) && !r
    }
}

/// The corners come as top-left then bottom-right, at least two pixels
/// apart on each axis and inside the image, as the shape library's
/// rectangle routine expects.
pub open spec fn rect_valid(pre: App, p1: (u16, u16), p2: (u16, u16)) -> bool {
    pre.current_bmp matches Some(pb) && {
        &&& p1.0 + 1 < p2.0 && p1.1 + 1 < p2.1
        &&& (p2.0 as int) < image_dims(pb).0 && (p2.1 as int) < image_dims(pb).1
    }
}

pub open spec fn step_draw_rect(
    pre: App,
    post: App,
    p1: (u16, u16),
    p2: (u16, u16),
    r: bool,
) -> bool {
    if rect_valid(pre, p1, p2) {
        &&& edit_committed(pre, post)
        &&& (pre.current_bmp matches Some(pb) && post.current_bmp matches Some(nb)
            && image_pixels(nb) == rect_raster(
            image_pixels(pb),
            (p1.0 as int, p1.1 as int),
            (p2.0 as int, p2.1 as int),
            pre.tool_color@,
        ) && forall|c: (int, int)|
            image_pixels(pb).dom().contains(c) && !in_span(
                c,
                (p1.0 as int, p1.1 as int),
                (p2.0 as int, p2.1 as int),
            ) ==> #[trigger] image_pixels(nb)[c] == image_pixels(pb)[c])
        &&& post.only_redraw_coords == PixelRedrawRange::Rect(
            PixelCoord { x: p1.0, y: p1.1 },
            PixelCoord { x: p2.0, y: p2.1 },
        )
        &&& same_pixel_panel(pre, post)
        &&& r
    } else {
        no_op(pre, post) && !r
    }
}

/// The ellipse, centered at `center` with the given horizontal and
/// vertical radii, fits inside the image.
pub open spec fn ellipse_valid(pre: App, center: (u16, u16), lengths: (u16, u16)) -> bool {
    pre.current_bmp matches Some(pb) && {
        &&& center.0 >= lengths.0 && center.1 >= lengths.1
        &&& center.0 + lengths.0 < image_dims(pb).0
        &&& center.1 + lengths.1 < image_dims(pb).1
    }
}

pub open spec fn step_draw_ellipse(
    pre: App,
    post: App,
    center: (u16, u16),
    lengths: (u16, u16),
    r: bool,
) -> bool {
    if ellipse_valid(pre, center, lengths) {
        &&& edit_committed(pre, post)
        &&& (pre.current_bmp matches Some(pb) && post.current_bmp matches Some(nb)
            && image_pixels(nb) == ellipse_raster(
            image_pixels(pb),
            (center.0 as int, center.1 as int),
            lengths.0 as int,
            lengths.1 as int,
            pre.tool_color@,
        ) && forall|c: (int, int)|
            image_pixels(pb).dom().contains(c) && !in_span(
                c,
                (center.0 - lengths.0, center.1 - lengths.1),
                (center.0 + lengths.0, center.1 + lengths.1),
            ) ==> #[trigger] image_pixels(nb)[c] == image_pixels(pb)[c])
        &&& post.only_redraw_coords is Empty
        &&& same_pixel_panel(pre, post)
        &&& r
    } else {
        no_op(pre, post) && !r
    }
}

pub open spec fn step_blur(pre: App, post: App, radius: u8, r: bool) -> bool {
    match pre.selected_tool {
        ToolsTypes::Gaussian => {
            if pre.current_bmp is Some && 1 <= radius <= 7 {
                &&& edit_committed(pre, post)
                &&& (pre.current_bmp matches Some(pb) && post.current_bmp matches Some(nb)
                    && image_pixels(nb) == gaussian_of(image_pixels(pb), radius as int))
                &&& post.only_redraw_coords is Empty
                &&& same_pixel_panel(pre, post)
                &&& r
            } else {
                no_op(pre, post) && !r
            }
        },
        ToolsTypes::Box => {
            if pre.current_bmp is Some && 1 <= radius <= 16 {
                &&& edit_committed(pre, post)
                &&& (pre.current_bmp matches Some(pb) && post.current_bmp matches Some(nb)
                    && image_pixels(nb) == box_of(image_pixels(pb), radius as int))
                &&& post.only_redraw_coords is Empty
                &&& same_pixel_panel(pre, post)
                &&& r
            } else {
                no_op(pre, post) && !r
            }
        },
        _ => {
            &&& post == (App {
                should_redraw: false,
                only_redraw_coords: PixelRedrawRange::Empty,
                ..pre
            })
            &&& !r
        },
    }
}

/// Undo: with an empty history (or no image) nothing happens at all; else
/// the most recent diff is removed, and when it is compatible with the
/// current image its `before` colors are written back and the whole canvas
/// is marked for repaint.
pub open spec fn step_undo(pre: App, post: App, r: bool) -> bool {
    if pre.last_diff.diffs@.len() == 0 || pre.current_bmp is None {
        no_op(pre, post) && !r
    } else {
        pre.current_bmp matches Some(pb) && {
            let d = pre.last_diff.diffs@.last();
            &&& post.last_diff.diffs@ == pre.last_diff.diffs@.drop_last()
            &&& same_tools(pre, post)
            &&& same_dialogs(pre, post)
            &&& same_pixel_panel(pre, post)
            &&& same_keybinds(pre, post)
            &&& post.only_redraw_coords is Empty
            &&& if d.size1 == d.size2 && d.size2 == image_dims(pb) {
                &&& (post.current_bmp matches Some(nb) && image_valid(nb) && image_dims(nb)
                    == image_dims(pb) && image_pixels(nb) == apply_befores(
                    image_pixels(pb),
                    d.entries@,
                ))
                &&& post.should_redraw
            } else {
                &&& post.current_bmp == pre.current_bmp
                &&& post.should_redraw == pre.should_redraw
            }
            &&& r
        }
    }
}

/// The full transition relation of the editor: what handling each message
/// does to the state, and whether the view must re-render.
pub open spec fn spec_step(pre: App, post: App, msg: AppMessage, r: bool) -> bool {
    match msg {
        AppMessage::Create => step_create(pre, post, r),
        AppMessage::Load => step_load(pre, post, r),
        AppMessage::NewBMP(b) => step_new_bmp(pre, post, b, r),
        AppMessage::PixelClicked(x, y) => step_pixel_clicked(pre, post, x, y, r),
        AppMessage::ChangePixels(pixels, color) => step_change_pixels(
            pre,
            post,
            pixels@,
            color,
            r,
        ),
        AppMessage::ChangeSelectedPixel(color) => step_change_selected_pixel(
            pre,
            post,
            color,
            r,
        ),
        AppMessage::ToolSelected(t) => step_tool_selected(pre, post, t, r),
        AppMessage::FillBucket(color) => step_fill_bucket(pre, post, color, r),
        AppMessage::ChangeToolColor(c) => step_change_tool_color(pre, post, c, r),
        AppMessage::Filter(kind) => step_filter(pre, post, kind, r),
        AppMessage::DrawLine(p1, p2) => step_draw_line(pre, post, p1, p2, r),
        AppMessage::DrawRect(p1, p2) => step_draw_rect(pre, post, p1, p2, r),
        AppMessage::DrawEllipse(center, lengths) => step_draw_ellipse(
            pre,
            post,
            center,
            lengths,
            r,
        ),
        AppMessage::Blur(radius) => step_blur(pre, post, radius, r),
        AppMessage::Undo => step_undo(pre, post, r),
    }
}

impl App {
    /// A fresh editor: no image yet, no tool selected, white drawing color,
    /// everything hidden, a full repaint pending, and the standard
    /// keybinds.
    pub fn create() -> (app: App)
        ensures
            app.inv(),
            app.current_bmp is None,
            app.selected_tool == ToolsTypes::NoneSelected,
            app.tool_color == (Rgba { r: 255, g: 255, b: 255, a: 255 }),
            !app.show_create && !app.show_load && !app.show_pixel_info
                && !app.show_image_actions,
            app.should_redraw,
            app.only_redraw_coords is Empty,
            app.pixel_info is None,
            app.last_diff.diffs@.len() == 0,
            spec_default_binds(app.keybinds.entries@),
    {
        App {
            current_bmp: None,
            selected_tool: ToolsTypes::NoneSelected,
            tool_color: Rgba { r: 255, g: 255, b: 255, a: 255 },
            show_create: false,
            show_load: false,
            show_pixel_info: false,
            show_image_actions: false,
            should_redraw: true,
            only_redraw_coords: PixelRedrawRange::Empty,
            pixel_info: None,
            last_diff: UndoHistory::new(),
            keybinds: default_keybinds(),
        }
    }

    /// Handles one action: the heart of the editor.
    pub fn update(&mut self, msg: AppMessage) -> (redraw: bool)
        requires
            old(self).inv(),
            msg_ok(msg),
        ensures
            final(self).inv(),
            spec_step(*old(self), *final(self), msg, redraw),
    {
        self.only_redraw_coords = PixelRedrawRange::Empty;
        match msg {
            AppMessage::Create => {
                self.show_create = true;
                true
            },
            AppMessage::Load => {
                self.show_load = true;
                true
            },
            AppMessage::NewBMP(b) => {
                self.show_create = false;
                self.show_load = false;
                self.show_image_actions = true;
                self.current_bmp = Some(b);
                true
            },
            AppMessage::PixelClicked(x, y) => self.handle_pixel_clicked(x, y),
            AppMessage::ChangePixels(pixels, color) => self.handle_change_pixels(
                pixels,
                color,
            ),
            AppMessage::ChangeSelectedPixel(color) => self.handle_change_selected_pixel(
                color,
            ),
            AppMessage::ToolSelected(t) => {
                self.selected_tool = t;
                self.should_redraw = false;
                true
            },
            AppMessage::FillBucket(color) => self.handle_fill_bucket(color),
            AppMessage::ChangeToolColor(c) => {
                self.tool_color = c;
                self.should_redraw = false;
                false
            },
            AppMessage::Filter(kind) => self.handle_filter(kind),
            AppMessage::DrawLine(p1, p2) => self.handle_draw_line(p1, p2),
            AppMessage::DrawRect(p1, p2) => self.handle_draw_rect(p1, p2),
            AppMessage::DrawEllipse(center, lengths) => self.handle_draw_ellipse(
                center,
                lengths,
            ),
            AppMessage::Blur(radius) => self.handle_blur(radius),
            AppMessage::Undo => self.handle_undo(),
        }
    }

    /// Replaces the image by a copy with one pixel recolored, recording the
    /// diff first.
    fn commit_pixel_edit(&mut self, x: u16, y: u16, color: Rgba)
        requires
            old(self).inv(),
            old(self).current_bmp matches Some(pb) && (x as int) < image_dims(pb).0 && (y
                as int) < image_dims(pb).1,
        ensures
            final(self).inv(),
            edit_committed(*old(self), *final(self)),
            (old(self).current_bmp matches Some(pb) && final(self).current_bmp matches Some(nb)
                && image_pixels(nb) == image_pixels(pb).insert(
                (x as int, y as int),
                color@,
            )),
            same_pixel_panel(*old(self), *final(self)),
            final(self).only_redraw_coords == old(self).only_redraw_coords,
    {
        let cur = self.current_bmp.as_ref().unwrap();
        let mut nb = clone_image(cur);
        set_pixel_raw(&mut nb, x, y, color);
        let d = diff_images(cur, &nb);
        proof {
            lemma_recorded_diff_wf(&d, image_pixels(*cur), image_pixels(nb));
        }
        self.last_diff.push(d);
        self.current_bmp = Some(nb);
        self.should_redraw = true;
    }

    /// Replaces the image by a copy with the flood fill applied, recording
    /// the diff first.
    fn commit_bucket_fill(&mut self, x: u16, y: u16, color: Rgba)
        requires
            old(self).inv(),
            old(self).current_bmp matches Some(pb) && (x as int) < image_dims(pb).0 && (y
                as int) < image_dims(pb).1,
        ensures
            final(self).inv(),
            edit_committed(*old(self), *final(self)),
            (old(self).current_bmp matches Some(pb) && final(self).current_bmp matches Some(nb)
                && bucket_filled(
                image_pixels(pb),
                image_pixels(nb),
                (x as int, y as int),
                color@,
            )),
            same_pixel_panel(*old(self), *final(self)),
            final(self).only_redraw_coords == old(self).only_redraw_coords,
    {
        let cur = self.current_bmp.as_ref().unwrap();
        let mut nb = clone_image(cur);
        let _ = fill_bucket_raw(&mut nb, x, y, color);
        let d = diff_images(cur, &nb);
        proof {
            lemma_recorded_diff_wf(&d, image_pixels(*cur), image_pixels(nb));
        }
        self.last_diff.push(d);
        self.current_bmp = Some(nb);
        self.should_redraw = true;
    }

    fn handle_pixel_clicked(&mut self, x: u16, y: u16) -> (r: bool)
        requires
            old(self).inv(),
            old(self).only_redraw_coords is Empty,
        ensures
            final(self).inv(),
            step_pixel_clicked(*old(self), *final(self), x, y, r),
    {
        let valid = match &self.current_bmp {
            Some(cur) => {
                let (w, h) = image_size(cur);
                (x as u32) < w && (y as u32) < h
            },
            None => false,
        };
        if !valid {
            return false;
        }
        let color = read_pixel(self.current_bmp.as_ref().unwrap(), x, y);
        self.show_pixel_info = true;
        self.pixel_info = Some(PixelInfo { color, coords: PixelCoord { x, y } });
        match self.selected_tool {
            ToolsTypes::ClickFill => {
                let tc = self.tool_color;
                self.commit_pixel_edit(x, y, tc);
                self.only_redraw_coords = PixelRedrawRange::Point(PixelCoord { x, y });
                true
            },
            ToolsTypes::BucketFill => {
                let tc = self.tool_color;
                self.commit_bucket_fill(x, y, tc);
                true
            },
            _ => {
                self.should_redraw = false;
                true
            },
        }
    }

    fn handle_change_pixels(&mut self, pixels: Vec<(u16, u16)>, color: Rgba) -> (r: bool)
        requires
            old(self).inv(),
            old(self).only_redraw_coords is Empty,
        ensures
            final(self).inv(),
            step_change_pixels(*old(self), *final(self), pixels@, color, r),
    {
        let (has_image, w, h) = match &self.current_bmp {
            Some(cur) => {
                let (w, h) = image_size(cur);
                (true, w, h)
            },
            None => (false, 0u32, 0u32),
        };
        if !has_image {
            return false;
        }
        let n = pixels.len();
        let mut all_in: bool = true;
        let mut i: usize = 0;
        while i < n
            invariant
                i <= n,
                n == pixels@.len(),
                all_in <==> (forall|j: int|
                    0 <= j < i ==> (#[trigger] pixels@[j]).0 < w && pixels@[j].1 < h),
            decreases n - i,
        {
            let p = pixels[i];
            if !((p.0 as u32) < w && (p.1 as u32) < h) {
                all_in = false;
            }
            i += 1;
        }
        if !all_in {
            return false;
        }
        let cur = self.current_bmp.as_ref().unwrap();
        let mut nb = clone_image(cur);
        proof {
            assert(pixels@.take(0) =~= Seq::<(u16, u16)>::empty());
        }
        let mut k: usize = 0;
        while k < n
            invariant
                k <= n,
                n == pixels@.len(),
                image_valid(*cur),
                image_valid(nb),
                (w, h) == image_dims(*cur),
                image_dims(nb) == (w, h),
                forall|j: int|
                    0 <= j < n ==> (#[trigger] pixels@[j]).0 < w && pixels@[j].1 < h,
                forall|c: (int, int)|
                    image_pixels(*cur).dom().contains(c) ==> #[trigger] image_pixels(nb)[c]
                        == if contains_coord(pixels@.take(k as int), c) {
                        color@
                    } else {
                        image_pixels(*cur)[c]
                    },
            decreases n - k,
        {
            let p = pixels[k];
            set_pixel_raw(&mut nb, p.0, p.1, color);
            proof {
                lemma_coord_list_take_step(pixels@, k as int);
            }
            k += 1;
        }
        proof {
            assert(pixels@.take(n as int) =~= pixels@);
        }
        let d = diff_images(cur, &nb);
        proof {
            lemma_recorded_diff_wf(&d, image_pixels(*cur), image_pixels(nb));
        }
        self.last_diff.push(d);
        self.current_bmp = Some(nb);
        self.should_redraw = true;
        true
    }

    fn handle_change_selected_pixel(&mut self, color: Rgba) -> (r: bool)
        requires
            old(self).inv(),
            old(self).only_redraw_coords is Empty,
        ensures
            final(self).inv(),
            step_change_selected_pixel(*old(self), *final(self), color, r),
    {
        let coords = match &self.pixel_info {
            Some(info) => info.coords,
            None => {
                return false;
            },
        };
        let valid = match &self.current_bmp {
            Some(cur) => {
                let (w, h) = image_size(cur);
                (coords.x as u32) < w && (coords.y as u32) < h
            },
            None => false,
        };
        if !valid {
            return false;
        }
        self.commit_pixel_edit(coords.x, coords.y, color);
        self.only_redraw_coords = PixelRedrawRange::Point(coords);
        true
    }

    fn handle_fill_bucket(&mut self, color: Rgba) -> (r: bool)
        requires
            old(self).inv(),
            old(self).only_redraw_coords is Empty,
        ensures
            final(self).inv(),
            step_fill_bucket(*old(self), *final(self), color, r),
    {
        let coords = match &self.pixel_info {
            Some(info) => info.coords,
            None => {
                return false;
            },
        };
        let valid = match &self.current_bmp {
            Some(cur) => {
                let (w, h) = image_size(cur);
                (coords.x as u32) < w && (coords.y as u32) < h
            },
            None => false,
        };
        if !valid {
            return false;
        }
        self.commit_bucket_fill(coords.x, coords.y, color);
        true
    }

    fn handle_filter(&mut self, kind: String) -> (r: bool)
        requires
            old(self).inv(),
            old(self).only_redraw_coords is Empty,
        ensures
            final(self).inv(),
            step_filter(*old(self), *final(self), kind, r),
    {
        let is_invert = crate::keybinds::str_eq(kind.as_str(), "invert");
        let is_grey = crate::keybinds::str_eq(kind.as_str(), "greyscale");
        if !(is_invert || is_grey) || self.current_bmp.is_none() {
            return false;
        }
        let cur = self.current_bmp.as_ref().unwrap();
        let mut nb = clone_image(cur);
        if is_invert {
            invert_raw(&mut nb);
        } else {
            greyscale_raw(&mut nb);
        }
        let d = diff_images(cur, &nb);
        proof {
            lemma_recorded_diff_wf(&d, image_pixels(*cur), image_pixels(nb));
        }
        self.last_diff.push(d);
        self.current_bmp = Some(nb);
        self.should_redraw = true;
        true
    }

    fn handle_draw_line(&mut self, p1: (u16, u16), p2: (u16, u16)) -> (r: bool)
        requires
            old(self).inv(),
            old(self).only_redraw_coords is Empty,
        ensures
            final(self).inv(),
            step_draw_line(*old(self), *final(self), p1, p2, r),
    {
        let valid = match &self.current_bmp {
            Some(cur) => {
                let (w, h) = image_size(cur);
                (p1.0 as u32) < w && (p2.0 as u32) < w && (p1.1 as u32) < h && (p2.1 as u32)
                    < h && ((p1.0 <= p2.0 && p1.1 <= p2.1) || (p2.0 <= p1.0 && p2.1 <= p1.1))
            },
            None => false,
        };
        if !valid {
            return false;
        }
        let cur = self.current_bmp.as_ref().unwrap();
        let mut nb = clone_image(cur);
        draw_line_raw(&mut nb, p1, p2, self.tool_color);
        let d = diff_images(cur, &nb);
        proof {
            lemma_recorded_diff_wf(&d, image_pixels(*cur), image_pixels(nb));
        }
        self.last_diff.push(d);
        self.current_bmp = Some(nb);
        self.should_redraw = true;
        let x0: u16 = if p1.0 <= p2.0 {
            p1.0
        } else {
            p2.0
        };
        let x1: u16 = if p1.0 <= p2.0 {
            p2.0
        } else {
            p1.0
        };
        let y0: u16 = if p1.1 <= p2.1 {
            p1.1
        } else {
            p2.1
        };
        let y1: u16 = if p1.1 <= p2.1 {
            p2.1
        } else {
            p1.1
        };
        self.only_redraw_coords = PixelRedrawRange::Rect(
            PixelCoord { x: x0, y: y0 },
            PixelCoord { x: x1, y: y1 },
        );
        true
    }

    fn handle_draw_rect(&mut self, p1: (u16, u16), p2: (u16, u16)) -> (r: bool)
        requires
            old(self).inv(),
            old(self).only_redraw_coords is Empty,
        ensures
            final(self).inv(),
            step_draw_rect(*old(self), *final(self), p1, p2, r),
    {
        let valid = match &self.current_bmp {
            Some(cur) => {
                let (w, h) = image_size(cur);
                (p1.0 as u32) + 1 < (p2.0 as u32) && (p1.1 as u32) + 1 < (p2.1 as u32) && (p2.0
                    as u32) < w && (p2.1 as u32) < h
            },
            None => false,
        };
        if !valid {
            return false;
        }
        let cur = self.current_bmp.as_ref().unwrap();
        let mut nb = clone_image(cur);
        draw_rect_raw(&mut nb, p1, p2, self.tool_color);
        let d = diff_images(cur, &nb);
        proof {
            lemma_recorded_diff_wf(&d, image_pixels(*cur), image_pixels(nb));
        }
        self.last_diff.push(d);
        self.current_bmp = Some(nb);
        self.should_redraw = true;
        self.only_redraw_coords = PixelRedrawRange::Rect(
            PixelCoord { x: p1.0, y: p1.1 },
            PixelCoord { x: p2.0, y: p2.1 },
        );
        true
    }

    fn handle_draw_ellipse(&mut self, center: (u16, u16), lengths: (u16, u16)) -> (r: bool)
        requires
            old(self).inv(),
            old(self).only_redraw_coords is Empty,
        ensures
            final(self).inv(),
            step_draw_ellipse(*old(self), *final(self), center, lengths, r),
    {
        let valid = match &self.current_bmp {
            Some(cur) => {
                let (w, h) = image_size(cur);
                center.0 >= lengths.0 && center.1 >= lengths.1 && (center.0 as u32)
                    + (lengths.0 as u32) < w && (center.1 as u32) + (lengths.1 as u32) < h
            },
            None => false,
        };
        if !valid {
            return false;
        }
        let cur = self.current_bmp.as_ref().unwrap();
        let mut nb = clone_image(cur);
        draw_ellipse_raw(&mut nb, center, lengths.0, lengths.1, self.tool_color);
        let d = diff_images(cur, &nb);
        proof {
            lemma_recorded_diff_wf(&d, image_pixels(*cur), image_pixels(nb));
        }
        self.last_diff.push(d);
        self.current_bmp = Some(nb);
        self.should_redraw = true;
        true
    }

    fn handle_blur(&mut self, radius: u8) -> (r: bool)
        requires
            old(self).inv(),
            old(self).only_redraw_coords is Empty,
        ensures
            final(self).inv(),
            step_blur(*old(self), *final(self), radius, r),
    {
        match self.selected_tool {
            ToolsTypes::Gaussian => {
                if self.current_bmp.is_none() || radius < 1 || radius > 7 {
                    return false;
                }
                let cur = self.current_bmp.as_ref().unwrap();
                let mut nb = clone_image(cur);
                gaussian_blur_raw(&mut nb, radius);
                let d = diff_images(cur, &nb);
                proof {
                    lemma_recorded_diff_wf(&d, image_pixels(*cur), image_pixels(nb));
                }
                self.last_diff.push(d);
                self.current_bmp = Some(nb);
                self.should_redraw = true;
                true
            },
            ToolsTypes::Box => {
                if self.current_bmp.is_none() || radius < 1 || radius > 16 {
                    return false;
                }
                let cur = self.current_bmp.as_ref().unwrap();
                let mut nb = clone_image(cur);
                box_blur_raw(&mut nb, radius);
                let d = diff_images(cur, &nb);
                proof {
                    lemma_recorded_diff_wf(&d, image_pixels(*cur), image_pixels(nb));
                }
                self.last_diff.push(d);
                self.current_bmp = Some(nb);
                self.should_redraw = true;
                true
            },
            _ => {
                self.should_redraw = false;
                false
            },
        }
    }

    fn handle_undo(&mut self) -> (r: bool)
        requires
            old(self).inv(),
            old(self).only_redraw_coords is Empty,
        ensures
            final(self).inv(),
            step_undo(*old(self), *final(self), r),
    {
        if self.last_diff.len() == 0 {
            return false;
        }
        if self.current_bmp.is_none() {
            return false;
        }
        let d = self.last_diff.pop().unwrap();
        let (w, h) = image_size(self.current_bmp.as_ref().unwrap());
        if d.same_size() && d.size2.0 == w && d.size2.1 == h {
            let mut nb = clone_image(self.current_bmp.as_ref().unwrap());
            apply_diff_befores(&mut nb, &d);
            self.current_bmp = Some(nb);
            self.should_redraw = true;
        }
        true
    }

    /// Routes one global key-down event: the chord is looked up in the
    /// session keybinds and the bound action performed, selecting a tool
    /// directly, cycling to the neighboring tool, or undoing the last edit.
    /// An unbound chord has no effect.
    pub fn key_down(&mut self, key: &str, ctrl: bool) -> (redraw: bool)
        requires
            old(self).inv(),
        ensures
            final(self).inv(),
            match spec_lookup(old(self).keybinds.entries@, spec_chord(key@, ctrl)) {
                Option::None => *final(self) == *old(self) && !redraw,
                Option::Some(KeybindActions::Undo) => step_undo(
                    *old(self),
                    *final(self),
                    redraw,
                ),
                Option::Some(KeybindActions::PreviousTool) => step_tool_selected(
                    *old(self),
                    *final(self),
                    spec_previous_tool(old(self).selected_tool),
                    redraw,
                ),
                Option::Some(KeybindActions::NextTool) => step_tool_selected(
                    *old(self),
                    *final(self),
                    spec_next_tool(old(self).selected_tool),
                    redraw,
                ),
                Option::Some(KeybindActions::ToolChange(t)) => step_tool_selected(
                    *old(self),
                    *final(self),
                    t,
                    redraw,
                ),
            },
    {
        let action = dispatch_keydown(&self.keybinds, key, ctrl);
        match action {
            Option::None => false,
            Option::Some(KeybindActions::Undo) => self.update(AppMessage::Undo),
            Option::Some(KeybindActions::PreviousTool) => {
                let t = self.selected_tool.previous_tool();
                self.update(AppMessage::ToolSelected(t))
            },
            Option::Some(KeybindActions::NextTool) => {
                let t = self.selected_tool.next_tool();
                self.update(AppMessage::ToolSelected(t))
            },
            Option::Some(KeybindActions::ToolChange(t)) => self.update(
                AppMessage::ToolSelected(t),
            ),
        }
    }
}

/// Extending a coordinate-list prefix by one entry covers exactly that
/// entry's coordinate in addition to what the shorter prefix covers.
proof fn lemma_coord_list_take_step(cs: Seq<(u16, u16)>, i: int)
    requires
        0 <= i < cs.len(),
    ensures
        forall|c: (int, int)|
            #[trigger] contains_coord(cs.take(i + 1), c) <==> (contains_coord(cs.take(i), c)
                || c == ((cs[i].0 as int, cs[i].1 as int))),
{
    let t1 = cs.take(i + 1);
    let t0 = cs.take(i);
    assert forall|c: (int, int)|
        #[trigger] contains_coord(t1, c) <==> (contains_coord(t0, c) || c == ((
        cs[i].0 as int,
        cs[i].1 as int,
    ))) by {
        if contains_coord(t1, c) {
            let j = choose|j: int|
                0 <= j < t1.len() && ((#[trigger] t1[j]).0 as int, t1[j].1 as int) == c;
            assert(t1[j] == cs[j]);
            if j < i {
                assert(t0[j] == cs[j]);
                assert(contains_coord(t0, c));
            }
        }
        if contains_coord(t0, c) {
            let j = choose|j: int|
                0 <= j < t0.len() && ((#[trigger] t0[j]).0 as int, t0[j].1 as int) == c;
            assert(t1[j] == t0[j]);
            assert(contains_coord(t1, c));
        }
        if c == ((cs[i].0 as int, cs[i].1 as int)) {
            assert((t1[i].0 as int, t1[i].1 as int) == c);
            assert(contains_coord(t1, c));
        }
    }
}

/// A diff recorded between two same-size images satisfies the history's
/// well-formedness: every entry is in bounds and carries both colors.
proof fn lemma_recorded_diff_wf(
    d: &Diff,
    a: Map<(int, int), (u8, u8, u8, u8)>,
    b: Map<(int, int), (u8, u8, u8, u8)>,
)
    requires
        d.size1 == d.size2,
        diff_exact(d.entries@, a, b, d.size1.0 as int, d.size1.1 as int),
    ensures
        d.wf(),
{
    assert forall|i: int| 0 <= i < d.entries@.len() implies {
        let e = #[trigger] d.entries@[i];
        &&& (e.x as int) < d.size1.0
        &&& (e.y as int) < d.size1.1
        &&& e.before is Some
        &&& e.after is Some
    } by {}
}

} // verus!
