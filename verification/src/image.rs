//! The trusted boundary to the `bmp_rust` raster library. The editor treats
//! a `BMP` value as an opaque pixel buffer; the spec functions below name
//! its size and contents, and each wrapper states, over those names, what
//! one `bmp_rust` operation does to them.
//!
//! `image_wf` stands for the well-formedness the editor relies on: the
//! handle holds a 32-bit image as `BMP::new` lays it out, with both
//! dimensions between 1 and 2047 so that none of the library's internal
//! 16-bit offset arithmetic can wrap. Only `new_image_raw` introduces it;
//! every mutating wrapper preserves it.

use crate::color::Rgba;
use crate::undo::{Diff, DiffEntry};
use bmp_rust::bmp::BMP;
use vstd::prelude::*;

verus! {

/// Declares `bmp_rust::bmp::BMP` to the verifier as an opaque type.
#[verifier::external_type_specification]
#[verifier::external_body]
pub struct ExBmp(BMP);

/// Whether a handle holds a well-formed editor image (see the module doc).
pub uninterp spec fn image_wf(b: BMP) -> bool;

/// The image's width and absolute height, in pixels.
pub uninterp spec fn image_dims(b: BMP) -> (u32, u32);

/// The image's contents: the RGBA color stored at every in-bounds
/// coordinate, with `(0, 0)` the top-left pixel.
pub uninterp spec fn image_pixels(b: BMP) -> Map<(int, int), (u8, u8, u8, u8)>;

/// The grey level `BMP::rgb_to_grayscale` computes from a color; it depends
/// on the color alone.
pub uninterp spec fn grey_level(c: (u8, u8, u8, u8)) -> u8;

/// The contents `BMP::draw_line` leaves behind: the given contents with the
/// line it rasters between the two endpoints set to the color. A function
/// of its arguments alone.
pub uninterp spec fn line_raster(
    px: Map<(int, int), (u8, u8, u8, u8)>,
    p1: (int, int),
    p2: (int, int),
    color: (u8, u8, u8, u8),
) -> Map<(int, int), (u8, u8, u8, u8)>;

/// The contents `BMP::draw_rectangle` leaves behind: the given contents
/// with the stroked and filled rectangle between the two corners set to the
/// color.
pub uninterp spec fn rect_raster(
    px: Map<(int, int), (u8, u8, u8, u8)>,
    p1: (int, int),
    p2: (int, int),
    color: (u8, u8, u8, u8),
) -> Map<(int, int), (u8, u8, u8, u8)>;

/// The contents `BMP::draw_ellipse` leaves behind: the given contents with
/// the stroked and filled ellipse of the given center and radii set to the
/// color.
pub uninterp spec fn ellipse_raster(
    px: Map<(int, int), (u8, u8, u8, u8)>,
    center: (int, int),
    xlength: int,
    ylength: int,
    color: (u8, u8, u8, u8),
) -> Map<(int, int), (u8, u8, u8, u8)>;

/// The set of coordinates `BMP::fill_bucket` floods from a start pixel: the
/// pixels it visits walking neighbors of the start pixel's color. The fill
/// color plays no part in which pixels are visited.
pub uninterp spec fn flood_region_of(
    px: Map<(int, int), (u8, u8, u8, u8)>,
    start: (int, int),
) -> Set<(int, int)>;

/// The contents `BMP::gaussian_blur` computes from the given contents and
/// radius.
pub uninterp spec fn gaussian_of(
    px: Map<(int, int), (u8, u8, u8, u8)>,
    radius: int,
) -> Map<(int, int), (u8, u8, u8, u8)>;

/// The contents `BMP::box_blur` computes from the given contents and
/// radius.
pub uninterp spec fn box_of(
    px: Map<(int, int), (u8, u8, u8, u8)>,
    radius: int,
) -> Map<(int, int), (u8, u8, u8, u8)>;

/// The coordinates of an image of the given size.
pub open spec fn coord_dom(width: int, height: int) -> Set<(int, int)> {
    Set::new(|c: (int, int)| 0 <= c.0 < width && 0 <= c.1 < height)
}

/// The contents of a freshly created image: opaque white everywhere.
pub open spec fn all_white(width: int, height: int) -> Map<(int, int), (u8, u8, u8, u8)> {
    Map::new(
        |c: (int, int)| 0 <= c.0 < width && 0 <= c.1 < height,
        |c: (int, int)| (255u8, 255u8, 255u8, 255u8),
    )
}

/// A well-formed image whose contents cover exactly its coordinates and
/// whose dimensions the editor can work with.
pub open spec fn image_valid(b: BMP) -> bool {
    &&& image_wf(b)
    &&& 1 <= image_dims(b).0 <= 2047
    &&& 1 <= image_dims(b).1 <= 2047
    &&& image_pixels(b).dom() == coord_dom(image_dims(b).0 as int, image_dims(b).1 as int)
}

/// Whether a coordinate occurs in a list of pixel coordinates.
pub open spec fn contains_coord(cs: Seq<(u16, u16)>, c: (int, int)) -> bool {
    exists|i: int|
        0 <= i < cs.len() && ((#[trigger] cs[i]).0 as int, cs[i].1 as int) == c
}

/// Relies on `BMP::new`: a fresh 32-bit image of the given size whose
/// pixels are all opaque white.
#[verifier::external_body]
pub(crate) fn new_image_raw(height: u32, width: u32) -> (b: BMP)
    requires
        1 <= height <= 2047,
        1 <= width <= 2047,
    ensures
        image_wf(b),
        image_valid(b),
        image_dims(b) == (width, height),
        image_pixels(b) == all_white(width as int, height as int),
{
    BMP::new(height as i32, width, None)
}

/// Relies on `BMP::clone`: the copy holds the same bytes, so the same size
/// and the same pixels.
#[verifier::external_body]
pub(crate) fn clone_image(b: &BMP) -> (r: BMP)
    ensures
        image_valid(*b) ==> image_valid(r),
        image_dims(r) == image_dims(*b),
        image_pixels(r) == image_pixels(*b),
{
    b.clone()
}

/// Relies on `BMP::get_dib_header`: the header of a well-formed image reads
/// back its width and absolute height.
#[verifier::external_body]
pub(crate) fn image_size_raw(b: &BMP) -> (d: (u32, u32))
    requires
        image_valid(*b),
    ensures
        d == image_dims(*b),
{
    match b.get_dib_header() {
        Ok(dib) => (dib.width, dib.height.unsigned_abs()),
        Err(_) => (1, 1),
    }
}

/// Relies on `BMP::get_color_of_px`: reading an in-bounds pixel of a
/// well-formed image returns its stored RGBA color.
#[verifier::external_body]
pub(crate) fn read_pixel(b: &BMP, x: u16, y: u16) -> (c: Rgba)
    requires
        image_valid(*b),
        x < image_dims(*b).0,
        y < image_dims(*b).1,
    ensures
        c@ == image_pixels(*b)[(x as int, y as int)],
{
    match b.get_color_of_px(x as usize, y as usize) {
        Ok(a) => Rgba { r: a[0], g: a[1], b: a[2], a: a[3] },
        Err(_) => Rgba { r: 0, g: 0, b: 0, a: 0 },
    }
}

/// A snapshot of the image's parsed header and pixel table, fetched once
/// per redraw loop so that per-cell reads need not re-parse the image
/// bytes. Opaque to the verifier; the two names below say what it holds.
#[verifier::external_body]
pub struct PixelTable {
    dib: bmp_rust::bmp::DIBHEADER,
    data: std::collections::VecDeque<Vec<Vec<u8>>>,
}

/// The pixel colors a snapshot holds.
pub uninterp spec fn table_pixels(t: PixelTable) -> Map<(int, int), (u8, u8, u8, u8)>;

/// The image dimensions a snapshot was taken at.
pub uninterp spec fn table_dims(t: PixelTable) -> (u32, u32);

/// Relies on `BMP::get_dib_header` and `BMP::get_pixel_data`: the snapshot
/// of a well-formed image holds exactly the image's pixels and size.
#[verifier::external_body]
pub(crate) fn fetch_table(b: &BMP) -> (t: PixelTable)
    requires
        image_valid(*b),
    ensures
        table_pixels(t) == image_pixels(*b),
        table_dims(t) == image_dims(*b),
{
    PixelTable {
        dib: b.get_dib_header().unwrap(),
        data: b.get_pixel_data().unwrap(),
    }
}

/// Relies on `BMP::get_color_of_px_efficient`: reading an in-bounds pixel
/// through the image's own snapshot returns its stored RGBA color without
/// re-parsing the image bytes.
#[verifier::external_body]
pub(crate) fn read_pixel_table(b: &BMP, t: &PixelTable, x: u16, y: u16) -> (c: Rgba)
    requires
        image_valid(*b),
        table_pixels(*t) == image_pixels(*b),
        table_dims(*t) == image_dims(*b),
        x < image_dims(*b).0,
        y < image_dims(*b).1,
    ensures
        c@ == image_pixels(*b)[(x as int, y as int)],
{
    match b.get_color_of_px_efficient(x as usize, y as usize, &t.dib, &t.data) {
        Ok(a) => Rgba { r: a[0], g: a[1], b: a[2], a: a[3] },
        Err(_) => Rgba { r: 0, g: 0, b: 0, a: 0 },
    }
}

/// Relies on `BMP::change_color_of_pixel`: writes one in-bounds pixel and
/// leaves the size and every other pixel unchanged.
#[verifier::external_body]
pub(crate) fn set_pixel_raw(b: &mut BMP, x: u16, y: u16, color: Rgba)
    requires
        image_valid(*old(b)),
        x < image_dims(*old(b)).0,
        y < image_dims(*old(b)).1,
    ensures
        image_valid(*final(b)),
        image_dims(*final(b)) == image_dims(*old(b)),
        image_pixels(*final(b)) == image_pixels(*old(b)).insert(
            (x as int, y as int),
            color@,
        ),
{
    let _ = b.change_color_of_pixel(x, y, [color.r, color.g, color.b, color.a]);
}

/// What `BMP::diff` returns for two images of equal size: the entries list
/// exactly the coordinates whose colors differ, each with the first image's
/// color as `before` and the second's as `after`, and no coordinate twice.
pub open spec fn diff_exact(
    es: Seq<DiffEntry>,
    a: Map<(int, int), (u8, u8, u8, u8)>,
    b: Map<(int, int), (u8, u8, u8, u8)>,
    width: int,
    height: int,
) -> bool {
    &&& forall|i: int|
        0 <= i < es.len() ==> {
            let c = ((#[trigger] es[i]).x as int, es[i].y as int);
            &&& 0 <= c.0 < width
            &&& 0 <= c.1 < height
            &&& es[i].before matches Some(p) && p@ == a[c]
            &&& es[i].after matches Some(p) && p@ == b[c]
            &&& a[c] != b[c]
        }
    &&& forall|c: (int, int)|
        #[trigger] coord_dom(width, height).contains(c) && a[c] != b[c] ==> exists|i: int|
            0 <= i < es.len() && ((#[trigger] es[i]).x as int, es[i].y as int) == c
    &&& forall|i: int, j: int|
        0 <= i < es.len() && 0 <= j < es.len() && i != j ==> ((#[trigger] es[i]).x,
        es[i].y) != ((#[trigger] es[j]).x, es[j].y)
}

/// Relies on `BMP::diff`: records both images' sizes, and for images of
/// equal size lists exactly the differing pixels with their colors in both
/// versions.
#[verifier::external_body]
pub(crate) fn diff_images(a: &BMP, b: &BMP) -> (d: Diff)
    requires
        image_valid(*a),
        image_valid(*b),
    ensures
        d.size1 == image_dims(*a),
        d.size2 == image_dims(*b),
        image_dims(*a) == image_dims(*b) ==> diff_exact(
            d.entries@,
            image_pixels(*a),
            image_pixels(*b),
            image_dims(*a).0 as int,
            image_dims(*a).1 as int,
        ),
{
    let raw = BMP::diff(a, b).unwrap();
    let conv = |p: [u8; 4]| Rgba { r: p[0], g: p[1], b: p[2], a: p[3] };
    let entries: Vec<DiffEntry> = raw.diff.iter().map(
        |e| DiffEntry { x: e.coord[0], y: e.coord[1], before: e.color1.map(conv), after: e.color2.map(conv) },
    ).collect();
    Diff {
        size1: (raw.image1_size[0], raw.image1_size[1]),
        size2: (raw.image2_size[0], raw.image2_size[1]),
        entries,
    }
}

/// Relies on `BMP::fill_bucket`: flood-fills from an in-bounds start pixel
/// and returns the coordinates it recolored. The returned list covers
/// exactly the flooded region, which always includes the start pixel;
/// every pixel of the region gets the fill color and every other pixel
/// keeps its color.
#[verifier::external_body]
pub(crate) fn fill_bucket_raw(b: &mut BMP, x: u16, y: u16, color: Rgba) -> (filled: Vec<
    (u16, u16),
>)
    requires
        image_valid(*old(b)),
        x < image_dims(*old(b)).0,
        y < image_dims(*old(b)).1,
    ensures
        image_valid(*final(b)),
        image_dims(*final(b)) == image_dims(*old(b)),
        flood_region_of(image_pixels(*old(b)), (x as int, y as int)).contains(
            (x as int, y as int),
        ),
        forall|i: int|
            0 <= i < filled@.len() ==> (#[trigger] filled@[i]).0 < image_dims(*old(b)).0
                && filled@[i].1 < image_dims(*old(b)).1,
        forall|c: (int, int)|
            image_pixels(*old(b)).dom().contains(c) ==> (#[trigger] contains_coord(filled@, c)
                <==> flood_region_of(image_pixels(*old(b)), (x as int, y as int)).contains(c)),
        forall|c: (int, int)|
            image_pixels(*old(b)).dom().contains(c) && flood_region_of(
                image_pixels(*old(b)),
                (x as int, y as int),
            ).contains(c) ==> #[trigger] image_pixels(*final(b))[c] == color@,
        forall|c: (int, int)|
            image_pixels(*old(b)).dom().contains(c) && !flood_region_of(
                image_pixels(*old(b)),
                (x as int, y as int),
            ).contains(c) ==> #[trigger] image_pixels(*final(b))[c] == image_pixels(*old(b))[c],
{
    let v = b.fill_bucket([color.r, color.g, color.b, color.a], x as usize, y as usize).unwrap();
    v.iter().map(|p| (p[0], p[1])).collect()
}

/// Relies on `BMP::invert`: flips every pixel's red, green and blue
/// channels and keeps its alpha.
#[verifier::external_body]
pub(crate) fn invert_raw(b: &mut BMP)
    requires
        image_valid(*old(b)),
    ensures
        image_valid(*final(b)),
        image_dims(*final(b)) == image_dims(*old(b)),
        forall|c: (int, int)|
            image_pixels(*old(b)).dom().contains(c) ==> #[trigger] image_pixels(*final(b))[c]
                == spec_invert_px(image_pixels(*old(b))[c]),
{
    let _ = b.invert(None);
}

/// Relies on `BMP::greyscale`: every pixel's red, green and blue channels
/// become the grey level of its old color, and its alpha is kept.
#[verifier::external_body]
pub(crate) fn greyscale_raw(b: &mut BMP)
    requires
        image_valid(*old(b)),
    ensures
        image_valid(*final(b)),
        image_dims(*final(b)) == image_dims(*old(b)),
        forall|c: (int, int)|
            image_pixels(*old(b)).dom().contains(c) ==> #[trigger] image_pixels(*final(b))[c]
                == {
                let g = grey_level(image_pixels(*old(b))[c]);
                (g, g, g, image_pixels(*old(b))[c].3)
            },
{
    let _ = b.greyscale();
}

/// Relies on `BMP::gaussian_blur`: replaces the contents by their blur,
/// a function of the contents and the radius alone. The radius stays at
/// most 7 because the routine sums binomial weights in 16 bits.
#[verifier::external_body]
pub(crate) fn gaussian_blur_raw(b: &mut BMP, radius: u8)
    requires
        image_valid(*old(b)),
        1 <= radius <= 7,
    ensures
        image_valid(*final(b)),
        image_dims(*final(b)) == image_dims(*old(b)),
        image_pixels(*final(b)) == gaussian_of(image_pixels(*old(b)), radius as int),
{
    let _ = b.gaussian_blur(radius);
}

/// Relies on `BMP::box_blur`: replaces the contents by their blur, a
/// function of the contents and the radius alone. The library rejects
/// radii outside 1 to 16.
#[verifier::external_body]
pub(crate) fn box_blur_raw(b: &mut BMP, radius: u8)
    requires
        image_valid(*old(b)),
        1 <= radius <= 16,
    ensures
        image_valid(*final(b)),
        image_dims(*final(b)) == image_dims(*old(b)),
        image_pixels(*final(b)) == box_of(image_pixels(*old(b)), radius as int),
{
    let _ = b.box_blur(radius);
}

/// The pixels of the RGB-flipped color, as the invert filter computes it.
pub open spec fn spec_invert_px(c: (u8, u8, u8, u8)) -> (u8, u8, u8, u8) {
    ((255 - c.0) as u8, (255 - c.1) as u8, (255 - c.2) as u8, c.3)
}

/// Whether a coordinate lies in the inclusive rectangle spanned by the two
/// corner coordinates, given in any order.
pub open spec fn in_span(c: (int, int), p1: (int, int), p2: (int, int)) -> bool {
    &&& vstd::math::min(p1.0, p2.0) <= c.0 <= vstd::math::max(p1.0, p2.0)
    &&& vstd::math::min(p1.1, p2.1) <= c.1 <= vstd::math::max(p1.1, p2.1)
}

/// Whether a line between the two endpoints runs along an axis or toward
/// the lower right; the library's line routine mis-steps outside its span
/// (underflowing on debug builds) for the remaining, anti-diagonal,
/// direction.
pub open spec fn line_direction_ok(p1: (u16, u16), p2: (u16, u16)) -> bool {
    ||| p1.0 <= p2.0 && p1.1 <= p2.1
    ||| p2.0 <= p1.0 && p2.1 <= p1.1
}

/// Relies on `BMP::draw_line`: paints the rastered line between two
/// in-bounds endpoints; every pixel outside the rectangle they span is
/// unchanged.
#[verifier::external_body]
pub(crate) fn draw_line_raw(b: &mut BMP, p1: (u16, u16), p2: (u16, u16), color: Rgba)
    requires
        image_valid(*old(b)),
        p1.0 < image_dims(*old(b)).0,
        p2.0 < image_dims(*old(b)).0,
        p1.1 < image_dims(*old(b)).1,
        p2.1 < image_dims(*old(b)).1,
        line_direction_ok(p1, p2),
    ensures
        image_valid(*final(b)),
        image_dims(*final(b)) == image_dims(*old(b)),
        image_pixels(*final(b)) == line_raster(
            image_pixels(*old(b)),
            (p1.0 as int, p1.1 as int),
            (p2.0 as int, p2.1 as int),
            color@,
        ),
        forall|c: (int, int)|
            image_pixels(*old(b)).dom().contains(c) && !in_span(
                c,
                (p1.0 as int, p1.1 as int),
                (p2.0 as int, p2.1 as int),
            ) ==> #[trigger] image_pixels(*final(b))[c] == image_pixels(*old(b))[c],
{
    let _ = b.draw_line([color.r, color.g, color.b, color.a], [p1.0, p1.1], [p2.0, p2.1]);
}

/// Relies on `BMP::draw_rectangle`: strokes and fills the rectangle with
/// the given top-left and bottom-right corners, both in bounds and at
/// least two pixels apart on each axis (the routine's fill bounds are
/// computed in 16 bits and wrap on anything thinner); every pixel outside
/// that rectangle is unchanged.
#[verifier::external_body]
pub(crate) fn draw_rect_raw(b: &mut BMP, p1: (u16, u16), p2: (u16, u16), color: Rgba)
    requires
        image_valid(*old(b)),
        p1.0 + 1 < p2.0,
        p1.1 + 1 < p2.1,
        p2.0 < image_dims(*old(b)).0,
        p2.1 < image_dims(*old(b)).1,
    ensures
        image_valid(*final(b)),
        image_dims(*final(b)) == image_dims(*old(b)),
        image_pixels(*final(b)) == rect_raster(
            image_pixels(*old(b)),
            (p1.0 as int, p1.1 as int),
            (p2.0 as int, p2.1 as int),
            color@,
        ),
        forall|c: (int, int)|
            image_pixels(*old(b)).dom().contains(c) && !in_span(
                c,
                (p1.0 as int, p1.1 as int),
                (p2.0 as int, p2.1 as int),
            ) ==> #[trigger] image_pixels(*final(b))[c] == image_pixels(*old(b))[c],
{
    let fill = [color.r, color.g, color.b, color.a];
    let _ = b.draw_rectangle(Some(fill), Some(fill), [p1.0, p1.1], [p2.0, p2.1]);
}

/// Relies on `BMP::draw_ellipse`: strokes and fills the ellipse with the
/// given center and radii, which must keep it inside the image; every pixel
/// outside its bounding rectangle is unchanged.
#[verifier::external_body]
pub(crate) fn draw_ellipse_raw(
    b: &mut BMP,
    center: (u16, u16),
    xlength: u16,
    ylength: u16,
    color: Rgba,
)
    requires
        image_valid(*old(b)),
        center.0 >= xlength,
        center.1 >= ylength,
        center.0 + xlength < image_dims(*old(b)).0,
        center.1 + ylength < image_dims(*old(b)).1,
    ensures
        image_valid(*final(b)),
        image_dims(*final(b)) == image_dims(*old(b)),
        image_pixels(*final(b)) == ellipse_raster(
            image_pixels(*old(b)),
            (center.0 as int, center.1 as int),
            xlength as int,
            ylength as int,
            color@,
        ),
        forall|c: (int, int)|
            image_pixels(*old(b)).dom().contains(c) && !in_span(
                c,
                (center.0 - xlength, center.1 - ylength),
                (center.0 + xlength, center.1 + ylength),
            ) ==> #[trigger] image_pixels(*final(b))[c] == image_pixels(*old(b))[c],
{
    let fill = [color.r, color.g, color.b, color.a];
    let _ = b.draw_ellipse([center.0, center.1], xlength, ylength, fill, Some(fill), true);
}

/// Creates a fresh all-white image, as the create dialog's confirm action
/// asks for.
pub fn create_image(height: u32, width: u32) -> (b: BMP)
    requires
        1 <= height <= 2047,
        1 <= width <= 2047,
    ensures
        image_valid(b),
        image_dims(b) == (width, height),
        image_pixels(b) == all_white(width as int, height as int),
{
    new_image_raw(height, width)
}

/// The image's width and absolute height.
pub fn image_size(b: &BMP) -> (d: (u32, u32))
    requires
        image_valid(*b),
    ensures
        d == image_dims(*b),
{
    image_size_raw(b)
}

/// Reads one pixel, or `None` when the coordinate lies outside the image.
pub fn get_pixel(b: &BMP, x: u16, y: u16) -> (r: Option<Rgba>)
    requires
        image_valid(*b),
    ensures
        r is Some <==> (x as int) < image_dims(*b).0 && (y as int) < image_dims(*b).1,
        r matches Some(c) ==> c@ == image_pixels(*b)[(x as int, y as int)],
{
    let (w, h) = image_size_raw(b);
    if (x as u32) < w && (y as u32) < h {
        Some(read_pixel(b, x, y))
    } else {
        None
    }
}

} // verus!
