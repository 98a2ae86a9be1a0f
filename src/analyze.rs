//! Reading the image: classifying pixels, bounding the significant ones, and
//! sampling a pixel's neighbourhood; and the outline that one pixel becomes.
use crate::generate::Config;
use crate::sizes::{fits_i64, KicadDim, KicadPos, PixelDim, PixelPos};
use image::{GrayAlphaImage, LumaA};
use vstd::prelude::*;

verus! {

/// A decoded image with a luminance and an alpha channel per pixel, held in
/// the `image` crate's buffer. The buffer type cannot be declared to Verus
/// directly (its `Pixel` bound is an outside trait), so it sits in a field
/// that Verus does not look into, described by `image_width` and
/// `image_rows`.
#[verifier::external_body]
pub struct LumaAlphaImage {
    buffer: GrayAlphaImage,
}

/// The width that an image was made with.
pub uninterp spec fn image_width(img: LumaAlphaImage) -> nat;

/// The pixels of an image, row by row from the top, each as
/// (luminance, alpha).
pub uninterp spec fn image_rows(img: LumaAlphaImage) -> Seq<Seq<(u8, u8)>>;

/// The `h` rows of `w` pixels that a raw buffer of interleaved luminance and
/// alpha bytes holds.
pub open spec fn rows_of(w: nat, h: nat, data: Seq<u8>) -> Seq<Seq<(u8, u8)>> {
    Seq::new(
        h,
        |y: int| Seq::new(w, |x: int| (data[2 * (y * w + x)], data[2 * (y * w + x) + 1])),
    )
}

impl LumaAlphaImage {
    /// Relies on `ImageBuffer::from_raw`: it takes the bytes as rows of
    /// interleaved (luminance, alpha) pairs, and refuses a buffer shorter
    /// than two bytes per pixel.
    #[verifier::external_body]
    pub fn from_raw(width: u32, height: u32, data: Vec<u8>) -> (r: Option<LumaAlphaImage>)
        ensures
            r is Some <==> 2 * width * height <= data.len(),
            r matches Some(img) ==> image_width(img) == width && image_rows(img) == rows_of(
                width as nat,
                height as nat,
                data@,
            ),
    {
        GrayAlphaImage::from_raw(width, height, data).map(|buffer| LumaAlphaImage { buffer })
    }

    /// Relies on `ImageBuffer::width`.
    #[verifier::external_body]
    pub(crate) fn width(&self) -> (r: u32)
        ensures
            r == image_width(*self),
    {
        self.buffer.width()
    }

    /// Relies on `ImageBuffer::height`: the number of rows, each `width`
    /// pixels long.
    #[verifier::external_body]
    pub(crate) fn height(&self) -> (r: u32)
        ensures
            r == image_rows(*self).len(),
            forall|y: int| 0 <= y < r ==> (#[trigger] image_rows(*self)[y]).len() == image_width(*self),
    {
        self.buffer.height()
    }

    /// Relies on `ImageBuffer::get_pixel`, which panics outside the image.
    #[verifier::external_body]
    pub(crate) fn luma_alpha(&self, x: u32, y: u32) -> (r: (u8, u8))
        requires
            x < image_width(*self),
            y < image_rows(*self).len(),
        ensures
            r == image_rows(*self)[y as int][x as int],
    {
        let LumaA([luma, alpha]) = *self.buffer.get_pixel(x, y);
        (luma, alpha)
    }
}

/// The class of a pixel.
#[derive(Clone, Copy, Debug, PartialEq, Eq, Structural)]
pub enum PixelKind {
    /// Not significant: draws nothing.
    Transparent,
    Light,
    Dark,
}

/// Half of an 8-bit channel's range, rounded down.
pub const HALF_CHANNEL: u8 = 127;

/// A pixel is transparent when its alpha is below half; otherwise it is light
/// when its luminance is above half, and dark when not.
pub open spec fn kind_of(luma: u8, alpha: u8) -> PixelKind {
    if alpha < HALF_CHANNEL {
        PixelKind::Transparent
    } else if luma > HALF_CHANNEL {
        PixelKind::Light
    } else {
        PixelKind::Dark
    }
}

pub open spec fn in_image(img: LumaAlphaImage, x: int, y: int) -> bool {
    0 <= x < image_width(img) && 0 <= y < image_rows(img).len()
}

/// The class of the pixel at (x, y); outside the image, `Transparent`.
pub open spec fn kind_at(img: LumaAlphaImage, x: int, y: int) -> PixelKind {
    if in_image(img, x, y) {
        let p = image_rows(img)[y][x];
        kind_of(p.0, p.1)
    } else {
        PixelKind::Transparent
    }
}

pub open spec fn significant(img: LumaAlphaImage, x: int, y: int) -> bool {
    kind_at(img, x, y) != PixelKind::Transparent
}

impl PixelKind {
    /// Classifies one pixel given its luminance and alpha.
    pub fn from_pixel(luma: u8, alpha: u8) -> (r: PixelKind)
        ensures
            r == kind_of(luma, alpha),
    {
        if alpha < HALF_CHANNEL {
            PixelKind::Transparent
        } else if luma > HALF_CHANNEL {
            PixelKind::Light
        } else {
            PixelKind::Dark
        }
    }
}

/// The bounding box of the significant pixels, corners included.
#[derive(Clone, Copy, Debug)]
pub struct Extents {
    pub min: PixelPos,
    pub max: PixelPos,
}

/// Why no extents exist.
#[derive(Clone, Copy, Debug, PartialEq, Eq, Structural)]
pub enum ExtentsError {
    /// The image holds no significant pixel, so it has no center.
    NoSignificantPixels,
}

impl Extents {
    /// The box is not empty, and one past its far corner is still an index.
    pub open spec fn wf(&self) -> bool {
        &&& self.min.x.0 <= self.max.x.0 < u32::MAX
        &&& self.min.y.0 <= self.max.y.0 < u32::MAX
    }

    /// The box holds exactly the bounds of the significant pixels of `img`:
    /// every one lies inside, and each side touches one.
    pub open spec fn bounds(&self, img: LumaAlphaImage) -> bool {
        &&& forall|x: int, y: int|
            #[trigger] significant(img, x, y) ==> self.min.x.0 <= x <= self.max.x.0
                && self.min.y.0 <= y <= self.max.y.0
        &&& exists|x: int, y: int| #[trigger] significant(img, x, y) && x == self.min.x.0
        &&& exists|x: int, y: int| #[trigger] significant(img, x, y) && x == self.max.x.0
        &&& exists|x: int, y: int| #[trigger] significant(img, x, y) && y == self.min.y.0
        &&& exists|x: int, y: int| #[trigger] significant(img, x, y) && y == self.max.y.0
    }

    /// The extents of the significant pixels of `img`, where there are any.
    pub open spec fn of(img: LumaAlphaImage) -> Extents {
        choose|e: Extents| e.wf() && e.bounds(img)
    }

    /// Bounds of one image are unique.
    pub proof fn lemma_bounds_unique(img: LumaAlphaImage, a: Extents, b: Extents)
        requires
            a.bounds(img),
            b.bounds(img),
        ensures
            a == b,
    {
        let (x0, y0) = choose|x: int, y: int| #[trigger] significant(img, x, y) && x == a.min.x.0;
        let (x1, y1) = choose|x: int, y: int| #[trigger] significant(img, x, y) && x == b.min.x.0;
        let (x2, y2) = choose|x: int, y: int| #[trigger] significant(img, x, y) && x == a.max.x.0;
        let (x3, y3) = choose|x: int, y: int| #[trigger] significant(img, x, y) && x == b.max.x.0;
        let (x4, y4) = choose|x: int, y: int| #[trigger] significant(img, x, y) && y == a.min.y.0;
        let (x5, y5) = choose|x: int, y: int| #[trigger] significant(img, x, y) && y == b.min.y.0;
        let (x6, y6) = choose|x: int, y: int| #[trigger] significant(img, x, y) && y == a.max.y.0;
        let (x7, y7) = choose|x: int, y: int| #[trigger] significant(img, x, y) && y == b.max.y.0;
        assert(a.min == b.min);
        assert(a.max == b.max);
    }

    pub open spec fn center_x(&self) -> int {
        self.min.x.0 + (self.max.x.0 - self.min.x.0) / 2
    }

    pub open spec fn center_y(&self) -> int {
        self.min.y.0 + (self.max.y.0 - self.min.y.0) / 2
    }

    /// Scans the whole image once for the bounds of its significant pixels.
    pub fn from_image(img: &LumaAlphaImage) -> (r: Result<Extents, ExtentsError>)
        ensures
            r is Err <==> !exists|x: int, y: int| significant(*img, x, y),
            r matches Ok(e) ==> e.wf() && e.bounds(*img) && e == Extents::of(*img),
    {
        let w = img.width();
        let h = img.height();
        let mut found = false;
        let mut min_x: u32 = u32::MAX;
        let mut max_x: u32 = 0;
        let mut min_y: u32 = u32::MAX;
        let mut max_y: u32 = 0;
        let mut y: u32 = 0;
        while y < h
            invariant
                w == image_width(*img),
                h == image_rows(*img).len(),
                forall|j: int| 0 <= j < h ==> (#[trigger] image_rows(*img)[j]).len() == w,
                y <= h,
                found <==> exists|px: int, py: int| #[trigger] significant(*img, px, py) && py < y,
                found ==> min_x <= max_x < w && min_y <= max_y < y,
                !found ==> min_x == u32::MAX && max_x == 0 && min_y == u32::MAX && max_y == 0,
                forall|px: int, py: int|
                    #[trigger] significant(*img, px, py) && py < y ==> min_x <= px <= max_x
                        && min_y <= py <= max_y,
                found ==> exists|px: int, py: int| #[trigger] significant(*img, px, py) && py < y && px == min_x,
                found ==> exists|px: int, py: int| #[trigger] significant(*img, px, py) && py < y && px == max_x,
                found ==> exists|px: int, py: int| #[trigger] significant(*img, px, py) && py < y && py == min_y,
                found ==> exists|px: int, py: int| #[trigger] significant(*img, px, py) && py < y && py == max_y,
            decreases h - y,
        {
            let mut x: u32 = 0;
            while x < w
                invariant
                    w == image_width(*img),
                    h == image_rows(*img).len(),
                    forall|j: int| 0 <= j < h ==> (#[trigger] image_rows(*img)[j]).len() == w,
                    y < h,
                    x <= w,
                    found <==> exists|px: int, py: int| #[trigger] significant(*img, px, py) && (py < y || (py == y && px < x)),
                    found ==> min_x <= max_x < w && min_y <= max_y <= y,
                    !found ==> min_x == u32::MAX && max_x == 0 && min_y == u32::MAX && max_y == 0,
                    forall|px: int, py: int|
                        #[trigger] significant(*img, px, py) && (py < y || (py == y && px < x)) ==> min_x <= px <= max_x
                            && min_y <= py <= max_y,
                    found ==> exists|px: int, py: int| #[trigger] significant(*img, px, py) && (py < y || (py == y && px < x)) && px == min_x,
                    found ==> exists|px: int, py: int| #[trigger] significant(*img, px, py) && (py < y || (py == y && px < x)) && px == max_x,
                    found ==> exists|px: int, py: int| #[trigger] significant(*img, px, py) && (py < y || (py == y && px < x)) && py == min_y,
                    found ==> exists|px: int, py: int| #[trigger] significant(*img, px, py) && (py < y || (py == y && px < x)) && py == max_y,
                decreases w - x,
            {
                let (luma, alpha) = img.luma_alpha(x, y);
                let kind = PixelKind::from_pixel(luma, alpha);
                assert(kind == kind_at(*img, x as int, y as int));
                if kind != PixelKind::Transparent {
                    assert(significant(*img, x as int, y as int));
                    if x < min_x {
                        min_x = x;
                    }
                    if x > max_x {
                        max_x = x;
                    }
                    if y < min_y {
                        min_y = y;
                    }
                    if y > max_y {
                        max_y = y;
                    }
                    found = true;
                }
                x = x + 1;
            }
            y = y + 1;
        }
        if !found {
            return Err(ExtentsError::NoSignificantPixels);
        }
        assert forall|px: int, py: int| significant(*img, px, py) implies py < h by {}
        let e = Extents {
            min: PixelPos { x: PixelDim(min_x), y: PixelDim(min_y) },
            max: PixelPos { x: PixelDim(max_x), y: PixelDim(max_y) },
        };
        proof {
            assert(e.wf() && e.bounds(*img));
            Extents::lemma_bounds_unique(*img, e, Extents::of(*img));
        }
        Ok(e)
    }

    /// The floor of the midpoint of the box: the origin of physical positions.
    pub fn center(&self) -> (r: PixelPos)
        requires
            self.wf(),
        ensures
            r.x.0 == self.center_x(),
            r.y.0 == self.center_y(),
    {
        let x = self.min.x.0 + (self.max.x.0 - self.min.x.0) / 2;
        let y = self.min.y.0 + (self.max.y.0 - self.min.y.0) / 2;
        PixelPos { x: PixelDim(x), y: PixelDim(y) }
    }
}

/// The classes of a pixel and of its eight neighbours; a neighbour outside
/// the image is `Transparent`.
#[derive(Clone, Copy, Debug, PartialEq, Eq, Structural)]
pub struct Nearby {
    pub this: PixelKind,
    pub top: PixelKind,
    pub bot: PixelKind,
    pub left: PixelKind,
    pub right: PixelKind,
    pub top_left: PixelKind,
    pub top_right: PixelKind,
    pub bot_left: PixelKind,
    pub bot_right: PixelKind,
}

/// The class at a position given as optional coordinates; a missing
/// coordinate, or one outside the image, gives `Transparent`.
fn kind_at_checked(img: &LumaAlphaImage, x: Option<u32>, y: Option<u32>) -> (r: PixelKind)
    ensures
        r == match (x, y) {
            (Some(x), Some(y)) => kind_at(*img, x as int, y as int),
            _ => PixelKind::Transparent,
        },
{
    match (x, y) {
        (Some(x), Some(y)) => {
            if x < img.width() && y < img.height() {
                let (luma, alpha) = img.luma_alpha(x, y);
                PixelKind::from_pixel(luma, alpha)
            } else {
                PixelKind::Transparent
            }
        },
        _ => PixelKind::Transparent,
    }
}

fn step_back(v: u32) -> (r: Option<u32>)
    ensures
        r matches Some(p) ==> p == v - 1,
        r is None ==> v == 0,
{
    if v > 0 {
        Some(v - 1)
    } else {
        None
    }
}

fn step_on(v: u32) -> (r: Option<u32>)
    ensures
        r matches Some(n) ==> n == v + 1,
        r is None ==> v == u32::MAX,
{
    if v < u32::MAX {
        Some(v + 1)
    } else {
        None
    }
}

impl Nearby {
    /// The neighbourhood that `img` gives the pixel whose top-left corner is
    /// (x, y).
    pub open spec fn of(img: LumaAlphaImage, x: int, y: int) -> Nearby {
        Nearby {
            this: kind_at(img, x, y),
            top: kind_at(img, x, y - 1),
            bot: kind_at(img, x, y + 1),
            left: kind_at(img, x - 1, y),
            right: kind_at(img, x + 1, y),
            top_left: kind_at(img, x - 1, y - 1),
            top_right: kind_at(img, x + 1, y - 1),
            bot_left: kind_at(img, x - 1, y + 1),
            bot_right: kind_at(img, x + 1, y + 1),
        }
    }

    /// Samples the pixel at `pos` and its eight neighbours.
    pub fn from_pos(img: &LumaAlphaImage, pos: PixelPos) -> (r: Nearby)
        ensures
            r == Nearby::of(*img, pos.x.0 as int, pos.y.0 as int),
    {
        let x = pos.x.0;
        let y = pos.y.0;
        let (w, h) = (img.width(), img.height());
        let up = step_back(y);
        let down = step_on(y);
        let back = step_back(x);
        let on = step_on(x);
        assert(up is None ==> kind_at(*img, x as int, y - 1) == PixelKind::Transparent);
        assert(down is None ==> !(y + 1 < h));
        Nearby {
            this: kind_at_checked(img, Some(x), Some(y)),
            top: kind_at_checked(img, Some(x), up),
            bot: kind_at_checked(img, Some(x), down),
            left: kind_at_checked(img, back, Some(y)),
            right: kind_at_checked(img, on, Some(y)),
            top_left: kind_at_checked(img, back, up),
            top_right: kind_at_checked(img, on, up),
            bot_left: kind_at_checked(img, back, down),
            bot_right: kind_at_checked(img, on, down),
        }
    }
}

/// One corner of a pixel's outline, at (x, y); `x_inset` and `y_inset` are
/// the corner moved by the clearance toward the pixel's interior. An axis
/// whose edge neighbour is dark takes its inset. A corner that touches dark
/// only across the diagonal becomes a three-point notch around it, listed
/// backwards where `reflect` is set so that the outline keeps one direction.
pub open spec fn corner(
    x: int,
    x_inset: int,
    y: int,
    y_inset: int,
    horiz: PixelKind,
    vert: PixelKind,
    diag: PixelKind,
    reflect: bool,
) -> Seq<(int, int)> {
    if horiz == PixelKind::Dark || vert == PixelKind::Dark || diag != PixelKind::Dark {
        seq![
            (
                if horiz == PixelKind::Dark { x_inset } else { x },
                if vert == PixelKind::Dark { y_inset } else { y },
            ),
        ]
    } else if reflect {
        seq![(x_inset, y), (x_inset, y_inset), (x, y_inset)]
    } else {
        seq![(x, y_inset), (x_inset, y_inset), (x_inset, y)]
    }
}

/// The four corners of a rectangle, clockwise from the top left (y grows
/// downward).
pub open spec fn square(left: int, top: int, right: int, bot: int) -> Seq<(int, int)> {
    seq![(left, top), (right, top), (right, bot), (left, bot)]
}

/// The outline of a light pixel whose edges lie at `xs.0` (left) and `xs.3`
/// (right), `ys.0` (top) and `ys.3` (bottom); `xs.1`, `xs.2`, `ys.1`, `ys.2`
/// are those edges moved inward by the clearance.
pub open spec fn light_outline(
    nb: Nearby,
    xs: (int, int, int, int),
    ys: (int, int, int, int),
) -> Seq<(int, int)> {
    corner(xs.0, xs.1, ys.0, ys.1, nb.left, nb.top, nb.top_left, false)
        + corner(xs.3, xs.2, ys.0, ys.1, nb.right, nb.top, nb.top_right, true)
        + corner(xs.3, xs.2, ys.3, ys.2, nb.right, nb.bot, nb.bot_right, false)
        + corner(xs.0, xs.1, ys.3, ys.2, nb.left, nb.bot, nb.bot_left, true)
}

/// The outline of a pixel of class `kind` whose top-left corner lies at
/// (left, top) and whose sides are `pitch` long: a dark pixel fills its whole
/// square; a light one keeps `clearance` away from dark neighbours.
pub open spec fn pixel_outline(
    kind: PixelKind,
    nb: Nearby,
    left: int,
    top: int,
    pitch: int,
    clearance: int,
) -> Seq<(int, int)> {
    let right = left + pitch;
    let bot = top + pitch;
    if kind == PixelKind::Dark {
        square(left, top, right, bot)
    } else {
        light_outline(
            nb,
            (left, left + clearance, right - clearance, right),
            (top, top + clearance, bot - clearance, bot),
        )
    }
}

/// The physical coordinate of pixel edge `pos` on an axis whose origin is
/// pixel edge `origin`.
pub open spec fn physical(pitch: int, pos: int, origin: int) -> int {
    pitch * (pos - origin)
}

/// Edge `pos` maps to a representable coordinate, which stays representable
/// when moved by the clearance either way.
pub open spec fn edge_fits(pitch: int, clearance: int, pos: int, origin: int) -> bool {
    let d = if pos >= origin { pos - origin } else { origin - pos };
    &&& d < 2048
    &&& -i64::MAX <= pitch * d <= i64::MAX
    &&& fits_i64(physical(pitch, pos, origin) + clearance)
    &&& fits_i64(physical(pitch, pos, origin) - clearance)
}

pub open spec fn points_view(points: Seq<KicadPos>) -> Seq<(int, int)> {
    points.map_values(|p: KicadPos| p@)
}

/// Negates `x` when `cond` holds.
pub fn neg_if(cond: bool, x: KicadDim) -> (r: KicadDim)
    requires
        cond ==> x.0 != i64::MIN,
    ensures
        r@ == if cond { -x@ } else { x@ },
{
    if cond {
        x.neg()
    } else {
        x
    }
}

/// The physical coordinate of pixel edge `pos` relative to `origin`.
fn edge_coord(config: &Config, pos: PixelDim, origin: PixelDim) -> (r: KicadDim)
    requires
        edge_fits(config.pixel_pitch@, config.clearance@, pos.0 as int, origin.0 as int),
    ensures
        r@ == physical(config.pixel_pitch@, pos.0 as int, origin.0 as int),
{
    let d = pos.abs_diff(origin);
    let relative = config.pixel_pitch.mul(d);
    let r = neg_if(pos.0 < origin.0, relative);
    assert(r@ == physical(config.pixel_pitch@, pos.0 as int, origin.0 as int)) by (nonlinear_arith)
        requires
            relative@ == config.pixel_pitch@ * d.0,
            d.0 == if pos.0 >= origin.0 { pos.0 - origin.0 } else { origin.0 - pos.0 },
            r@ == if pos.0 < origin.0 { -relative@ } else { relative@ },
    ;
    r
}

/// Appends one corner of a light pixel's outline; the corner's insets move
/// left where `horiz_is_positive` and up where `vert_is_positive`.
fn add_corner_points(
    points: &mut Vec<KicadPos>,
    x: KicadDim,
    y: KicadDim,
    horiz: PixelKind,
    vert: PixelKind,
    diag: PixelKind,
    horiz_is_positive: bool,
    vert_is_positive: bool,
    clearance: KicadDim,
)
    requires
        fits_i64(x@ + clearance@) && fits_i64(x@ - clearance@),
        fits_i64(y@ + clearance@) && fits_i64(y@ - clearance@),
    ensures
        points_view(final(points)@) == points_view(old(points)@) + corner(
            x@,
            if horiz_is_positive { x@ - clearance@ } else { x@ + clearance@ },
            y@,
            if vert_is_positive { y@ - clearance@ } else { y@ + clearance@ },
            horiz,
            vert,
            diag,
            horiz_is_positive != vert_is_positive,
        ),
{
    let ghost before = points@;
    let x_inset = if horiz_is_positive { x.sub(clearance) } else { x.add(clearance) };
    let y_inset = if vert_is_positive { y.sub(clearance) } else { y.add(clearance) };
    if horiz == PixelKind::Dark || vert == PixelKind::Dark || diag != PixelKind::Dark {
        let px = if horiz == PixelKind::Dark { x_inset } else { x };
        let py = if vert == PixelKind::Dark { y_inset } else { y };
        points.push(KicadPos { x: px, y: py });
    } else if horiz_is_positive != vert_is_positive {
        points.push(KicadPos { x: x_inset, y });
        points.push(KicadPos { x: x_inset, y: y_inset });
        points.push(KicadPos { x, y: y_inset });
    } else {
        points.push(KicadPos { x, y: y_inset });
        points.push(KicadPos { x: x_inset, y: y_inset });
        points.push(KicadPos { x: x_inset, y });
    }
    assert(points_view(points@) =~= points_view(before) + corner(
        x@,
        x_inset@,
        y@,
        y_inset@,
        horiz,
        vert,
        diag,
        horiz_is_positive != vert_is_positive,
    ));
}

/// Every pixel edge of the pixel whose top-left corner is (x, y) maps to a
/// representable coordinate.
pub open spec fn pixel_fits(config: Config, extents: Extents, x: int, y: int) -> bool {
    let (p, c) = (config.pixel_pitch@, config.clearance@);
    let (ox, oy) = (extents.center_x() + 1, extents.center_y() + 1);
    &&& x < u32::MAX
    &&& y < u32::MAX
    &&& edge_fits(p, c, x, ox)
    &&& edge_fits(p, c, x + 1, ox)
    &&& edge_fits(p, c, y, oy)
    &&& edge_fits(p, c, y + 1, oy)
}

fn edge_fits_exec(pitch: i64, clearance: i64, pos: u32, origin: u32) -> (r: bool)
    ensures
        r == edge_fits(pitch as int, clearance as int, pos as int, origin as int),
{
    let d: i128 = pos as i128 - origin as i128;
    let dist: i128 = if d >= 0 { d } else { -d };
    if dist >= 2048 {
        return false;
    }
    assert(-0x8000_0000_0000_0000 * 2048 <= pitch * dist <= 0x8000_0000_0000_0000 * 2048) by (nonlinear_arith)
        requires
            i64::MIN <= pitch <= i64::MAX,
            0 <= dist < 2048,
    ;
    assert(-0x8000_0000_0000_0000 * 0x1_0000_0000 <= pitch * d <= 0x8000_0000_0000_0000 * 0x1_0000_0000) by (nonlinear_arith)
        requires
            i64::MIN <= pitch <= i64::MAX,
            -0x1_0000_0000 <= d <= 0x1_0000_0000,
    ;
    let m: i128 = pitch as i128 * dist;
    let v: i128 = pitch as i128 * d;
    let lo: i128 = i64::MIN as i128;
    let hi: i128 = i64::MAX as i128;
    -hi <= m && m <= hi && lo <= v + clearance as i128 && v + clearance as i128 <= hi && lo <= v
        - clearance as i128 && v - clearance as i128 <= hi
}

/// Checks that every pixel edge of the pixel at (x, y) maps to a
/// representable coordinate.
pub fn pixel_fits_exec(config: &Config, extents: &Extents, x: u32, y: u32) -> (r: bool)
    requires
        extents.wf(),
    ensures
        r == pixel_fits(*config, *extents, x as int, y as int),
{
    if x == u32::MAX || y == u32::MAX {
        return false;
    }
    let center = extents.center();
    let (ox, oy) = (center.x.0 + 1, center.y.0 + 1);
    let (p, c) = (config.pixel_pitch.0, config.clearance.0);
    edge_fits_exec(p, c, x, ox) && edge_fits_exec(p, c, x + 1, ox) && edge_fits_exec(p, c, y, oy)
        && edge_fits_exec(p, c, y + 1, oy)
}

/// The outline of the pixel whose top-left corner is `top_left`, as points in
/// traversal order, the last joining back to the first. Physical positions
/// are taken from the pixel edge one past the center of `extents`.
pub fn for_each_point_in_pixel(
    top_left: PixelPos,
    kind: PixelKind,
    nearby: &Nearby,
    extents: &Extents,
    config: &Config,
) -> (r: Vec<KicadPos>)
    requires
        kind != PixelKind::Transparent,
        extents.wf(),
        pixel_fits(*config, *extents, top_left.x.0 as int, top_left.y.0 as int),
    ensures
        points_view(r@) == pixel_outline(
            kind,
            *nearby,
            physical(config.pixel_pitch@, top_left.x.0 as int, extents.center_x() + 1),
            physical(config.pixel_pitch@, top_left.y.0 as int, extents.center_y() + 1),
            config.pixel_pitch@,
            config.clearance@,
        ),
{
    // positions are based on the top left of each pixel, so the origin sits
    // one pixel past the center
    let center = extents.center().add(PixelPos { x: PixelDim(1), y: PixelDim(1) });
    let top = top_left.y;
    let bot = PixelDim(top.0 + 1);
    let left = top_left.x;
    let right = PixelDim(left.0 + 1);
    let top = edge_coord(config, top, center.y);
    let bot = edge_coord(config, bot, center.y);
    let left = edge_coord(config, left, center.x);
    let right = edge_coord(config, right, center.x);
    let ghost pitch = config.pixel_pitch@;
    assert(right@ == left@ + pitch && bot@ == top@ + pitch) by (nonlinear_arith)
        requires
            right@ == physical(pitch, top_left.x.0 + 1, center.x.0 as int),
            left@ == physical(pitch, top_left.x.0 as int, center.x.0 as int),
            bot@ == physical(pitch, top_left.y.0 + 1, center.y.0 as int),
            top@ == physical(pitch, top_left.y.0 as int, center.y.0 as int),
    ;
    let mut points: Vec<KicadPos> = Vec::new();
    if kind == PixelKind::Dark {
        // dark pixels always fill the whole pixel
        points.push(KicadPos { x: left, y: top });
        points.push(KicadPos { x: right, y: top });
        points.push(KicadPos { x: right, y: bot });
        points.push(KicadPos { x: left, y: bot });
        assert(points_view(points@) =~= square(left@, top@, right@, bot@));
    } else {
        let c = config.clearance;
        add_corner_points(&mut points, left, top, nearby.left, nearby.top, nearby.top_left, false, false, c);
        add_corner_points(&mut points, right, top, nearby.right, nearby.top, nearby.top_right, true, false, c);
        add_corner_points(&mut points, right, bot, nearby.right, nearby.bot, nearby.bot_right, true, true, c);
        add_corner_points(&mut points, left, bot, nearby.left, nearby.bot, nearby.bot_left, false, true, c);
        assert(points_view(Seq::<KicadPos>::empty()) =~= Seq::<(int, int)>::empty());
        assert(points_view(points@) =~= light_outline(
            *nearby,
            (left@, left@ + c@, right@ - c@, right@),
            (top@, top@ + c@, bot@ - c@, bot@),
        ));
    }
    points
}

} // verus!
