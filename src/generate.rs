//! Turning a whole image into polygon records, and the footprint text that
//! carries them.
use crate::analyze::{
    for_each_point_in_pixel, image_rows, image_width, kind_at, physical, pixel_fits,
    pixel_fits_exec, pixel_outline, points_view, significant, Extents, ExtentsError,
    LumaAlphaImage, Nearby, PixelKind,
};
use crate::sizes::{KicadDim, KicadPos, PixelDim, PixelPos};
use vstd::prelude::*;

verus! {

/// The settings of one run.
#[derive(Clone, Copy, Debug)]
pub struct Config {
    /// The physical size of one pixel.
    pub pixel_pitch: KicadDim,
    /// The gap kept between light regions and dark ones.
    pub clearance: KicadDim,
    /// Swaps which class of pixel goes to which layers.
    pub invert: bool,
}

/// An output layer of the footprint.
#[derive(Clone, Copy, Debug, PartialEq, Eq, Structural)]
pub enum Layer {
    FrontSilkscreen,
    FrontCopper,
    FrontMask,
}

pub open spec fn layer_name(layer: Layer) -> Seq<char> {
    match layer {
        Layer::FrontSilkscreen => "F.SilkS"@,
        Layer::FrontCopper => "F.Cu"@,
        Layer::FrontMask => "F.Mask"@,
    }
}

impl Layer {
    /// The layer's name in the footprint format.
    pub fn name(&self) -> (r: &'static str)
        ensures
            r@ == layer_name(*self),
    {
        match self {
            Layer::FrontSilkscreen => "F.SilkS",
            Layer::FrontCopper => "F.Cu",
            Layer::FrontMask => "F.Mask",
        }
    }
}

/// The layers that a pixel of class `kind` is drawn on: light pixels go to
/// the silkscreen and dark ones to copper and mask, or the other way round
/// when `invert` is set; transparent pixels go nowhere.
pub open spec fn layer_plan(kind: PixelKind, invert: bool) -> Seq<Layer> {
    if kind == PixelKind::Transparent {
        seq![]
    } else if (kind == PixelKind::Light) != invert {
        seq![Layer::FrontSilkscreen]
    } else {
        seq![Layer::FrontCopper, Layer::FrontMask]
    }
}

/// Picks the layers for a pixel of class `kind`.
pub fn layers_for(kind: PixelKind, invert: bool) -> (r: Vec<Layer>)
    ensures
        r@ == layer_plan(kind, invert),
{
    let mut r: Vec<Layer> = Vec::new();
    if kind == PixelKind::Transparent {
    } else if (kind == PixelKind::Light) != invert {
        r.push(Layer::FrontSilkscreen);
    } else {
        r.push(Layer::FrontCopper);
        r.push(Layer::FrontMask);
    }
    assert(r@ =~= layer_plan(kind, invert));
    r
}

/// One filled outline on one layer.
#[derive(Debug)]
pub struct Polygon {
    pub layer: Layer,
    pub points: Vec<KicadPos>,
}

impl View for Polygon {
    type V = (Layer, Seq<(int, int)>);

    open spec fn view(&self) -> (Layer, Seq<(int, int)>) {
        (self.layer, points_view(self.points@))
    }
}

pub open spec fn polygons_view(ps: Seq<Polygon>) -> Seq<(Layer, Seq<(int, int)>)> {
    ps.map_values(|p: Polygon| p@)
}

/// What could stop a whole image from becoming polygons.
#[derive(Clone, Copy, Debug, PartialEq, Eq, Structural)]
pub enum GenerateError {
    /// The image holds no significant pixel.
    NoSignificantPixels,
    /// A pixel lies too far from the center for its coordinates to be
    /// represented at this pitch and clearance.
    OutOfRange,
}

/// The polygons of the pixel whose top-left corner is (x, y): one per layer
/// that its class goes to, each with the pixel's outline.
pub open spec fn pixel_polygons(img: LumaAlphaImage, config: Config, x: int, y: int) -> Seq<
    (Layer, Seq<(int, int)>),
> {
    let e = Extents::of(img);
    let kind = kind_at(img, x, y);
    let (p, c) = (config.pixel_pitch@, config.clearance@);
    let outline = pixel_outline(
        kind,
        Nearby::of(img, x, y),
        physical(p, x, e.center_x() + 1),
        physical(p, y, e.center_y() + 1),
        p,
        c,
    );
    layer_plan(kind, config.invert).map_values(|l: Layer| (l, outline))
}

/// The polygons of every pixel before (x, y), row by row from the top, each
/// row from the left.
pub open spec fn polygons_before(img: LumaAlphaImage, config: Config, y: nat, x: nat) -> Seq<
    (Layer, Seq<(int, int)>),
>
    decreases y, x,
{
    if x == 0 {
        if y == 0 {
            seq![]
        } else {
            polygons_before(img, config, (y - 1) as nat, image_width(img))
        }
    } else {
        polygons_before(img, config, y, (x - 1) as nat) + pixel_polygons(
            img,
            config,
            x - 1,
            y as int,
        )
    }
}

/// Every significant pixel of `img` has representable coordinates.
pub open spec fn all_pixels_fit(img: LumaAlphaImage, config: Config) -> bool {
    forall|x: int, y: int|
        #[trigger] significant(img, x, y) ==> pixel_fits(config, Extents::of(img), x, y)
}

/// The polygons of a whole image, in row-major pixel order; positions are
/// relative to the center of the significant pixels.
pub fn footprint_polygons(img: &LumaAlphaImage, config: &Config) -> (r: Result<
    Vec<Polygon>,
    GenerateError,
>)
    ensures
        r == Err::<Vec<Polygon>, GenerateError>(GenerateError::NoSignificantPixels) <==> !exists|
            x: int,
            y: int,
        | significant(*img, x, y),
        r == Err::<Vec<Polygon>, GenerateError>(GenerateError::OutOfRange) <==> (exists|
            x: int,
            y: int,
        | significant(*img, x, y)) && !all_pixels_fit(*img, *config),
        r matches Ok(ps) ==> polygons_view(ps@) == polygons_before(
            *img,
            *config,
            image_rows(*img).len(),
            0,
        ),
{
    let extents = match Extents::from_image(img) {
        Ok(e) => e,
        Err(ExtentsError::NoSignificantPixels) => return Err(GenerateError::NoSignificantPixels),
    };
    let w = img.width();
    let h = img.height();
    let mut out: Vec<Polygon> = Vec::new();
    let mut y: u32 = 0;
    while y < h
        invariant
            extents.wf(),
            extents == Extents::of(*img),
            w == image_width(*img),
            h == image_rows(*img).len(),
            y <= h,
            polygons_view(out@) == polygons_before(*img, *config, y as nat, 0),
            forall|px: int, py: int|
                #[trigger] significant(*img, px, py) && py < y ==> pixel_fits(
                    *config,
                    extents,
                    px,
                    py,
                ),
        decreases h - y,
    {
        let mut x: u32 = 0;
        while x < w
            invariant
                extents.wf(),
                extents == Extents::of(*img),
                w == image_width(*img),
                h == image_rows(*img).len(),
                y < h,
                x <= w,
                polygons_view(out@) == polygons_before(*img, *config, y as nat, x as nat),
                forall|px: int, py: int|
                    #[trigger] significant(*img, px, py) && (py < y || (py == y && px < x))
                        ==> pixel_fits(*config, extents, px, py),
            decreases w - x,
        {
            let nearby = Nearby::from_pos(img, PixelPos { x: PixelDim(x), y: PixelDim(y) });
            let kind = nearby.this;
            if kind != PixelKind::Transparent {
                if !pixel_fits_exec(config, &extents, x, y) {
                    assert(significant(*img, x as int, y as int));
                    return Err(GenerateError::OutOfRange);
                }
                let layers = layers_for(kind, config.invert);
                let mut i: usize = 0;
                let ghost start = polygons_view(out@);
                while i < layers.len()
                    invariant
                        extents.wf(),
                        extents == Extents::of(*img),
                        nearby == Nearby::of(*img, x as int, y as int),
                        kind == nearby.this,
                        kind != PixelKind::Transparent,
                        pixel_fits(*config, extents, x as int, y as int),
                        layers@ == layer_plan(kind, config.invert),
                        i <= layers.len(),
                        polygons_view(out@) == start + pixel_polygons(
                            *img,
                            *config,
                            x as int,
                            y as int,
                        ).subrange(0, i as int),
                    decreases layers.len() - i,
                {
                    let points = for_each_point_in_pixel(
                        PixelPos { x: PixelDim(x), y: PixelDim(y) },
                        kind,
                        &nearby,
                        &extents,
                        config,
                    );
                    let ghost pp = pixel_polygons(*img, *config, x as int, y as int);
                    let ghost before = out@;
                    let poly = Polygon { layer: layers[i], points };
                    assert(pp[i as int] == poly@);
                    out.push(poly);
                    assert(polygons_view(out@) =~= polygons_view(before).push(poly@));
                    assert(pp.subrange(0, i + 1) =~= pp.subrange(0, i as int).push(pp[i as int]));
                    i = i + 1;
                    assert(polygons_view(out@) =~= start + pixel_polygons(
                        *img,
                        *config,
                        x as int,
                        y as int,
                    ).subrange(0, i as int));
                }
                assert(pixel_polygons(*img, *config, x as int, y as int).subrange(0, i as int)
                    =~= pixel_polygons(*img, *config, x as int, y as int));
            } else {
                assert(pixel_polygons(*img, *config, x as int, y as int) =~= seq![]);
                assert(polygons_view(out@) =~= polygons_view(out@) + pixel_polygons(
                    *img,
                    *config,
                    x as int,
                    y as int,
                ));
            }
            x = x + 1;
        }
        y = y + 1;
    }
    assert forall|px: int, py: int| #[trigger] significant(*img, px, py) implies pixel_fits(
        *config,
        extents,
        px,
        py,
    ) by {
        assert(py < h);
    }
    Ok(out)
}

} // verus!
