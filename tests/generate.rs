use silkgen::analyze::{neg_if, LumaAlphaImage};
use silkgen::footprint::{draw_polygon, output_file, sexpr, tstamp};
use silkgen::generate::{footprint_polygons, layers_for, Config, GenerateError, Layer, Polygon};
use silkgen::analyze::PixelKind;
use silkgen::sizes::{KicadDim, KicadPos, ParseKicadDimError, PixelDim, PixelPos, MM_PER_IN_BITS, ONE_MM_BITS};

fn dim(s: &str) -> KicadDim {
    s.parse().unwrap()
}

fn config(invert: bool) -> Config {
    Config { pixel_pitch: dim("1mm"), clearance: dim("0.1mm"), invert }
}

fn image(w: u32, h: u32, pixels: &[(u8, u8)]) -> LumaAlphaImage {
    let data: Vec<u8> = pixels.iter().flat_map(|&(l, a)| [l, a]).collect();
    LumaAlphaImage::from_raw(w, h, data).unwrap()
}

fn bits(poly: &Polygon) -> Vec<(i64, i64)> {
    poly.points.iter().map(|p| (p.x.0, p.y.0)).collect()
}

const MM: i64 = ONE_MM_BITS;
const TENTH: i64 = 450359962737050;

#[test]
fn parses_lengths() {
    assert_eq!(dim("1mm"), KicadDim(MM));
    assert_eq!(dim("0.1mm"), KicadDim(TENTH));
    assert_eq!(dim("-2mm"), KicadDim(-2 * MM));
    assert_eq!(dim("1in"), KicadDim(MM_PER_IN_BITS));
    assert_eq!(dim("2in"), KicadDim(2 * MM_PER_IN_BITS));
}

#[test]
fn refuses_bad_lengths() {
    assert!(matches!(KicadDim::parse("5cm"), Err(ParseKicadDimError::InvalidSuffix)));
    assert!(matches!(KicadDim::parse("m"), Err(ParseKicadDimError::InvalidSuffix)));
    assert!(matches!(KicadDim::parse("abcmm"), Err(ParseKicadDimError::InvalidNumber(_))));
    assert!(matches!(KicadDim::parse("in"), Err(ParseKicadDimError::InvalidNumber(_))));
    assert!(matches!(KicadDim::parse("100in"), Err(ParseKicadDimError::OutOfRange)));
}

#[test]
fn length_arithmetic() {
    assert_eq!(KicadDim(MM).mul(PixelDim(3)), KicadDim(3 * MM));
    assert_eq!(KicadDim(MM).add(KicadDim(TENTH)), KicadDim(MM + TENTH));
    assert_eq!(KicadDim(MM).sub(KicadDim(TENTH)), KicadDim(MM - TENTH));
    assert_eq!(KicadDim(MM).neg(), KicadDim(-MM));
    assert_eq!(neg_if(true, KicadDim(MM)), KicadDim(-MM));
    assert_eq!(neg_if(false, KicadDim(MM)), KicadDim(MM));
    let p = KicadPos { x: KicadDim(MM), y: KicadDim(-MM) }
        .mul(PixelPos { x: PixelDim(2), y: PixelDim(5) });
    assert_eq!((p.x.0, p.y.0), (2 * MM, -5 * MM));
}

#[test]
fn length_text() {
    assert_eq!(dim("1mm").to_text(), "1");
    assert_eq!(dim("0.1mm").to_text(), "0.1");
    assert_eq!(KicadDim(-MM + TENTH).to_text(), "-0.9");
}

#[test]
fn layer_routing() {
    assert_eq!(layers_for(PixelKind::Light, false), vec![Layer::FrontSilkscreen]);
    assert_eq!(layers_for(PixelKind::Dark, false), vec![Layer::FrontCopper, Layer::FrontMask]);
    assert_eq!(layers_for(PixelKind::Light, true), vec![Layer::FrontCopper, Layer::FrontMask]);
    assert_eq!(layers_for(PixelKind::Dark, true), vec![Layer::FrontSilkscreen]);
    assert!(layers_for(PixelKind::Transparent, false).is_empty());
    assert_eq!(Layer::FrontSilkscreen.name(), "F.SilkS");
    assert_eq!(Layer::FrontCopper.name(), "F.Cu");
    assert_eq!(Layer::FrontMask.name(), "F.Mask");
}

#[test]
fn dark_two_by_two_gives_centered_squares() {
    let img = image(2, 2, &[(0, 255); 4]);
    let polys = footprint_polygons(&img, &config(false)).unwrap();
    assert_eq!(polys.len(), 8);
    let squares = [
        vec![(-MM, -MM), (0, -MM), (0, 0), (-MM, 0)],
        vec![(0, -MM), (MM, -MM), (MM, 0), (0, 0)],
        vec![(-MM, 0), (0, 0), (0, MM), (-MM, MM)],
        vec![(0, 0), (MM, 0), (MM, MM), (0, MM)],
    ];
    for (k, square) in squares.iter().enumerate() {
        assert_eq!(polys[2 * k].layer, Layer::FrontCopper);
        assert_eq!(polys[2 * k + 1].layer, Layer::FrontMask);
        assert_eq!(&bits(&polys[2 * k]), square);
        assert_eq!(&bits(&polys[2 * k + 1]), square);
    }
}

#[test]
fn light_left_of_dark_is_inset_on_shared_edge() {
    let img = image(2, 1, &[(255, 255), (0, 255)]);
    let polys = footprint_polygons(&img, &config(false)).unwrap();
    assert_eq!(polys.len(), 3);
    assert_eq!(polys[0].layer, Layer::FrontSilkscreen);
    assert_eq!(bits(&polys[0]), vec![(-MM, -MM), (-TENTH, -MM), (-TENTH, 0), (-MM, 0)]);
    assert_eq!(polys[1].layer, Layer::FrontCopper);
    assert_eq!(bits(&polys[1]), vec![(0, -MM), (MM, -MM), (MM, 0), (0, 0)]);
    assert_eq!(polys[2].layer, Layer::FrontMask);
    assert_eq!(bits(&polys[2]), vec![(0, -MM), (MM, -MM), (MM, 0), (0, 0)]);
}

#[test]
fn invert_swaps_layers_not_shapes() {
    let img = image(2, 1, &[(255, 255), (0, 255)]);
    let polys = footprint_polygons(&img, &config(true)).unwrap();
    assert_eq!(polys.len(), 3);
    assert_eq!(polys[0].layer, Layer::FrontCopper);
    assert_eq!(polys[1].layer, Layer::FrontMask);
    assert_eq!(bits(&polys[1]), vec![(-MM, -MM), (-TENTH, -MM), (-TENTH, 0), (-MM, 0)]);
    assert_eq!(polys[2].layer, Layer::FrontSilkscreen);
    assert_eq!(bits(&polys[2]), vec![(0, -MM), (MM, -MM), (MM, 0), (0, 0)]);
}

#[test]
fn transparent_image_has_no_polygons() {
    let img = image(2, 2, &[(0, 0); 4]);
    assert_eq!(footprint_polygons(&img, &config(false)).unwrap_err(), GenerateError::NoSignificantPixels);
}

#[test]
fn too_large_pitch_is_out_of_range() {
    let img = image(4, 1, &[(0, 255); 4]);
    let cfg = Config { pixel_pitch: dim("1500mm"), ..config(false) };
    assert_eq!(footprint_polygons(&img, &cfg).unwrap_err(), GenerateError::OutOfRange);
    let cfg = Config { pixel_pitch: dim("900mm"), ..config(false) };
    assert_eq!(footprint_polygons(&img, &cfg).unwrap().len(), 8);
}

#[test]
fn sexpr_wraps_body() {
    assert_eq!(sexpr("version", "20220630"), "(version 20220630)\n");
    assert_eq!(sexpr("a", ""), "(a )\n");
}

#[test]
fn tstamp_is_random_uuid_of_bytes() {
    assert_eq!(tstamp([0; 16]), "(tstamp 00000000-0000-4000-8000-000000000000)\n");
    assert_eq!(
        tstamp([0xff; 16]),
        "(tstamp ffffffff-ffff-4fff-bfff-ffffffffffff)\n"
    );
}

#[test]
fn polygon_text() {
    let poly = Polygon {
        layer: Layer::FrontSilkscreen,
        points: vec![
            KicadPos { x: dim("1mm"), y: dim("0.1mm") },
            KicadPos { x: dim("-2mm"), y: dim("0mm") },
        ],
    };
    assert_eq!(
        draw_polygon(&poly, [0; 16]),
        "(fp_poly (pts (xy 1 0.1)\n(xy -2 0)\n)\n(layer F.SilkS)\n(width 0)\n(fill solid)\n\
         (tstamp 00000000-0000-4000-8000-000000000000)\n)\n"
    );
}

#[test]
fn footprint_file() {
    let poly = Polygon {
        layer: Layer::FrontCopper,
        points: vec![KicadPos { x: dim("1mm"), y: dim("1mm") }],
    };
    let text = output_file("lo\"go", &vec![poly], &vec![[0; 16], [0xff; 16], [0; 16]]);
    let zero = "(tstamp 00000000-0000-4000-8000-000000000000)\n";
    let ones = "(tstamp ffffffff-ffff-4fff-bfff-ffffffffffff)\n";
    let effects = "(effects (font (size 1.524 1.524) (thickness 0.3)))\n";
    let expected = format!(
        "(footprint \"logo\"\n(version 20220630)\n(generator silkgen)\n(layer F.Silkscreen)\n\
         (tedit 0)\n(attr board_only exclude_from_pos_files exclude_from_bom)\n\
         (fp_text reference \"G***\" (at 0 0) (layer F.Fab)\n{effects}{zero})\n\
         (fp_text value \"LOGO\" (at 0.75 0) (layer F.Fab) hide\n{effects}{ones})\n\
         (fp_poly (pts (xy 1 1)\n)\n(layer F.Cu)\n(width 0)\n(fill solid)\n{zero})\n)\n"
    );
    assert_eq!(text, expected);
}
