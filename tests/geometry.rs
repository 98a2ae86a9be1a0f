use silkgen::analyze::{for_each_point_in_pixel, Extents, ExtentsError, LumaAlphaImage, Nearby, PixelKind};
use silkgen::generate::Config;
use silkgen::sizes::{KicadDim, KicadPos, PixelDim, PixelPos, ONE_MM_BITS};

const TENTH_MM_BITS: i64 = 450359962737050;

fn config() -> Config {
    Config {
        pixel_pitch: KicadDim(ONE_MM_BITS),
        clearance: KicadDim(TENTH_MM_BITS),
        invert: false,
    }
}

fn pos(x: u32, y: u32) -> PixelPos {
    PixelPos { x: PixelDim(x), y: PixelDim(y) }
}

/// Extents whose center is (1, 1), so the physical origin is (2, 2).
fn extents() -> Extents {
    Extents { min: pos(0, 0), max: pos(2, 2) }
}

fn all(kind: PixelKind, this: PixelKind) -> Nearby {
    Nearby {
        this,
        top: kind,
        bot: kind,
        left: kind,
        right: kind,
        top_left: kind,
        top_right: kind,
        bot_left: kind,
        bot_right: kind,
    }
}

fn bits(points: &[KicadPos]) -> Vec<(i64, i64)> {
    points.iter().map(|p| (p.x.0, p.y.0)).collect()
}

const L: i64 = -ONE_MM_BITS;
const R: i64 = 0;
const T: i64 = -ONE_MM_BITS;
const B: i64 = 0;
const C: i64 = TENTH_MM_BITS;

fn square() -> Vec<(i64, i64)> {
    vec![(L, T), (R, T), (R, B), (L, B)]
}

fn outline(kind: PixelKind, nearby: &Nearby) -> Vec<(i64, i64)> {
    bits(&for_each_point_in_pixel(pos(1, 1), kind, nearby, &extents(), &config()))
}

#[test]
fn dark_pixel_is_full_square_whatever_its_neighbours() {
    for kind in [PixelKind::Transparent, PixelKind::Light, PixelKind::Dark] {
        let nearby = all(kind, PixelKind::Dark);
        assert_eq!(outline(PixelKind::Dark, &nearby), square());
    }
}

#[test]
fn light_pixel_among_light_and_transparent_is_full_square() {
    assert_eq!(outline(PixelKind::Light, &all(PixelKind::Light, PixelKind::Light)), square());
    assert_eq!(outline(PixelKind::Light, &all(PixelKind::Transparent, PixelKind::Light)), square());
}

#[test]
fn light_pixel_with_one_dark_side_is_inset_on_that_side() {
    let base = all(PixelKind::Light, PixelKind::Light);
    let left = Nearby { left: PixelKind::Dark, ..base };
    assert_eq!(outline(PixelKind::Light, &left), vec![(L + C, T), (R, T), (R, B), (L + C, B)]);
    let right = Nearby { right: PixelKind::Dark, ..base };
    assert_eq!(outline(PixelKind::Light, &right), vec![(L, T), (R - C, T), (R - C, B), (L, B)]);
    let top = Nearby { top: PixelKind::Dark, ..base };
    assert_eq!(outline(PixelKind::Light, &top), vec![(L, T + C), (R, T + C), (R, B), (L, B)]);
    let bot = Nearby { bot: PixelKind::Dark, ..base };
    assert_eq!(outline(PixelKind::Light, &bot), vec![(L, T), (R, T), (R, B - C), (L, B - C)]);
}

#[test]
fn light_pixel_touching_dark_diagonally_gets_a_notch() {
    let base = all(PixelKind::Transparent, PixelKind::Light);
    let tl = Nearby { top_left: PixelKind::Dark, ..base };
    assert_eq!(
        outline(PixelKind::Light, &tl),
        vec![(L, T + C), (L + C, T + C), (L + C, T), (R, T), (R, B), (L, B)]
    );
    let tr = Nearby { top_right: PixelKind::Dark, ..base };
    assert_eq!(
        outline(PixelKind::Light, &tr),
        vec![(L, T), (R - C, T), (R - C, T + C), (R, T + C), (R, B), (L, B)]
    );
    let br = Nearby { bot_right: PixelKind::Dark, ..base };
    assert_eq!(
        outline(PixelKind::Light, &br),
        vec![(L, T), (R, T), (R, B - C), (R - C, B - C), (R - C, B), (L, B)]
    );
    let bl = Nearby { bot_left: PixelKind::Dark, ..base };
    assert_eq!(
        outline(PixelKind::Light, &bl),
        vec![(L, T), (R, T), (R, B), (L + C, B), (L + C, B - C), (L, B - C)]
    );
}

#[test]
fn edge_inset_wins_over_diagonal_notch() {
    let base = all(PixelKind::Light, PixelKind::Light);
    let nearby = Nearby { left: PixelKind::Dark, top_left: PixelKind::Dark, ..base };
    assert_eq!(outline(PixelKind::Light, &nearby), vec![(L + C, T), (R, T), (R, B), (L + C, B)]);
}

#[test]
fn zero_clearance_leaves_sides_in_place() {
    let base = all(PixelKind::Light, PixelKind::Light);
    let nearby = Nearby { right: PixelKind::Dark, ..base };
    let cfg = Config { clearance: KicadDim(0), ..config() };
    let points = bits(&for_each_point_in_pixel(pos(1, 1), PixelKind::Light, &nearby, &extents(), &cfg));
    assert_eq!(points, square());
}

fn span_overlap(a1: i64, a2: i64, b1: i64, b2: i64) -> bool {
    a1.min(a2) <= b1.max(b2) && b1.min(b2) <= a1.max(a2)
}

/// A closed outline of axis-aligned edges crosses or touches itself nowhere
/// but at the joints of consecutive edges.
fn is_simple(points: &[(i64, i64)]) -> bool {
    let n = points.len();
    if n < 3 {
        return false;
    }
    let edge = |i: usize| (points[i], points[(i + 1) % n]);
    for i in 0..n {
        let (p, q) = edge(i);
        if p == q || (p.0 != q.0 && p.1 != q.1) {
            return false;
        }
    }
    for i in 0..n {
        for j in (i + 1)..n {
            let (p, q) = edge(i);
            let (r, s) = edge(j);
            let meet = span_overlap(p.0, q.0, r.0, s.0) && span_overlap(p.1, q.1, r.1, s.1);
            let adjacent = j == i + 1 || (i == 0 && j == n - 1);
            if adjacent {
                let (a, joint, b) = if j == i + 1 { (p, q, s) } else { (r, s, q) };
                let same_side = |u: i64, v: i64, m: i64| (u < m && v < m) || (u > m && v > m);
                if same_side(a.0, b.0, joint.0) || same_side(a.1, b.1, joint.1) {
                    return false;
                }
            } else if meet {
                return false;
            }
        }
    }
    true
}

#[test]
fn every_neighbourhood_gives_a_simple_outline() {
    for code in 0u32..256 {
        let k = |bit: u32| if code & (1 << bit) != 0 { PixelKind::Dark } else { PixelKind::Light };
        let nearby = Nearby {
            this: PixelKind::Light,
            top: k(0),
            bot: k(1),
            left: k(2),
            right: k(3),
            top_left: k(4),
            top_right: k(5),
            bot_left: k(6),
            bot_right: k(7),
        };
        for kind in [PixelKind::Light, PixelKind::Dark] {
            let points = outline(kind, &nearby);
            assert!(is_simple(&points), "code {code}: {points:?}");
        }
    }
}

fn image(w: u32, h: u32, pixels: &[(u8, u8)]) -> LumaAlphaImage {
    let data: Vec<u8> = pixels.iter().flat_map(|&(l, a)| [l, a]).collect();
    LumaAlphaImage::from_raw(w, h, data).unwrap()
}

#[test]
fn extents_center_is_floor_of_midpoint() {
    let img = image(10, 10, &[(0, 255); 100]);
    let e = Extents::from_image(&img).unwrap();
    assert_eq!((e.min.x.0, e.min.y.0, e.max.x.0, e.max.y.0), (0, 0, 9, 9));
    let c = e.center();
    assert_eq!((c.x.0, c.y.0), (4, 4));
}

#[test]
fn extents_skip_transparent_border() {
    let mut pixels = vec![(255u8, 0u8); 20];
    pixels[5 + 1] = (255, 255);
    pixels[3 * 5 + 3] = (0, 200);
    let img = image(5, 4, &pixels);
    let e = Extents::from_image(&img).unwrap();
    assert_eq!((e.min.x.0, e.min.y.0, e.max.x.0, e.max.y.0), (1, 1, 3, 3));
    let c = e.center();
    assert_eq!((c.x.0, c.y.0), (2, 2));
}

#[test]
fn extents_of_empty_image_is_an_error() {
    let img = image(3, 2, &[(0, 10); 6]);
    assert_eq!(Extents::from_image(&img).unwrap_err(), ExtentsError::NoSignificantPixels);
}

#[test]
fn pixel_classification_thresholds() {
    assert_eq!(PixelKind::from_pixel(200, 255), PixelKind::Light);
    assert_eq!(PixelKind::from_pixel(100, 255), PixelKind::Dark);
    assert_eq!(PixelKind::from_pixel(200, 126), PixelKind::Transparent);
    assert_eq!(PixelKind::from_pixel(127, 127), PixelKind::Dark);
    assert_eq!(PixelKind::from_pixel(128, 127), PixelKind::Light);
}

#[test]
fn neighbourhood_outside_image_is_transparent() {
    let img = image(2, 1, &[(255, 255), (0, 255)]);
    let n = Nearby::from_pos(&img, pos(0, 0));
    assert_eq!(n.this, PixelKind::Light);
    assert_eq!(n.right, PixelKind::Dark);
    assert_eq!(n.left, PixelKind::Transparent);
    assert_eq!(n.top, PixelKind::Transparent);
    assert_eq!(n.bot, PixelKind::Transparent);
    assert_eq!(n.top_left, PixelKind::Transparent);
    assert_eq!(n.bot_right, PixelKind::Transparent);
    let n = Nearby::from_pos(&img, pos(1, 0));
    assert_eq!(n.this, PixelKind::Dark);
    assert_eq!(n.left, PixelKind::Light);
    assert_eq!(n.right, PixelKind::Transparent);
}

#[test]
fn short_buffer_is_refused() {
    assert!(LumaAlphaImage::from_raw(2, 2, vec![0; 7]).is_none());
    assert!(LumaAlphaImage::from_raw(2, 2, vec![0; 8]).is_some());
}

#[test]
fn pixel_dims() {
    assert_eq!(PixelDim(3).abs_diff(PixelDim(7)), PixelDim(4));
    assert_eq!(PixelDim(7).abs_diff(PixelDim(3)), PixelDim(4));
    let p = pos(2, 3).add(pos(1, 1));
    assert_eq!((p.x.0, p.y.0), (3, 4));
}
