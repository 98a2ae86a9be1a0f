//! The footprint file: S-expressions around the polygons.
use crate::generate::{layer_name, Polygon};
use crate::sizes::{fixed_text, KicadPos};
use vstd::prelude::*;

verus! {

/// The text that a random (version 4) UUID built from these bytes is written
/// as.
pub uninterp spec fn uuid_text(bytes: Seq<u8>) -> Seq<char>;

/// Relies on `uuid::Builder::from_random_bytes`, which marks the bytes as a
/// random UUID, and on `Uuid`'s `Display`.
#[verifier::external_body]
fn uuid_string(bytes: [u8; 16]) -> (r: String)
    ensures
        r@ == uuid_text(bytes@),
{
    uuid::Builder::from_random_bytes(bytes).into_uuid().to_string()
}

/// `(name body)` and a line break.
pub open spec fn sexpr_text(name: Seq<char>, body: Seq<char>) -> Seq<char> {
    "("@ + name + " "@ + body + ")\n"@
}

/// Writes one S-expression around `body`.
pub fn sexpr(name: &str, body: &str) -> (r: String)
    ensures
        r@ == sexpr_text(name@, body@),
{
    let mut r = String::from_str("(");
    r.append(name);
    r.append(" ");
    r.append(body);
    r.append(")\n");
    r
}

pub open spec fn tstamp_text(id: Seq<u8>) -> Seq<char> {
    sexpr_text("tstamp"@, uuid_text(id))
}

/// The time stamp of one entity: a random UUID made from `id`.
pub fn tstamp(id: [u8; 16]) -> (r: String)
    ensures
        r@ == tstamp_text(id@),
{
    let u = uuid_string(id);
    sexpr("tstamp", u.as_str())
}

pub open spec fn point_text(p: KicadPos) -> Seq<char> {
    sexpr_text("xy"@, fixed_text(p.x.0) + " "@ + fixed_text(p.y.0))
}

pub open spec fn points_text(points: Seq<KicadPos>) -> Seq<char>
    decreases points.len(),
{
    if points.len() == 0 {
        seq![]
    } else {
        points_text(points.drop_last()) + point_text(points.last())
    }
}

/// One filled polygon on its layer, stamped with `id`.
pub open spec fn polygon_text(layer_name: Seq<char>, points: Seq<KicadPos>, id: Seq<u8>) -> Seq<
    char,
> {
    sexpr_text(
        "fp_poly"@,
        sexpr_text("pts"@, points_text(points)) + sexpr_text("layer"@, layer_name) + sexpr_text(
            "width"@,
            "0"@,
        ) + sexpr_text("fill"@, "solid"@) + tstamp_text(id),
    )
}

/// Writes one polygon, stamped with `id`.
pub fn draw_polygon(poly: &Polygon, id: [u8; 16]) -> (r: String)
    ensures
        r@ == polygon_text(layer_name(poly.layer), poly.points@, id@),
{
    let mut pts = String::new();
    let mut i: usize = 0;
    while i < poly.points.len()
        invariant
            i <= poly.points@.len(),
            pts@ == points_text(poly.points@.subrange(0, i as int)),
        decreases poly.points.len() - i,
    {
        let p = poly.points[i];
        let mut coords = p.x.to_text();
        coords.append(" ");
        let y = p.y.to_text();
        coords.append(y.as_str());
        let line = sexpr("xy", coords.as_str());
        pts.append(line.as_str());
        assert(poly.points@.subrange(0, i + 1).drop_last() =~= poly.points@.subrange(0, i as int));
        i = i + 1;
    }
    assert(poly.points@.subrange(0, i as int) =~= poly.points@);
    let mut body = sexpr("pts", pts.as_str());
    let layer = sexpr("layer", poly.layer.name());
    body.append(layer.as_str());
    let width = sexpr("width", "0");
    body.append(width.as_str());
    let fill = sexpr("fill", "solid");
    body.append(fill.as_str());
    let stamp = tstamp(id);
    body.append(stamp.as_str());
    sexpr("fp_poly", body.as_str())
}

pub open spec fn polygons_text(polys: Seq<Polygon>, ids: Seq<[u8; 16]>) -> Seq<char>
    decreases polys.len(),
{
    if polys.len() == 0 {
        seq![]
    } else {
        let k = polys.len() - 1;
        polygons_text(polys.drop_last(), ids) + polygon_text(
            layer_name(polys[k].layer),
            polys[k].points@,
            ids[k]@,
        )
    }
}

/// Removes every double quote.
pub open spec fn without_quotes(s: Seq<char>) -> Seq<char> {
    s.filter(|c: char| c != '"')
}

fn strip_quotes(s: &str) -> (r: String)
    ensures
        r@ == without_quotes(s@),
{
    let n = s.unicode_len();
    let mut r = String::new();
    let mut i: usize = 0;
    while i < n
        invariant
            n == s@.len(),
            i <= n,
            r@ == without_quotes(s@.subrange(0, i as int)),
        decreases n - i,
    {
        let c = s.get_char(i);
        if c != '"' {
            r.append(s.substring_char(i, i + 1));
        }
        proof {
            let next = s@.subrange(0, i + 1);
            assert(next.drop_last() =~= s@.subrange(0, i as int));
            assert(next.last() == c);
            reveal(Seq::filter);
        }
        i = i + 1;
    }
    assert(s@.subrange(0, n as int) =~= s@);
    r
}

pub open spec fn reference_text() -> Seq<char> {
    "reference \"G***\" (at 0 0) (layer F.Fab)\n"@
}

pub open spec fn value_text() -> Seq<char> {
    "value \"LOGO\" (at 0.75 0) (layer F.Fab) hide\n"@
}

pub open spec fn effects_text() -> Seq<char> {
    "(effects (font (size 1.524 1.524) (thickness 0.3)))\n"@
}

/// The header of a footprint named `name`: its name, fixed attributes, and
/// the reference and value texts stamped with `ref_id` and `value_id`.
pub open spec fn header_text(name: Seq<char>, ref_id: Seq<u8>, value_id: Seq<u8>) -> Seq<char> {
    "\""@ + without_quotes(name) + "\"\n"@ + sexpr_text("version"@, "20220630"@) + sexpr_text(
        "generator"@,
        "silkgen"@,
    ) + sexpr_text("layer"@, "F.Silkscreen"@) + sexpr_text("tedit"@, "0"@) + sexpr_text(
        "attr"@,
        "board_only exclude_from_pos_files exclude_from_bom"@,
    ) + sexpr_text("fp_text"@, reference_text() + effects_text() + tstamp_text(ref_id))
        + sexpr_text("fp_text"@, value_text() + effects_text() + tstamp_text(value_id))
}

/// The whole footprint file: the header, stamped with the first two ids,
/// then each polygon in turn, stamped with the ids that follow.
pub open spec fn footprint_text(name: Seq<char>, polys: Seq<Polygon>, ids: Seq<[u8; 16]>) -> Seq<
    char,
> {
    sexpr_text(
        "footprint"@,
        header_text(name, ids[0]@, ids[1]@) + polygons_text(polys, ids.subrange(2, ids.len() as int)),
    )
}

fn fp_text(first_line: &str, id: [u8; 16]) -> (r: String)
    ensures
        r@ == sexpr_text("fp_text"@, first_line@ + effects_text() + tstamp_text(id@)),
{
    let mut body = String::from_str(first_line);
    body.append("(effects (font (size 1.524 1.524) (thickness 0.3)))\n");
    let stamp = tstamp(id);
    body.append(stamp.as_str());
    sexpr("fp_text", body.as_str())
}

/// Writes the footprint file for polygons `polys`; `ids` supplies one UUID
/// source for each of the two header texts and for each polygon.
pub fn output_file(name: &str, polys: &Vec<Polygon>, ids: &Vec<[u8; 16]>) -> (r: String)
    requires
        ids@.len() == polys@.len() + 2,
    ensures
        r@ == footprint_text(name@, polys@, ids@),
{
    let mut body = String::from_str("\"");
    let stripped = strip_quotes(name);
    body.append(stripped.as_str());
    body.append("\"\n");
    let part = sexpr("version", "20220630");
    body.append(part.as_str());
    let part = sexpr("generator", "silkgen");
    body.append(part.as_str());
    let part = sexpr("layer", "F.Silkscreen");
    body.append(part.as_str());
    let part = sexpr("tedit", "0");
    body.append(part.as_str());
    let part = sexpr("attr", "board_only exclude_from_pos_files exclude_from_bom");
    body.append(part.as_str());
    let part = fp_text("reference \"G***\" (at 0 0) (layer F.Fab)\n", ids[0]);
    body.append(part.as_str());
    let part = fp_text("value \"LOGO\" (at 0.75 0) (layer F.Fab) hide\n", ids[1]);
    body.append(part.as_str());
    assert(body@ == header_text(name@, ids@[0]@, ids@[1]@));
    let ghost head = body@;
    let ghost rest = ids@.subrange(2, ids@.len() as int);
    let mut i: usize = 0;
    while i < polys.len()
        invariant
            ids@.len() == polys@.len() + 2,
            rest == ids@.subrange(2, ids@.len() as int),
            i <= polys@.len(),
            body@ == head + polygons_text(polys@.subrange(0, i as int), rest),
        decreases polys.len() - i,
    {
        assert(i + 2 < ids.len());
        let part = draw_polygon(&polys[i], ids[i + 2]);
        body.append(part.as_str());
        assert(polys@.subrange(0, i + 1).drop_last() =~= polys@.subrange(0, i as int));
        i = i + 1;
    }
    assert(polys@.subrange(0, i as int) =~= polys@);
    sexpr("footprint", body.as_str())
}

} // verus!
