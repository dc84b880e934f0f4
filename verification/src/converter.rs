//! The geometric normalizer: converts decoded source entities into
//! target-space entities. Unit conversion is applied exactly once per
//! scalar, every position is recentered on a computed origin, and the
//! per-entity heuristics (sanity-distance filter, circle filter, pin-one
//! marker) are stated exactly in the contracts.

use vstd::prelude::*;
use crate::easyeda_models::{
    spec_fp_wf, spec_sym_wf, EeFootprint, EeFootprintCircle, EeFootprintPad, EeFootprintText,
    EeFootprintTrack, EeSymbol, EeSymbolPin, EeSymbolRectangle,
};
use crate::error::Error;
use crate::geometry::{
    bbox_center, centroid, ee_to_mm, half_floor, in_milli_range, in_nm_range, in_range, pt_views,
    spec_bbox_center, spec_centroid, spec_half_floor, spec_in_range, spec_seq_min, spec_seq_max,
    spec_xs, spec_ys, lemma_seq_min_max_bounds, MAX_CIRCLE_RADIUS_NM, NM_PER_MILLI_UNIT,
};
use crate::kicad_models::{
    FpCircle, FpLine, FpPad, FpText, Ki3dModel, KiFootprint, KiSymbol, KiSymbolPin, KiSymbolRect,
};
use crate::mapper::{
    is_graphic_layer, map_layer, map_pin_type, map_shape, spec_is_graphic_layer, spec_layer_names,
    spec_map_pin_type, spec_map_shape,
};
use crate::numbers::{fmt_usize, spec_udigits, INT_ABS_LIMIT};
use crate::importer::{opt_view, spec_str_or};
use crate::text::{is_blank, seq_views, spec_is_blank, str_eq};

verus! {

/// A symbol pin's raw target-space position: bounding-box origin
/// subtracted, y inverted (source y grows downward, target upward), unit
/// conversion applied.
pub open spec fn spec_pin_raw(p: EeSymbolPin, bbox: (i64, i64)) -> (int, int) {
    (
        (p.pos_x - bbox.0) * NM_PER_MILLI_UNIT,
        (bbox.1 - p.pos_y) * NM_PER_MILLI_UNIT,
    )
}

/// A symbol rectangle's raw target-space start corner.
pub open spec fn spec_rect_start(rc: EeSymbolRectangle, bbox: (i64, i64)) -> (int, int) {
    (
        (rc.x - bbox.0) * NM_PER_MILLI_UNIT,
        (bbox.1 - rc.y) * NM_PER_MILLI_UNIT,
    )
}

/// A symbol rectangle's raw target-space end corner: the start plus the
/// width, minus the height (y grows upward in target space).
pub open spec fn spec_rect_end(rc: EeSymbolRectangle, bbox: (i64, i64)) -> (int, int) {
    (
        spec_rect_start(rc, bbox).0 + rc.width * NM_PER_MILLI_UNIT,
        spec_rect_start(rc, bbox).1 - rc.height * NM_PER_MILLI_UNIT,
    )
}

/// Every raw point a symbol's bounding box is computed over: pin
/// positions, then rectangle start corners, then rectangle end corners.
pub open spec fn spec_sym_points(s: EeSymbol) -> Seq<(int, int)> {
    s.pins@.map_values(|p: EeSymbolPin| spec_pin_raw(p, s.bbox)) + s.rectangles@.map_values(
        |rc: EeSymbolRectangle| spec_rect_start(rc, s.bbox),
    ) + s.rectangles@.map_values(|rc: EeSymbolRectangle| spec_rect_end(rc, s.bbox))
}

/// The computed symbol center: the midpoint of the bounding extremes of
/// all raw points.
pub open spec fn spec_sym_center(s: EeSymbol) -> (int, int) {
    spec_bbox_center(spec_sym_points(s))
}

/// Truncated remainder modulo 360, matching the host's `%` on integers.
pub open spec fn spec_trunc_mod360(v: int) -> int {
    if v >= 0 {
        v % 360
    } else {
        -((-v) % 360)
    }
}

/// The target rotation of a symbol pin: the source rotation turned half a
/// revolution, reduced modulo 360.
pub open spec fn spec_pin_rotation(r: int) -> int {
    spec_trunc_mod360(r + 180)
}

/// Computes the pin rotation adjustment exactly.
fn rot180(r: i64) -> (res: i64)
    requires
        -INT_ABS_LIMIT <= r <= INT_ABS_LIMIT,
    ensures
        res as int == spec_pin_rotation(r as int),
        -360 < res < 360,
{
    let s = r + 180;
    if s >= 0 {
        s % 360
    } else {
        -((-s) % 360)
    }
}

/// Relation of one converted pin to its source pin, for a given computed
/// center.
pub open spec fn spec_conv_pin_ok(
    kp: KiSymbolPin,
    p: EeSymbolPin,
    c: (int, int),
    bbox: (i64, i64),
) -> bool {
    &&& kp.name@ == p.name@
    &&& kp.number@ == p.number@
    &&& kp.pin_type == spec_map_pin_type(p.pin_type@)
    &&& kp.length as int == p.pin_length * NM_PER_MILLI_UNIT
    &&& kp.pos.0 as int == spec_pin_raw(p, bbox).0 - c.0
    &&& kp.pos.1 as int == spec_pin_raw(p, bbox).1 - c.1
    &&& kp.rotation as int == spec_pin_rotation(p.rotation as int)
}

/// Relation of one converted rectangle to its source rectangle.
pub open spec fn spec_conv_rect_ok(
    kr: KiSymbolRect,
    rc: EeSymbolRectangle,
    c: (int, int),
    bbox: (i64, i64),
) -> bool {
    &&& kr.start.0 as int == spec_rect_start(rc, bbox).0 - c.0
    &&& kr.start.1 as int == spec_rect_start(rc, bbox).1 - c.1
    &&& kr.end.0 as int == spec_rect_end(rc, bbox).0 - c.0
    &&& kr.end.1 as int == spec_rect_end(rc, bbox).1 - c.1
}

/// Well-formedness of a converted symbol: every coordinate is within the
/// nanometer range and rotations are reduced.
pub open spec fn spec_ki_sym_wf(s: KiSymbol) -> bool {
    &&& forall|i: int|
        0 <= i < s.pins@.len() ==> {
            let p = #[trigger] s.pins@[i];
            &&& in_nm_range(p.pos.0 as int)
            &&& in_nm_range(p.pos.1 as int)
            &&& in_nm_range(p.length as int)
            &&& -360 < p.rotation < 360
        }
    &&& forall|i: int|
        0 <= i < s.rectangles@.len() ==> {
            let rc = #[trigger] s.rectangles@[i];
            &&& in_nm_range(rc.start.0 as int)
            &&& in_nm_range(rc.start.1 as int)
            &&& in_nm_range(rc.end.0 as int)
            &&& in_nm_range(rc.end.1 as int)
        }
}

/// Converts a decoded symbol into a target symbol: metadata passes
/// through (an absent package or datasheet becomes empty text), and every
/// pin and rectangle is unit-converted, y-inverted and recentered on the
/// computed center, pin rotations turned half a revolution. Conversion
/// never fails.
#[verifier::rlimit(100)]
#[verifier::loop_isolation(false)]
pub fn convert_symbol(ee_symbol: EeSymbol) -> (r: Result<KiSymbol, Error>)
    requires
        spec_sym_wf(ee_symbol),
    ensures
        r is Ok,
        ({
            let sym = r->Ok_0;
            let c = spec_sym_center(ee_symbol);
            &&& sym.name@ == ee_symbol.info.name@
            &&& sym.reference@ == ee_symbol.info.prefix@
            &&& sym.footprint@ == spec_str_or(ee_symbol.info.package, Seq::empty())
            &&& sym.datasheet@ == spec_str_or(ee_symbol.info.datasheet, Seq::empty())
            &&& opt_view(sym.lcsc_part) == opt_view(ee_symbol.info.lcsc_id)
            &&& sym.is_extended == ee_symbol.info.is_extended
            &&& sym.pins@.len() == ee_symbol.pins@.len()
            &&& forall|k: int|
                0 <= k < sym.pins@.len() ==> spec_conv_pin_ok(
                    #[trigger] sym.pins@[k],
                    ee_symbol.pins@[k],
                    c,
                    ee_symbol.bbox,
                )
            &&& sym.rectangles@.len() == ee_symbol.rectangles@.len()
            &&& forall|k: int|
                0 <= k < sym.rectangles@.len() ==> spec_conv_rect_ok(
                    #[trigger] sym.rectangles@[k],
                    ee_symbol.rectangles@[k],
                    c,
                    ee_symbol.bbox,
                )
            &&& spec_ki_sym_wf(sym)
        }),
{
    let bbox = ee_symbol.bbox;
    let np = ee_symbol.pins.len();
    let nr = ee_symbol.rectangles.len();
    let ghost pts_spec = spec_sym_points(ee_symbol);

    let mut pts: Vec<(i64, i64)> = Vec::new();
    let mut i: usize = 0;
    while i < np
        invariant
            i <= np,
            pts@.len() == i,
            forall|j: int|
                0 <= j < i ==> (#[trigger] pts@[j].0 as int, pts@[j].1 as int) == spec_pin_raw(
                    ee_symbol.pins@[j],
                    bbox,
                ),
            forall|j: int|
                0 <= j < i ==> -762_000_000_000_000_000 <= #[trigger] pts@[j].0
                    <= 762_000_000_000_000_000 && -762_000_000_000_000_000 <= pts@[j].1
                    <= 762_000_000_000_000_000,
        decreases np - i,
    {
        let p = &ee_symbol.pins[i];
        let x = ee_to_mm(p.pos_x - bbox.0);
        let y = ee_to_mm(bbox.1 - p.pos_y);
        pts.push((x, y));
        i += 1;
    }
    let mut i: usize = 0;
    while i < nr
        invariant
            i <= nr,
            pts@.len() == np + i,
            forall|j: int|
                0 <= j < np ==> (#[trigger] pts@[j].0 as int, pts@[j].1 as int) == spec_pin_raw(
                    ee_symbol.pins@[j],
                    bbox,
                ),
            forall|j: int|
                np <= j < np + i ==> (#[trigger] pts@[j].0 as int, pts@[j].1 as int)
                    == spec_rect_start(ee_symbol.rectangles@[j - np], bbox),
            forall|j: int|
                0 <= j < np + i ==> -762_000_000_000_000_000 <= #[trigger] pts@[j].0
                    <= 762_000_000_000_000_000 && -762_000_000_000_000_000 <= pts@[j].1
                    <= 762_000_000_000_000_000,
        decreases nr - i,
    {
        let rc = &ee_symbol.rectangles[i];
        let x = ee_to_mm(rc.x - bbox.0);
        let y = ee_to_mm(bbox.1 - rc.y);
        pts.push((x, y));
        i += 1;
    }
    let mut i: usize = 0;
    while i < nr
        invariant
            i <= nr,
            pts@.len() == np + nr + i,
            forall|j: int|
                0 <= j < np ==> (#[trigger] pts@[j].0 as int, pts@[j].1 as int) == spec_pin_raw(
                    ee_symbol.pins@[j],
                    bbox,
                ),
            forall|j: int|
                np <= j < np + nr ==> (#[trigger] pts@[j].0 as int, pts@[j].1 as int)
                    == spec_rect_start(ee_symbol.rectangles@[j - np], bbox),
            forall|j: int|
                np + nr <= j < np + nr + i ==> (#[trigger] pts@[j].0 as int, pts@[j].1 as int)
                    == spec_rect_end(ee_symbol.rectangles@[j - np - nr], bbox),
            forall|j: int|
                0 <= j < np + nr + i ==> -762_000_000_000_000_000 <= #[trigger] pts@[j].0
                    <= 762_000_000_000_000_000 && -762_000_000_000_000_000 <= pts@[j].1
                    <= 762_000_000_000_000_000,
        decreases nr - i,
    {
        let rc = &ee_symbol.rectangles[i];
        let sx = ee_to_mm(rc.x - bbox.0);
        let sy = ee_to_mm(bbox.1 - rc.y);
        let ex = sx + ee_to_mm(rc.width);
        let ey = sy - ee_to_mm(rc.height);
        pts.push((ex, ey));
        i += 1;
    }
    proof {
        assert(pt_views(pts@) =~= pts_spec);
    }
    let c = bbox_center(&pts);
    proof {
        if pts@.len() > 0 {
            assert(forall|j: int|
                0 <= j < pt_views(pts@).len() ==> -762_000_000_000_000_000
                    <= #[trigger] spec_xs(pt_views(pts@))[j] <= 762_000_000_000_000_000
                    && -762_000_000_000_000_000 <= spec_ys(pt_views(pts@))[j]
                    <= 762_000_000_000_000_000);
            lemma_seq_min_max_bounds(
                spec_xs(pt_views(pts@)),
                -762_000_000_000_000_000,
                762_000_000_000_000_000,
            );
            lemma_seq_min_max_bounds(
                spec_ys(pt_views(pts@)),
                -762_000_000_000_000_000,
                762_000_000_000_000_000,
            );
        }
        assert(-762_000_000_000_000_001 <= c.0 <= 762_000_000_000_000_000);
        assert(-762_000_000_000_000_001 <= c.1 <= 762_000_000_000_000_000);
    }
    let mut ki_pins: Vec<KiSymbolPin> = Vec::new();
    let mut i: usize = 0;
    while i < np
        invariant
            i <= np,
            ki_pins@.len() == i,
            -762_000_000_000_000_001 <= c.0 <= 762_000_000_000_000_000,
            -762_000_000_000_000_001 <= c.1 <= 762_000_000_000_000_000,
            (c.0 as int, c.1 as int) == spec_sym_center(ee_symbol),
            forall|k: int|
                0 <= k < i ==> spec_conv_pin_ok(
                    #[trigger] ki_pins@[k],
                    ee_symbol.pins@[k],
                    (c.0 as int, c.1 as int),
                    bbox,
                ),
            forall|k: int|
                0 <= k < i ==> {
                    let p = #[trigger] ki_pins@[k];
                    &&& in_nm_range(p.pos.0 as int)
                    &&& in_nm_range(p.pos.1 as int)
                    &&& in_nm_range(p.length as int)
                    &&& -360 < p.rotation < 360
                },
        decreases np - i,
    {
        let p = &ee_symbol.pins[i];
        let x = ee_to_mm(p.pos_x - bbox.0);
        let y = ee_to_mm(bbox.1 - p.pos_y);
        let kp = KiSymbolPin {
            name: p.name.clone(),
            number: p.number.clone(),
            pin_type: map_pin_type(p.pin_type.as_str()),
            length: ee_to_mm(p.pin_length),
            pos: (x - c.0, y - c.1),
            rotation: rot180(p.rotation),
        };
        ki_pins.push(kp);
        i += 1;
    }
    let mut ki_rects: Vec<KiSymbolRect> = Vec::new();
    let mut i: usize = 0;
    while i < nr
        invariant
            i <= nr,
            ki_rects@.len() == i,
            -762_000_000_000_000_001 <= c.0 <= 762_000_000_000_000_000,
            -762_000_000_000_000_001 <= c.1 <= 762_000_000_000_000_000,
            (c.0 as int, c.1 as int) == spec_sym_center(ee_symbol),
            forall|k: int|
                0 <= k < i ==> spec_conv_rect_ok(
                    #[trigger] ki_rects@[k],
                    ee_symbol.rectangles@[k],
                    (c.0 as int, c.1 as int),
                    bbox,
                ),
            forall|k: int|
                0 <= k < i ==> {
                    let rc = #[trigger] ki_rects@[k];
                    &&& in_nm_range(rc.start.0 as int)
                    &&& in_nm_range(rc.start.1 as int)
                    &&& in_nm_range(rc.end.0 as int)
                    &&& in_nm_range(rc.end.1 as int)
                },
        decreases nr - i,
    {
        let rc = &ee_symbol.rectangles[i];
        let sx = ee_to_mm(rc.x - bbox.0);
        let sy = ee_to_mm(bbox.1 - rc.y);
        let ex = sx + ee_to_mm(rc.width);
        let ey = sy - ee_to_mm(rc.height);
        let kr = KiSymbolRect { start: (sx - c.0, sy - c.1), end: (ex - c.0, ey - c.1) };
        ki_rects.push(kr);
        i += 1;
    }
    let footprint = match &ee_symbol.info.package {
        Some(s) => s.clone(),
        None => String::new(),
    };
    let datasheet = match &ee_symbol.info.datasheet {
        Some(s) => s.clone(),
        None => String::new(),
    };
    let lcsc_part = match &ee_symbol.info.lcsc_id {
        Some(s) => Some(s.clone()),
        None => None,
    };
    Ok(
        KiSymbol {
            name: ee_symbol.info.name,
            reference: ee_symbol.info.prefix,
            footprint,
            datasheet,
            lcsc_part,
            is_extended: ee_symbol.info.is_extended,
            pins: ki_pins,
            rectangles: ki_rects,
        },
    )
}

/// Stroke width of the synthesized pin-one marker circle, a calibration
/// constant of the target's silkscreen style.
pub const MARKER_STROKE_NM: i64 = 120_000;

/// Radius of the synthesized pin-one marker circle: 0.25 mm.
pub const MARKER_RADIUS_NM: i64 = 250_000;

/// Clearance between a pad edge and the pin-one marker: 0.5 mm.
pub const MARKER_CLEARANCE_NM: i64 = 500_000;

/// A pad's raw target-space position: bounding-box origin subtracted and
/// unit-converted; footprint space is not y-inverted.
pub open spec fn spec_pad_raw(p: EeFootprintPad, bbox: (i64, i64)) -> (int, int) {
    (
        (p.center_x - bbox.0) * NM_PER_MILLI_UNIT,
        (p.center_y - bbox.1) * NM_PER_MILLI_UNIT,
    )
}

/// A text item's raw target-space position.
pub open spec fn spec_text_raw(t: EeFootprintText, bbox: (i64, i64)) -> (int, int) {
    (
        (t.center_x - bbox.0) * NM_PER_MILLI_UNIT,
        (t.center_y - bbox.1) * NM_PER_MILLI_UNIT,
    )
}

/// A track point's raw target-space position.
pub open spec fn spec_pt_raw(pt: (i64, i64), bbox: (i64, i64)) -> (int, int) {
    ((pt.0 - bbox.0) * NM_PER_MILLI_UNIT, (pt.1 - bbox.1) * NM_PER_MILLI_UNIT)
}

/// A circle's raw target-space center.
pub open spec fn spec_circle_raw(cc: EeFootprintCircle, bbox: (i64, i64)) -> (int, int) {
    (
        (cc.center_x - bbox.0) * NM_PER_MILLI_UNIT,
        (cc.center_y - bbox.1) * NM_PER_MILLI_UNIT,
    )
}

/// All pad raw positions, in order.
pub open spec fn spec_pad_pts(f: EeFootprint) -> Seq<(int, int)> {
    Seq::new(f.pads@.len(), |i: int| spec_pad_raw(f.pads@[i], f.bbox))
}

/// All text raw positions, in order.
pub open spec fn spec_text_pts(f: EeFootprint) -> Seq<(int, int)> {
    Seq::new(f.texts@.len(), |i: int| spec_text_raw(f.texts@[i], f.bbox))
}

/// The computed footprint center: the centroid of the pad centers; of the
/// text centers when there are no pads; the origin when there is neither.
pub open spec fn spec_fp_center(f: EeFootprint) -> (int, int) {
    if f.pads@.len() > 0 {
        spec_centroid(spec_pad_pts(f))
    } else if f.texts@.len() > 0 {
        spec_centroid(spec_text_pts(f))
    } else {
        (0, 0)
    }
}

/// Whether a pad is surface-mounted: no hole of either kind.
pub open spec fn spec_pad_is_smd(p: EeFootprintPad) -> bool {
    p.hole_radius == 0 && p.hole_length == 0
}

/// Relation of one converted pad (the `k`-th) to its source pad, for a
/// given computed center. A blank pad number falls back to the
/// one-based position; the drill is a slot when the hole length is
/// positive, else a circle of twice the hole radius; an SMD pad has none.
pub open spec fn spec_conv_pad_ok(
    kp: FpPad,
    p: EeFootprintPad,
    k: int,
    c: (int, int),
    bbox: (i64, i64),
) -> bool {
    let is_smd = spec_pad_is_smd(p);
    &&& kp.number@ == if spec_is_blank(p.number@) {
        spec_udigits(k + 1)
    } else {
        p.number@
    }
    &&& kp.pad_type@ == if is_smd {
        "smd"@
    } else {
        "thru_hole"@
    }
    &&& kp.shape == spec_map_shape(p.shape@)
    &&& kp.pos.0 as int == spec_pad_raw(p, bbox).0 - c.0
    &&& kp.pos.1 as int == spec_pad_raw(p, bbox).1 - c.1
    &&& kp.size.0 as int == p.width * NM_PER_MILLI_UNIT
    &&& kp.size.1 as int == p.height * NM_PER_MILLI_UNIT
    &&& seq_views(kp.layers@) == spec_layer_names(p.layer_id as int, is_smd)
    &&& kp.rotation as int == -(p.rotation as int)
    &&& if is_smd {
        kp.drill is None && kp.drill_oval is None
    } else if p.hole_length > 0 {
        kp.drill is None && (kp.drill_oval matches Some(d) && d.0 as int == 2 * p.hole_radius
            * NM_PER_MILLI_UNIT && d.1 as int == p.hole_length * NM_PER_MILLI_UNIT)
    } else {
        kp.drill_oval is None && (kp.drill matches Some(d) && d as int == 2 * p.hole_radius
            * NM_PER_MILLI_UNIT)
    }
}

/// Relation of one converted text item to its source: the value role
/// takes the footprint name onto the fabrication layer, the reference
/// role a fixed placeholder onto the silkscreen layer, and anything else
/// passes through onto its mapped layer.
pub open spec fn spec_conv_text_ok(
    kt: FpText,
    t: EeFootprintText,
    fpname: Seq<char>,
    c: (int, int),
    bbox: (i64, i64),
) -> bool {
    &&& kt.pos.0 as int == spec_text_raw(t, bbox).0 - c.0
    &&& kt.pos.1 as int == spec_text_raw(t, bbox).1 - c.1
    &&& if t.text_type@ == "P"@ {
        kt.text_type@ == "value"@ && kt.text@ == fpname && kt.layer@ == "F.Fab"@
    } else if t.text_type@ == "N"@ {
        kt.text_type@ == "reference"@ && kt.text@ == "REF**"@ && kt.layer@ == "F.SilkS"@
    } else {
        kt.text_type@ == "user"@ && kt.text@ == t.text@ && kt.layer@ == spec_layer_names(
            t.layer_id as int,
            true,
        )[0]
    }
}

/// Converts the pads of a footprint against a computed center.
#[verifier::rlimit(100)]
#[verifier::loop_isolation(false)]
fn convert_pads(pads: &Vec<EeFootprintPad>, bbox: (i64, i64), c: (i64, i64)) -> (r: Vec<FpPad>)
    requires
        in_milli_range(bbox.0 as int),
        in_milli_range(bbox.1 as int),
        -508_000_000_000_000_000 <= c.0 <= 508_000_000_000_000_000,
        -508_000_000_000_000_000 <= c.1 <= 508_000_000_000_000_000,
        forall|i: int|
            0 <= i < pads@.len() ==> {
                let p = #[trigger] pads@[i];
                &&& in_milli_range(p.center_x as int)
                &&& in_milli_range(p.center_y as int)
                &&& in_milli_range(p.width as int)
                &&& in_milli_range(p.height as int)
                &&& in_milli_range(p.hole_radius as int)
                &&& in_milli_range(p.hole_length as int)
                &&& in_milli_range(p.rotation as int)
            },
    ensures
        r@.len() == pads@.len(),
        forall|k: int|
            0 <= k < r@.len() ==> spec_conv_pad_ok(
                #[trigger] r@[k],
                pads@[k],
                k,
                (c.0 as int, c.1 as int),
                bbox,
            ),
        forall|k: int|
            0 <= k < r@.len() ==> {
                let kp = #[trigger] r@[k];
                &&& -1_100_000_000_000_000_000 <= kp.pos.0 <= 1_100_000_000_000_000_000
                &&& -1_100_000_000_000_000_000 <= kp.pos.1 <= 1_100_000_000_000_000_000
                &&& -260_000_000_000_000_000 <= kp.size.0 <= 260_000_000_000_000_000
                &&& -260_000_000_000_000_000 <= kp.size.1 <= 260_000_000_000_000_000
                &&& in_milli_range(kp.rotation as int)
            },
{
    let mut out: Vec<FpPad> = Vec::new();
    let mut i: usize = 0;
    while i < pads.len()
        invariant
            i <= pads@.len(),
            out@.len() == i,
            forall|k: int|
                0 <= k < i ==> spec_conv_pad_ok(
                    #[trigger] out@[k],
                    pads@[k],
                    k,
                    (c.0 as int, c.1 as int),
                    bbox,
                ),
            forall|k: int|
                0 <= k < i ==> {
                    let kp = #[trigger] out@[k];
                    &&& -1_100_000_000_000_000_000 <= kp.pos.0 <= 1_100_000_000_000_000_000
                    &&& -1_100_000_000_000_000_000 <= kp.pos.1 <= 1_100_000_000_000_000_000
                    &&& -260_000_000_000_000_000 <= kp.size.0 <= 260_000_000_000_000_000
                    &&& -260_000_000_000_000_000 <= kp.size.1 <= 260_000_000_000_000_000
                    &&& in_milli_range(kp.rotation as int)
                },
        decreases pads@.len() - i,
    {
        let p = &pads[i];
        let is_smd = p.hole_radius == 0 && p.hole_length == 0;
        let number = if is_blank(p.number.as_str()) {
            fmt_usize(i + 1)
        } else {
            p.number.clone()
        };
        let x = ee_to_mm(p.center_x - bbox.0);
        let y = ee_to_mm(p.center_y - bbox.1);
        let (drill, drill_oval): (Option<i64>, Option<(i64, i64)>) = if is_smd {
            (None, None)
        } else if p.hole_length > 0 {
            (None, Some((2 * ee_to_mm(p.hole_radius), ee_to_mm(p.hole_length))))
        } else {
            (Some(2 * ee_to_mm(p.hole_radius)), None)
        };
        let kp = FpPad {
            number,
            pad_type: if is_smd {
                String::from_str("smd")
            } else {
                String::from_str("thru_hole")
            },
            shape: map_shape(p.shape.as_str()),
            pos: (x - c.0, y - c.1),
            size: (ee_to_mm(p.width), ee_to_mm(p.height)),
            layers: map_layer(p.layer_id, is_smd),
            rotation: -p.rotation,
            drill,
            drill_oval,
        };
        out.push(kp);
        i += 1;
    }
    out
}

/// Converts the text items of a footprint against a computed center.
#[verifier::rlimit(100)]
#[verifier::loop_isolation(false)]
fn convert_texts(
    texts: &Vec<EeFootprintText>,
    fpname: &String,
    bbox: (i64, i64),
    c: (i64, i64),
) -> (r: Vec<FpText>)
    requires
        in_milli_range(bbox.0 as int),
        in_milli_range(bbox.1 as int),
        -508_000_000_000_000_000 <= c.0 <= 508_000_000_000_000_000,
        -508_000_000_000_000_000 <= c.1 <= 508_000_000_000_000_000,
        forall|i: int|
            0 <= i < texts@.len() ==> {
                let t = #[trigger] texts@[i];
                &&& in_milli_range(t.center_x as int)
                &&& in_milli_range(t.center_y as int)
            },
    ensures
        r@.len() == texts@.len(),
        forall|k: int|
            0 <= k < r@.len() ==> spec_conv_text_ok(
                #[trigger] r@[k],
                texts@[k],
                fpname@,
                (c.0 as int, c.1 as int),
                bbox,
            ),
        forall|k: int|
            0 <= k < r@.len() ==> in_nm_range(#[trigger] r@[k].pos.0 as int) && in_nm_range(
                r@[k].pos.1 as int,
            ),
{
    let mut out: Vec<FpText> = Vec::new();
    let mut i: usize = 0;
    while i < texts.len()
        invariant
            i <= texts@.len(),
            out@.len() == i,
            forall|k: int|
                0 <= k < i ==> spec_conv_text_ok(
                    #[trigger] out@[k],
                    texts@[k],
                    fpname@,
                    (c.0 as int, c.1 as int),
                    bbox,
                ),
            forall|k: int|
                0 <= k < i ==> in_nm_range(#[trigger] out@[k].pos.0 as int) && in_nm_range(
                    out@[k].pos.1 as int,
                ),
        decreases texts@.len() - i,
    {
        let t = &texts[i];
        let x = ee_to_mm(t.center_x - bbox.0);
        let y = ee_to_mm(t.center_y - bbox.1);
        let kt = if str_eq(t.text_type.as_str(), "P") {
            FpText {
                text_type: String::from_str("value"),
                text: fpname.clone(),
                pos: (x - c.0, y - c.1),
                layer: String::from_str("F.Fab"),
            }
        } else if str_eq(t.text_type.as_str(), "N") {
            FpText {
                text_type: String::from_str("reference"),
                text: String::from_str("REF**"),
                pos: (x - c.0, y - c.1),
                layer: String::from_str("F.SilkS"),
            }
        } else {
            let layers = map_layer(t.layer_id, true);
            proof {
                assert(seq_views(layers@).len() == layers@.len());
                assert(spec_layer_names(t.layer_id as int, true).len() >= 1);
                assert(layers@.len() >= 1);
                assert(seq_views(layers@)[0] == layers@[0]@);
            }
            FpText {
                text_type: String::from_str("user"),
                text: t.text.clone(),
                pos: (x - c.0, y - c.1),
                layer: layers[0].clone(),
            }
        };
        out.push(kt);
        i += 1;
    }
    out
}

/// The ghost view of one graphic line: start, end, layer name, width.
pub open spec fn spec_line_view(l: FpLine) -> ((int, int), (int, int), Seq<char>, int) {
    (
        (l.start.0 as int, l.start.1 as int),
        (l.end.0 as int, l.end.1 as int),
        l.layer@,
        l.width as int,
    )
}

/// The views of a vector of graphic lines.
pub open spec fn line_views(v: Seq<FpLine>) -> Seq<((int, int), (int, int), Seq<char>, int)> {
    v.map_values(|l: FpLine| spec_line_view(l))
}

/// One candidate segment of a track: the consecutive points `j` and
/// `j+1`, centered, on the track's mapped layer.
pub open spec fn spec_track_seg(t: EeFootprintTrack, j: int, c: (int, int), bbox: (i64, i64)) -> (
    (int, int),
    (int, int),
    Seq<char>,
    int,
) {
    let a = spec_pt_raw(t.points@[j], bbox);
    let b = spec_pt_raw(t.points@[j + 1], bbox);
    (
        (a.0 - c.0, a.1 - c.1),
        (b.0 - c.0, b.1 - c.1),
        spec_layer_names(t.layer_id as int, true)[0],
        t.stroke_width * NM_PER_MILLI_UNIT,
    )
}

/// Whether both endpoints of a candidate segment stay within the sanity
/// radius of the computed center.
pub open spec fn spec_seg_kept(t: EeFootprintTrack, j: int, c: (int, int), bbox: (i64, i64)) -> bool {
    let s = spec_track_seg(t, j, c, bbox);
    spec_in_range(s.0.0, s.0.1) && spec_in_range(s.1.0, s.1.1)
}

/// The kept segments among the first `j` consecutive point pairs of a
/// track.
pub open spec fn spec_track_segs_upto(t: EeFootprintTrack, j: int, c: (int, int), bbox: (i64, i64))
    -> Seq<((int, int), (int, int), Seq<char>, int)>
    decreases j,
{
    if j <= 0 {
        Seq::empty()
    } else {
        spec_track_segs_upto(t, j - 1, c, bbox) + if spec_seg_kept(t, j - 1, c, bbox) {
            seq![spec_track_seg(t, j - 1, c, bbox)]
        } else {
            Seq::empty()
        }
    }
}

/// All graphic lines a track contributes: its kept segments when its
/// layer resolves to a drawing layer, nothing from a copper track.
pub open spec fn spec_track_lines_of(t: EeFootprintTrack, c: (int, int), bbox: (i64, i64)) -> Seq<
    ((int, int), (int, int), Seq<char>, int),
> {
    if spec_is_graphic_layer(t.layer_id as int) {
        spec_track_segs_upto(t, t.points@.len() - 1, c, bbox)
    } else {
        Seq::empty()
    }
}

/// The graphic lines of the first `n` tracks, in order.
pub open spec fn spec_lines_upto(
    tracks: Seq<EeFootprintTrack>,
    n: int,
    c: (int, int),
    bbox: (i64, i64),
) -> Seq<((int, int), (int, int), Seq<char>, int)>
    decreases n,
{
    if n <= 0 {
        Seq::empty()
    } else {
        spec_lines_upto(tracks, n - 1, c, bbox) + spec_track_lines_of(tracks[n - 1], c, bbox)
    }
}

/// Converts the tracks of a footprint into graphic line segments against
/// a computed center: copper tracks are discarded, and so is every
/// segment with an endpoint farther than the sanity radius from the
/// center.
#[verifier::rlimit(100)]
#[verifier::loop_isolation(false)]
fn convert_tracks(tracks: &Vec<EeFootprintTrack>, bbox: (i64, i64), c: (i64, i64)) -> (r: Vec<
    FpLine,
>)
    requires
        in_milli_range(bbox.0 as int),
        in_milli_range(bbox.1 as int),
        -508_000_000_000_000_000 <= c.0 <= 508_000_000_000_000_000,
        -508_000_000_000_000_000 <= c.1 <= 508_000_000_000_000_000,
        forall|i: int|
            0 <= i < tracks@.len() ==> {
                let t = #[trigger] tracks@[i];
                &&& in_milli_range(t.stroke_width as int)
                &&& forall|j: int|
                    0 <= j < t.points@.len() ==> in_milli_range(#[trigger] t.points@[j].0 as int)
                        && in_milli_range(t.points@[j].1 as int)
            },
    ensures
        line_views(r@) == spec_lines_upto(tracks@, tracks@.len() as int, (c.0 as int, c.1 as int), bbox),
        forall|k: int|
            0 <= k < r@.len() ==> {
                let l = #[trigger] r@[k];
                &&& -150_000_000 <= l.start.0 <= 150_000_000
                &&& -150_000_000 <= l.start.1 <= 150_000_000
                &&& -150_000_000 <= l.end.0 <= 150_000_000
                &&& -150_000_000 <= l.end.1 <= 150_000_000
                &&& -260_000_000_000_000_000 <= l.width <= 260_000_000_000_000_000
            },
{
    let ghost cc = (c.0 as int, c.1 as int);
    let mut out: Vec<FpLine> = Vec::new();
    let mut t: usize = 0;
    proof {
        assert(line_views(out@) =~= spec_lines_upto(tracks@, 0, cc, bbox));
    }
    while t < tracks.len()
        invariant
            t <= tracks@.len(),
            line_views(out@) == spec_lines_upto(tracks@, t as int, cc, bbox),
            forall|k: int|
                0 <= k < out@.len() ==> {
                    let l = #[trigger] out@[k];
                    &&& -150_000_000 <= l.start.0 <= 150_000_000
                    &&& -150_000_000 <= l.start.1 <= 150_000_000
                    &&& -150_000_000 <= l.end.0 <= 150_000_000
                    &&& -150_000_000 <= l.end.1 <= 150_000_000
                    &&& -260_000_000_000_000_000 <= l.width <= 260_000_000_000_000_000
                },
        decreases tracks@.len() - t,
    {
        let trk = &tracks[t];
        let ghost tv = tracks@[t as int];
        if is_graphic_layer(trk.layer_id) {
            let layers = map_layer(trk.layer_id, true);
            proof {
                assert(seq_views(layers@).len() == layers@.len());
                assert(spec_layer_names(trk.layer_id as int, true).len() >= 1);
                assert(seq_views(layers@)[0] == layers@[0]@);
            }
            let lname = &layers[0];
            let width = ee_to_mm(trk.stroke_width);
            let npts = trk.points.len();
            let mut j: usize = 0;
            proof {
                assert(line_views(out@) + spec_track_segs_upto(tv, 0, cc, bbox) =~= line_views(
                    out@,
                ));
            }
            while npts >= 1 && j < npts - 1
                invariant
                    npts >= 1 ==> j <= npts - 1,
                    npts == 0 ==> j == 0,
                    npts == trk.points@.len(),
                    line_views(out@) =~= spec_lines_upto(tracks@, t as int, cc, bbox)
                        + spec_track_segs_upto(tv, j as int, cc, bbox),
                    forall|k: int|
                        0 <= k < out@.len() ==> {
                            let l = #[trigger] out@[k];
                            &&& -150_000_000 <= l.start.0 <= 150_000_000
                            &&& -150_000_000 <= l.start.1 <= 150_000_000
                            &&& -150_000_000 <= l.end.0 <= 150_000_000
                            &&& -150_000_000 <= l.end.1 <= 150_000_000
                            &&& -260_000_000_000_000_000 <= l.width <= 260_000_000_000_000_000
                        },
                decreases npts - j,
            {
                let p1 = trk.points[j];
                let p2 = trk.points[j + 1];
                let ax = ee_to_mm(p1.0 - bbox.0) - c.0;
                let ay = ee_to_mm(p1.1 - bbox.1) - c.1;
                let bx = ee_to_mm(p2.0 - bbox.0) - c.0;
                let by = ee_to_mm(p2.1 - bbox.1) - c.1;
                let keep = in_range(ax, ay) && in_range(bx, by);
                proof {
                    assert(spec_track_segs_upto(tv, j as int + 1, cc, bbox)
                        == spec_track_segs_upto(tv, j as int, cc, bbox) + if spec_seg_kept(
                        tv,
                        j as int,
                        cc,
                        bbox,
                    ) {
                        seq![spec_track_seg(tv, j as int, cc, bbox)]
                    } else {
                        Seq::empty()
                    });
                    assert(keep == spec_seg_kept(tv, j as int, cc, bbox));
                }
                if keep {
                    proof {
                        assert(-150_000_000 <= ax <= 150_000_000 && -150_000_000 <= ay
                            <= 150_000_000) by (nonlinear_arith)
                            requires
                                (ax as int) * (ax as int) + (ay as int) * (ay as int)
                                    <= 150_000_000int * 150_000_000int,
                        ;
                        assert(-150_000_000 <= bx <= 150_000_000 && -150_000_000 <= by
                            <= 150_000_000) by (nonlinear_arith)
                            requires
                                (bx as int) * (bx as int) + (by as int) * (by as int)
                                    <= 150_000_000int * 150_000_000int,
                        ;
                    }
                    let ghost prev = out@;
                    out.push(
                        FpLine {
                            start: (ax, ay),
                            end: (bx, by),
                            layer: lname.clone(),
                            width,
                        },
                    );
                    proof {
                        assert(line_views(out@) =~= line_views(prev).push(
                            spec_track_seg(tv, j as int, cc, bbox),
                        ));
                        assert(line_views(out@) =~= spec_lines_upto(tracks@, t as int, cc, bbox)
                            + spec_track_segs_upto(tv, j as int + 1, cc, bbox));
                    }
                } else {
                    proof {
                        assert(spec_track_segs_upto(tv, j as int + 1, cc, bbox)
                            =~= spec_track_segs_upto(tv, j as int, cc, bbox));
                    }
                }
                j += 1;
            }
            proof {
                if npts >= 1 {
                    assert(j as int == npts - 1);
                } else {
                    assert(j == 0);
                    assert(spec_track_segs_upto(tv, npts - 1, cc, bbox) =~= Seq::<
                        ((int, int), (int, int), Seq<char>, int),
                    >::empty());
                    assert(spec_track_segs_upto(tv, j as int, cc, bbox) =~= Seq::<
                        ((int, int), (int, int), Seq<char>, int),
                    >::empty());
                }
                assert(spec_track_lines_of(tv, cc, bbox) == spec_track_segs_upto(
                    tv,
                    npts - 1,
                    cc,
                    bbox,
                ));
                assert(spec_lines_upto(tracks@, t as int + 1, cc, bbox) =~= spec_lines_upto(
                    tracks@,
                    t as int,
                    cc,
                    bbox,
                ) + spec_track_lines_of(tv, cc, bbox));
                assert(line_views(out@) =~= spec_lines_upto(tracks@, t as int + 1, cc, bbox));
            }
        } else {
            proof {
                assert(spec_track_lines_of(tv, cc, bbox) =~= Seq::<
                    ((int, int), (int, int), Seq<char>, int),
                >::empty());
                assert(spec_lines_upto(tracks@, t as int + 1, cc, bbox) =~= spec_lines_upto(
                    tracks@,
                    t as int,
                    cc,
                    bbox,
                ));
            }
        }
        t += 1;
    }
    out
}

/// The ghost view of one graphic circle: center, radius, layer, width.
pub open spec fn spec_circle_view(c: FpCircle) -> ((int, int), int, Seq<char>, int) {
    ((c.center.0 as int, c.center.1 as int), c.radius as int, c.layer@, c.width as int)
}

/// The views of a vector of graphic circles.
pub open spec fn circle_views(v: Seq<FpCircle>) -> Seq<((int, int), int, Seq<char>, int)> {
    v.map_values(|c: FpCircle| spec_circle_view(c))
}

/// Whether a source circle is kept as graphics: a copper or silkscreen
/// layer id, its center within the sanity radius of the computed center,
/// and its radius within the largest kept radius.
pub open spec fn spec_circle_kept(cc: EeFootprintCircle, c: (int, int), bbox: (i64, i64)) -> bool {
    &&& cc.layer_id == 1 || cc.layer_id == 2 || cc.layer_id == 3 || cc.layer_id == 4
    &&& spec_in_range(spec_circle_raw(cc, bbox).0 - c.0, spec_circle_raw(cc, bbox).1 - c.1)
    &&& cc.radius * NM_PER_MILLI_UNIT <= MAX_CIRCLE_RADIUS_NM as int
}

/// The converted form of a kept circle.
pub open spec fn spec_conv_circle(cc: EeFootprintCircle, c: (int, int), bbox: (i64, i64)) -> (
    (int, int),
    int,
    Seq<char>,
    int,
) {
    (
        (spec_circle_raw(cc, bbox).0 - c.0, spec_circle_raw(cc, bbox).1 - c.1),
        cc.radius * NM_PER_MILLI_UNIT,
        spec_layer_names(cc.layer_id as int, true)[0],
        cc.stroke_width * NM_PER_MILLI_UNIT,
    )
}

/// The kept circles among the first `n`, converted, in order.
pub open spec fn spec_circles_upto(
    circles: Seq<EeFootprintCircle>,
    n: int,
    c: (int, int),
    bbox: (i64, i64),
) -> Seq<((int, int), int, Seq<char>, int)>
    decreases n,
{
    if n <= 0 {
        Seq::empty()
    } else {
        spec_circles_upto(circles, n - 1, c, bbox) + if spec_circle_kept(circles[n - 1], c, bbox) {
            seq![spec_conv_circle(circles[n - 1], c, bbox)]
        } else {
            Seq::empty()
        }
    }
}

/// Converts the circles of a footprint against a computed center,
/// discarding the ones the keep-filter rejects.
#[verifier::rlimit(100)]
#[verifier::loop_isolation(false)]
fn convert_circles(circles: &Vec<EeFootprintCircle>, bbox: (i64, i64), c: (i64, i64)) -> (r: Vec<
    FpCircle,
>)
    requires
        in_milli_range(bbox.0 as int),
        in_milli_range(bbox.1 as int),
        -508_000_000_000_000_000 <= c.0 <= 508_000_000_000_000_000,
        -508_000_000_000_000_000 <= c.1 <= 508_000_000_000_000_000,
        forall|i: int|
            0 <= i < circles@.len() ==> {
                let cc = #[trigger] circles@[i];
                &&& in_milli_range(cc.center_x as int)
                &&& in_milli_range(cc.center_y as int)
                &&& in_milli_range(cc.radius as int)
                &&& in_milli_range(cc.stroke_width as int)
            },
    ensures
        circle_views(r@) == spec_circles_upto(
            circles@,
            circles@.len() as int,
            (c.0 as int, c.1 as int),
            bbox,
        ),
        forall|k: int|
            0 <= k < r@.len() ==> {
                let g = #[trigger] r@[k];
                &&& -150_000_000 <= g.center.0 <= 150_000_000
                &&& -150_000_000 <= g.center.1 <= 150_000_000
                &&& -260_000_000_000_000_000 <= g.radius <= 260_000_000_000_000_000
                &&& -260_000_000_000_000_000 <= g.width <= 260_000_000_000_000_000
            },
{
    let ghost cc2 = (c.0 as int, c.1 as int);
    let mut out: Vec<FpCircle> = Vec::new();
    let mut i: usize = 0;
    proof {
        assert(circle_views(out@) =~= spec_circles_upto(circles@, 0, cc2, bbox));
    }
    while i < circles.len()
        invariant
            i <= circles@.len(),
            circle_views(out@) == spec_circles_upto(circles@, i as int, cc2, bbox),
            forall|k: int|
                0 <= k < out@.len() ==> {
                    let g = #[trigger] out@[k];
                    &&& -150_000_000 <= g.center.0 <= 150_000_000
                    &&& -150_000_000 <= g.center.1 <= 150_000_000
                    &&& -260_000_000_000_000_000 <= g.radius <= 260_000_000_000_000_000
                    &&& -260_000_000_000_000_000 <= g.width <= 260_000_000_000_000_000
                },
        decreases circles@.len() - i,
    {
        let cc = &circles[i];
        let ghost cv = circles@[i as int];
        let x = ee_to_mm(cc.center_x - bbox.0) - c.0;
        let y = ee_to_mm(cc.center_y - bbox.1) - c.1;
        let radius = ee_to_mm(cc.radius);
        let layer_ok = cc.layer_id == 1 || cc.layer_id == 2 || cc.layer_id == 3 || cc.layer_id
            == 4;
        let keep = layer_ok && in_range(x, y) && radius <= MAX_CIRCLE_RADIUS_NM;
        proof {
            assert(spec_circles_upto(circles@, i as int + 1, cc2, bbox) == spec_circles_upto(
                circles@,
                i as int,
                cc2,
                bbox,
            ) + if spec_circle_kept(cv, cc2, bbox) {
                seq![spec_conv_circle(cv, cc2, bbox)]
            } else {
                Seq::empty()
            });
            assert(keep == spec_circle_kept(cv, cc2, bbox));
        }
        if keep {
            proof {
                assert(-150_000_000 <= x <= 150_000_000 && -150_000_000 <= y <= 150_000_000)
                    by (nonlinear_arith)
                    requires
                        (x as int) * (x as int) + (y as int) * (y as int) <= 150_000_000int
                            * 150_000_000int,
                ;
            }
            let layers = map_layer(cc.layer_id, true);
            proof {
                assert(seq_views(layers@).len() == layers@.len());
                assert(spec_layer_names(cc.layer_id as int, true).len() >= 1);
                assert(seq_views(layers@)[0] == layers@[0]@);
            }
            let ghost prev = out@;
            out.push(
                FpCircle {
                    center: (x, y),
                    radius,
                    layer: layers[0].clone(),
                    width: ee_to_mm(cc.stroke_width),
                },
            );
            proof {
                assert(circle_views(out@) =~= circle_views(prev).push(
                    spec_conv_circle(cv, cc2, bbox),
                ));
                assert(circle_views(out@) =~= spec_circles_upto(circles@, i as int + 1, cc2, bbox));
            }
        } else {
            proof {
                assert(spec_circles_upto(circles@, i as int + 1, cc2, bbox) =~= spec_circles_upto(
                    circles@,
                    i as int,
                    cc2,
                    bbox,
                ));
            }
        }
        i += 1;
    }
    out
}

/// Index of the first converted pad carrying the given number, or -1.
pub open spec fn spec_first_pad_numbered(pads: Seq<FpPad>, num: Seq<char>) -> int
    decreases pads.len(),
{
    if pads.len() == 0 {
        -1
    } else if pads[0].number@ == num {
        0
    } else {
        let r = spec_first_pad_numbered(pads.skip(1), num);
        if r == -1 {
            -1
        } else {
            r + 1
        }
    }
}

/// Index of the pad that gets the pin-one marker: the first pad numbered
/// "1", else the first numbered "A1", else -1.
pub open spec fn spec_pin1_index(pads: Seq<FpPad>) -> int {
    if spec_first_pad_numbered(pads, "1"@) != -1 {
        spec_first_pad_numbered(pads, "1"@)
    } else {
        spec_first_pad_numbered(pads, "A1"@)
    }
}

pub proof fn lemma_first_pad_none(pads: Seq<FpPad>, num: Seq<char>)
    requires
        forall|i: int| 0 <= i < pads.len() ==> (#[trigger] pads[i]).number@ != num,
    ensures
        spec_first_pad_numbered(pads, num) == -1,
    decreases pads.len(),
{
    if pads.len() > 0 {
        lemma_first_pad_none(pads.skip(1), num);
    }
}

pub proof fn lemma_first_pad_at(pads: Seq<FpPad>, num: Seq<char>, k: int)
    requires
        0 <= k < pads.len(),
        pads[k].number@ == num,
        forall|i: int| 0 <= i < k ==> (#[trigger] pads[i]).number@ != num,
    ensures
        spec_first_pad_numbered(pads, num) == k,
    decreases pads.len(),
{
    if k > 0 {
        let t = pads.skip(1);
        assert(t[k - 1] == pads[k]);
        assert(forall|i: int| 0 <= i < k - 1 ==> #[trigger] t[i] == pads[i + 1]);
        lemma_first_pad_at(t, num, k - 1);
    }
}

/// Finds the marker pad: the first pad numbered "1", else "A1".
fn find_pin1(pads: &Vec<FpPad>) -> (r: Option<usize>)
    ensures
        match r {
            Some(k) => k < pads@.len() && spec_pin1_index(pads@) == k as int,
            None => spec_pin1_index(pads@) == -1,
        },
{
    let mut i: usize = 0;
    while i < pads.len()
        invariant
            i <= pads@.len(),
            forall|j: int| 0 <= j < i ==> (#[trigger] pads@[j]).number@ != "1"@,
        decreases pads@.len() - i,
    {
        if str_eq(pads[i].number.as_str(), "1") {
            proof {
                lemma_first_pad_at(pads@, "1"@, i as int);
            }
            return Some(i);
        }
        i += 1;
    }
    proof {
        lemma_first_pad_none(pads@, "1"@);
    }
    let mut i: usize = 0;
    while i < pads.len()
        invariant
            i <= pads@.len(),
            spec_first_pad_numbered(pads@, "1"@) == -1,
            forall|j: int| 0 <= j < i ==> (#[trigger] pads@[j]).number@ != "A1"@,
        decreases pads@.len() - i,
    {
        if str_eq(pads[i].number.as_str(), "A1") {
            proof {
                lemma_first_pad_at(pads@, "A1"@, i as int);
            }
            return Some(i);
        }
        i += 1;
    }
    proof {
        lemma_first_pad_none(pads@, "A1"@);
    }
    None
}

/// The synthesized pin-one marker for a pad: a silkscreen circle of fixed
/// radius, offset from the pad's center by half the pad size plus a
/// clearance on each axis, away from the part center; a pad centered on
/// an axis pushes the marker toward negative coordinates on that axis.
pub open spec fn spec_marker_of(p: FpPad) -> ((int, int), int, Seq<char>, int) {
    let ox = spec_half_floor(p.size.0 as int) + MARKER_CLEARANCE_NM as int;
    let oy = spec_half_floor(p.size.1 as int) + MARKER_CLEARANCE_NM as int;
    let dx: int = if p.pos.0 > 0 {
        ox
    } else {
        -ox
    };
    let dy: int = if p.pos.1 > 0 {
        oy
    } else {
        -oy
    };
    (
        (p.pos.0 + dx, p.pos.1 + dy),
        MARKER_RADIUS_NM as int,
        "F.SilkS"@,
        MARKER_STROKE_NM as int,
    )
}

/// Computes the pin-one marker circle of a pad.
fn marker_of(p: &FpPad) -> (r: FpCircle)
    requires
        -1_100_000_000_000_000_000 <= p.pos.0 <= 1_100_000_000_000_000_000,
        -1_100_000_000_000_000_000 <= p.pos.1 <= 1_100_000_000_000_000_000,
        in_nm_range(p.size.0 as int),
        in_nm_range(p.size.1 as int),
    ensures
        spec_circle_view(r) == spec_marker_of(*p),
{
    let hx = half_floor(p.size.0);
    let hy = half_floor(p.size.1);
    let dx = if p.pos.0 > 0 {
        hx + MARKER_CLEARANCE_NM
    } else {
        -(hx + MARKER_CLEARANCE_NM)
    };
    let dy = if p.pos.1 > 0 {
        hy + MARKER_CLEARANCE_NM
    } else {
        -(hy + MARKER_CLEARANCE_NM)
    };
    let r = FpCircle {
        center: (p.pos.0 + dx, p.pos.1 + dy),
        radius: MARKER_RADIUS_NM,
        layer: String::from_str("F.SilkS"),
        width: MARKER_STROKE_NM,
    };
    proof {
        assert(r.center.0 as int == spec_marker_of(*p).0.0);
        assert(r.center.1 as int == spec_marker_of(*p).0.1);
        assert(r.radius as int == spec_marker_of(*p).1);
        assert(r.layer@ == spec_marker_of(*p).2);
        assert(r.width as int == spec_marker_of(*p).3);
    }
    r
}

/// Well-formedness of a 3D-model reference's placement triples.
pub open spec fn spec_model_wf(m: Option<Ki3dModel>) -> bool {
    match m {
        Some(mm) => {
            &&& in_milli_range(mm.offset.0 as int) && in_milli_range(mm.offset.1 as int)
                && in_milli_range(mm.offset.2 as int)
            &&& in_milli_range(mm.scale.0 as int) && in_milli_range(mm.scale.1 as int)
                && in_milli_range(mm.scale.2 as int)
            &&& in_milli_range(mm.rotate.0 as int) && in_milli_range(mm.rotate.1 as int)
                && in_milli_range(mm.rotate.2 as int)
        },
        None => true,
    }
}

/// Well-formedness of a converted footprint: every numeric field is
/// within the ranges the serializer can format.
pub open spec fn spec_ki_fp_wf(f: KiFootprint) -> bool {
    &&& forall|i: int|
        0 <= i < f.pads@.len() ==> {
            let p = #[trigger] f.pads@[i];
            &&& in_nm_range(p.pos.0 as int) && in_nm_range(p.pos.1 as int)
            &&& in_nm_range(p.size.0 as int) && in_nm_range(p.size.1 as int)
            &&& in_milli_range(p.rotation as int)
            &&& match p.drill {
                Some(d) => in_nm_range(d as int),
                None => true,
            }
            &&& match p.drill_oval {
                Some(d) => in_nm_range(d.0 as int) && in_nm_range(d.1 as int),
                None => true,
            }
        }
    &&& forall|i: int|
        0 <= i < f.texts@.len() ==> in_nm_range(#[trigger] f.texts@[i].pos.0 as int)
            && in_nm_range(f.texts@[i].pos.1 as int)
    &&& forall|i: int|
        0 <= i < f.lines@.len() ==> {
            let l = #[trigger] f.lines@[i];
            &&& in_nm_range(l.start.0 as int) && in_nm_range(l.start.1 as int)
            &&& in_nm_range(l.end.0 as int) && in_nm_range(l.end.1 as int)
            &&& in_nm_range(l.width as int)
        }
    &&& forall|i: int|
        0 <= i < f.circles@.len() ==> {
            let g = #[trigger] f.circles@[i];
            &&& in_nm_range(g.center.0 as int) && in_nm_range(g.center.1 as int)
            &&& in_nm_range(g.radius as int) && in_nm_range(g.width as int)
        }
    &&& spec_model_wf(f.model_3d)
}

/// Converts a decoded footprint into a target footprint: pads, texts,
/// track graphics and circle graphics are unit-converted and recentered
/// on the computed center, the pin-one marker is appended to the circle
/// graphics, and the given 3D-model reference passes through unchanged.
/// Conversion never fails.
#[verifier::rlimit(100)]
#[verifier::loop_isolation(false)]
pub fn convert_footprint(ee_footprint: EeFootprint, ki_model: Option<Ki3dModel>) -> (r: Result<
    KiFootprint,
    Error,
>)
    requires
        spec_fp_wf(ee_footprint),
        spec_model_wf(ki_model),
    ensures
        r is Ok,
        ({
            let out = r->Ok_0;
            let c = spec_fp_center(ee_footprint);
            let bbox = ee_footprint.bbox;
            &&& out.name@ == ee_footprint.info.name@
            &&& out.pads@.len() == ee_footprint.pads@.len()
            &&& forall|k: int|
                0 <= k < out.pads@.len() ==> spec_conv_pad_ok(
                    #[trigger] out.pads@[k],
                    ee_footprint.pads@[k],
                    k,
                    c,
                    bbox,
                )
            &&& out.texts@.len() == ee_footprint.texts@.len()
            &&& forall|k: int|
                0 <= k < out.texts@.len() ==> spec_conv_text_ok(
                    #[trigger] out.texts@[k],
                    ee_footprint.texts@[k],
                    ee_footprint.info.name@,
                    c,
                    bbox,
                )
            &&& line_views(out.lines@) == spec_lines_upto(
                ee_footprint.tracks@,
                ee_footprint.tracks@.len() as int,
                c,
                bbox,
            )
            &&& circle_views(out.circles@) == spec_circles_upto(
                ee_footprint.circles@,
                ee_footprint.circles@.len() as int,
                c,
                bbox,
            ) + (if spec_pin1_index(out.pads@) >= 0 {
                seq![spec_marker_of(out.pads@[spec_pin1_index(out.pads@)])]
            } else {
                Seq::empty()
            })
            &&& out.model_3d == ki_model
            &&& spec_ki_fp_wf(out)
        }),
{
    let bbox = ee_footprint.bbox;
    let ghost fspec = ee_footprint;

    let mut pad_pts: Vec<(i64, i64)> = Vec::new();
    let mut i: usize = 0;
    while i < ee_footprint.pads.len()
        invariant
            i <= ee_footprint.pads@.len(),
            pad_pts@.len() == i,
            forall|j: int|
                0 <= j < i ==> (#[trigger] pad_pts@[j].0 as int, pad_pts@[j].1 as int)
                    == spec_pad_raw(ee_footprint.pads@[j], bbox),
            forall|j: int|
                0 <= j < i ==> -508_000_000_000_000_000 <= #[trigger] pad_pts@[j].0
                    <= 508_000_000_000_000_000 && -508_000_000_000_000_000 <= pad_pts@[j].1
                    <= 508_000_000_000_000_000,
        decreases ee_footprint.pads@.len() - i,
    {
        let p = &ee_footprint.pads[i];
        pad_pts.push((ee_to_mm(p.center_x - bbox.0), ee_to_mm(p.center_y - bbox.1)));
        i += 1;
    }
    let mut text_pts: Vec<(i64, i64)> = Vec::new();
    let mut i: usize = 0;
    while i < ee_footprint.texts.len()
        invariant
            i <= ee_footprint.texts@.len(),
            text_pts@.len() == i,
            forall|j: int|
                0 <= j < i ==> (#[trigger] text_pts@[j].0 as int, text_pts@[j].1 as int)
                    == spec_text_raw(ee_footprint.texts@[j], bbox),
            forall|j: int|
                0 <= j < i ==> -508_000_000_000_000_000 <= #[trigger] text_pts@[j].0
                    <= 508_000_000_000_000_000 && -508_000_000_000_000_000 <= text_pts@[j].1
                    <= 508_000_000_000_000_000,
        decreases ee_footprint.texts@.len() - i,
    {
        let t = &ee_footprint.texts[i];
        text_pts.push((ee_to_mm(t.center_x - bbox.0), ee_to_mm(t.center_y - bbox.1)));
        i += 1;
    }
    let c: (i64, i64) = if pad_pts.len() > 0 {
        let cc = centroid(&pad_pts);
        proof {
            assert(pt_views(pad_pts@) =~= spec_pad_pts(fspec));
            crate::geometry::lemma_centroid_bounds(pt_views(pad_pts@), 508_000_000_000_000_000);
        }
        cc
    } else if text_pts.len() > 0 {
        let cc = centroid(&text_pts);
        proof {
            assert(pt_views(text_pts@) =~= spec_text_pts(fspec));
            crate::geometry::lemma_centroid_bounds(pt_views(text_pts@), 508_000_000_000_000_000);
        }
        cc
    } else {
        (0, 0)
    };
    proof {
        assert((c.0 as int, c.1 as int) == spec_fp_center(fspec));
        assert(-508_000_000_000_000_000 <= c.0 <= 508_000_000_000_000_000);
        assert(-508_000_000_000_000_000 <= c.1 <= 508_000_000_000_000_000);
    }
    let pads = convert_pads(&ee_footprint.pads, bbox, c);
    let texts = convert_texts(&ee_footprint.texts, &ee_footprint.info.name, bbox, c);
    let lines = convert_tracks(&ee_footprint.tracks, bbox, c);
    let mut circles = convert_circles(&ee_footprint.circles, bbox, c);
    let ghost circles_before = circles@;
    match find_pin1(&pads) {
        Some(k) => {
            let m = marker_of(&pads[k]);
            circles.push(m);
            proof {
                assert(circle_views(circles@) =~= circle_views(circles_before).push(
                    spec_marker_of(pads@[k as int]),
                ));
            }
        },
        None => {
            proof {
                assert(circle_views(circles@) =~= circle_views(circles_before) + Seq::<
                    ((int, int), int, Seq<char>, int),
                >::empty());
            }
        },
    }
    Ok(
        KiFootprint {
            name: ee_footprint.info.name.clone(),
            pads,
            texts,
            lines,
            circles,
            model_3d: ki_model,
        },
    )
}

/// Drill classification law: for every converted pad, a positive hole
/// radius with zero hole length yields a circular drill of twice the
/// radius; a positive hole length yields a slot of twice the radius by
/// that length; a pad with neither is surface-mounted and carries no
/// drill of either kind.
pub proof fn lemma_drill_classification(
    kp: FpPad,
    p: EeFootprintPad,
    k: int,
    c: (int, int),
    bbox: (i64, i64),
)
    requires
        spec_conv_pad_ok(kp, p, k, c, bbox),
    ensures
        p.hole_radius == 0 && p.hole_length == 0 ==> kp.drill is None && kp.drill_oval is None
            && kp.pad_type@ == "smd"@,
        !(p.hole_radius == 0 && p.hole_length == 0) ==> kp.pad_type@ == "thru_hole"@,
        p.hole_length > 0 && !(p.hole_radius == 0 && p.hole_length == 0) ==> kp.drill is None && (
        kp.drill_oval matches Some(d) && d.0 as int == 2 * p.hole_radius * NM_PER_MILLI_UNIT
            && d.1 as int == p.hole_length * NM_PER_MILLI_UNIT),
        p.hole_radius != 0 && p.hole_length <= 0 ==> kp.drill_oval is None && (kp.drill matches Some(
            d,
        ) && d as int == 2 * p.hole_radius * NM_PER_MILLI_UNIT),
{
}

/// Sanity-distance law: every graphic line the track conversion emits has
/// both endpoints within the sanity radius of the computed center, and a
/// graphic track's in-range consecutive point pairs are each emitted as
/// exactly one line.
pub proof fn lemma_track_lines_in_range(
    tracks: Seq<EeFootprintTrack>,
    n: int,
    c: (int, int),
    bbox: (i64, i64),
)
    ensures
        forall|i: int|
            0 <= i < spec_lines_upto(tracks, n, c, bbox).len() ==> {
                let l = #[trigger] spec_lines_upto(tracks, n, c, bbox)[i];
                spec_in_range(l.0.0, l.0.1) && spec_in_range(l.1.0, l.1.1)
            },
    decreases n,
{
    if n > 0 {
        lemma_track_lines_in_range(tracks, n - 1, c, bbox);
        let t = tracks[n - 1];
        lemma_track_segs_in_range(t, t.points@.len() - 1, c, bbox);
        let prev = spec_lines_upto(tracks, n - 1, c, bbox);
        let segs = spec_track_lines_of(t, c, bbox);
        let cur = spec_lines_upto(tracks, n, c, bbox);
        assert(cur == prev + segs);
        assert forall|i: int|
            0 <= i < cur.len() implies {
            let l = #[trigger] cur[i];
            spec_in_range(l.0.0, l.0.1) && spec_in_range(l.1.0, l.1.1)
        } by {
            if i < prev.len() {
                assert(cur[i] == prev[i]);
            } else {
                assert(cur[i] == segs[i - prev.len()]);
                assert(segs == spec_track_segs_upto(t, t.points@.len() - 1, c, bbox));
            }
        }
    }
}

/// Every kept segment of one track has both endpoints within the sanity
/// radius.
pub proof fn lemma_track_segs_in_range(t: EeFootprintTrack, m: int, c: (int, int), bbox: (i64, i64))
    ensures
        forall|i: int|
            0 <= i < spec_track_segs_upto(t, m, c, bbox).len() ==> {
                let l = #[trigger] spec_track_segs_upto(t, m, c, bbox)[i];
                spec_in_range(l.0.0, l.0.1) && spec_in_range(l.1.0, l.1.1)
            },
    decreases m,
{
    if m > 0 {
        lemma_track_segs_in_range(t, m - 1, c, bbox);
        let prev = spec_track_segs_upto(t, m - 1, c, bbox);
        let cur = spec_track_segs_upto(t, m, c, bbox);
        assert forall|i: int|
            0 <= i < cur.len() implies {
            let l = #[trigger] cur[i];
            spec_in_range(l.0.0, l.0.1) && spec_in_range(l.1.0, l.1.1)
        } by {
            if i < prev.len() {
                assert(cur[i] == prev[i]);
            } else {
                assert(spec_seg_kept(t, m - 1, c, bbox));
                assert(cur[i] == spec_track_seg(t, m - 1, c, bbox));
            }
        }
    }
}

/// Circle filter law: every circle the circle conversion emits has a
/// radius within the kept maximum and lies on one of the four mapped
/// copper or silkscreen layers; a circle with a larger radius or another
/// layer id never appears.
pub proof fn lemma_circles_filtered(
    circles: Seq<EeFootprintCircle>,
    n: int,
    c: (int, int),
    bbox: (i64, i64),
)
    ensures
        forall|i: int|
            0 <= i < spec_circles_upto(circles, n, c, bbox).len() ==> {
                let g = #[trigger] spec_circles_upto(circles, n, c, bbox)[i];
                &&& g.1 <= MAX_CIRCLE_RADIUS_NM as int
                &&& (g.2 == "F.Cu"@ || g.2 == "B.Cu"@ || g.2 == "F.SilkS"@ || g.2 == "B.SilkS"@)
                &&& spec_in_range(g.0.0, g.0.1)
            },
    decreases n,
{
    if n > 0 {
        lemma_circles_filtered(circles, n - 1, c, bbox);
        let prev = spec_circles_upto(circles, n - 1, c, bbox);
        let cur = spec_circles_upto(circles, n, c, bbox);
        assert forall|i: int|
            0 <= i < cur.len() implies {
            let g = #[trigger] cur[i];
            &&& g.1 <= MAX_CIRCLE_RADIUS_NM as int
            &&& (g.2 == "F.Cu"@ || g.2 == "B.Cu"@ || g.2 == "F.SilkS"@ || g.2 == "B.SilkS"@)
            &&& spec_in_range(g.0.0, g.0.1)
        } by {
            if i < prev.len() {
                assert(cur[i] == prev[i]);
            } else {
                let cc = circles[n - 1];
                assert(spec_circle_kept(cc, c, bbox));
                assert(cur[i] == spec_conv_circle(cc, c, bbox));
                assert(cc.layer_id == 1 || cc.layer_id == 2 || cc.layer_id == 3 || cc.layer_id
                    == 4);
            }
        }
    }
}

/// The synthesized pin-one marker also satisfies the circle filter law:
/// its radius is far below the kept maximum and it lies on the front
/// silkscreen layer.
pub proof fn lemma_marker_small(p: FpPad)
    ensures
        spec_marker_of(p).1 <= MAX_CIRCLE_RADIUS_NM as int,
        spec_marker_of(p).2 == "F.SilkS"@,
{
}

} // verus!
