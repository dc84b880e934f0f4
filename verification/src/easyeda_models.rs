//! Source-side (EasyEDA) entity types, as decoded from the shape grammar.
//!
//! Positions and sizes are fixed-point integers in thousandths of a source
//! unit (one source unit is 0.254 mm); rotations are thousandths of a
//! degree, except symbol pin rotations, which the source gives as whole
//! degrees.

use vstd::prelude::*;
use crate::geometry::in_milli_range;
use crate::numbers::INT_ABS_LIMIT;

verus! {

/// Identity and metadata of a schematic symbol.
#[derive(Clone)]
pub struct EeSymbolInfo {
    pub name: String,
    pub prefix: String,
    pub package: Option<String>,
    pub datasheet: Option<String>,
    pub lcsc_id: Option<String>,
    pub is_extended: bool,
}

/// A symbol pin: position in milli-units, rotation in whole degrees,
/// length in milli-units.
pub struct EeSymbolPin {
    pub number: String,
    pub name: String,
    pub pos_x: i64,
    pub pos_y: i64,
    pub rotation: i64,
    pub pin_type: String,
    pub pin_length: i64,
}

/// A symbol body rectangle, in milli-units.
pub struct EeSymbolRectangle {
    pub x: i64,
    pub y: i64,
    pub width: i64,
    pub height: i64,
}

/// A decoded schematic symbol. `bbox` is the bounding-box origin that is
/// subtracted from every raw coordinate.
pub struct EeSymbol {
    pub info: EeSymbolInfo,
    pub bbox: (i64, i64),
    pub pins: Vec<EeSymbolPin>,
    pub rectangles: Vec<EeSymbolRectangle>,
}

/// Identity of a footprint.
#[derive(Clone, Default)]
pub struct EeFootprintInfo {
    pub name: String,
}

/// A footprint pad: center and sizes in milli-units, rotation in
/// millidegrees, hole radius and slot length in milli-units.
pub struct EeFootprintPad {
    pub shape: String,
    pub center_x: i64,
    pub center_y: i64,
    pub width: i64,
    pub height: i64,
    pub layer_id: i64,
    pub number: String,
    pub hole_radius: i64,
    pub hole_length: i64,
    pub rotation: i64,
}

/// A footprint track: stroke width in milli-units and an ordered point
/// sequence in milli-units.
pub struct EeFootprintTrack {
    pub stroke_width: i64,
    pub layer_id: i64,
    pub points: Vec<(i64, i64)>,
}

/// A footprint text item, in milli-units and millidegrees.
pub struct EeFootprintText {
    pub text_type: String,
    pub center_x: i64,
    pub center_y: i64,
    pub rotation: i64,
    pub layer_id: i64,
    pub text: String,
}

/// A footprint circle, in milli-units.
pub struct EeFootprintCircle {
    pub layer_id: i64,
    pub stroke_width: i64,
    pub center_x: i64,
    pub center_y: i64,
    pub radius: i64,
}

/// A footprint arc; the path is kept raw, as the source gives it.
pub struct EeFootprintArc {
    pub layer_id: i64,
    pub stroke_width: i64,
    pub path: String,
}

/// A decoded footprint. `bbox` is the bounding-box origin.
pub struct EeFootprint {
    pub info: EeFootprintInfo,
    pub bbox: (i64, i64),
    pub pads: Vec<EeFootprintPad>,
    pub tracks: Vec<EeFootprintTrack>,
    pub texts: Vec<EeFootprintText>,
    pub circles: Vec<EeFootprintCircle>,
    pub arcs: Vec<EeFootprintArc>,
}

/// A 3D model reference found in a footprint, with the raw mesh text and
/// the raw solid bytes once a caller has fetched them.
pub struct Ee3dModel {
    pub name: String,
    pub uuid: String,
    pub raw_obj: Option<String>,
    pub step: Option<Vec<u8>>,
}

/// Well-formedness of a decoded symbol: every numeric field is within the
/// ranges the tolerant parser produces.
pub open spec fn spec_sym_wf(s: EeSymbol) -> bool {
    &&& in_milli_range(s.bbox.0 as int)
    &&& in_milli_range(s.bbox.1 as int)
    &&& forall|i: int|
        0 <= i < s.pins@.len() ==> {
            let p = #[trigger] s.pins@[i];
            &&& in_milli_range(p.pos_x as int)
            &&& in_milli_range(p.pos_y as int)
            &&& in_milli_range(p.pin_length as int)
            &&& -INT_ABS_LIMIT <= p.rotation <= INT_ABS_LIMIT
        }
    &&& forall|i: int|
        0 <= i < s.rectangles@.len() ==> {
            let rc = #[trigger] s.rectangles@[i];
            &&& in_milli_range(rc.x as int)
            &&& in_milli_range(rc.y as int)
            &&& in_milli_range(rc.width as int)
            &&& in_milli_range(rc.height as int)
        }
}

/// Well-formedness of a decoded footprint: every numeric field is within
/// the ranges the tolerant parser produces.
pub open spec fn spec_fp_wf(f: EeFootprint) -> bool {
    &&& in_milli_range(f.bbox.0 as int)
    &&& in_milli_range(f.bbox.1 as int)
    &&& forall|i: int|
        0 <= i < f.pads@.len() ==> {
            let p = #[trigger] f.pads@[i];
            &&& in_milli_range(p.center_x as int)
            &&& in_milli_range(p.center_y as int)
            &&& in_milli_range(p.width as int)
            &&& in_milli_range(p.height as int)
            &&& in_milli_range(p.hole_radius as int)
            &&& in_milli_range(p.hole_length as int)
            &&& in_milli_range(p.rotation as int)
        }
    &&& forall|i: int|
        0 <= i < f.texts@.len() ==> {
            let t = #[trigger] f.texts@[i];
            &&& in_milli_range(t.center_x as int)
            &&& in_milli_range(t.center_y as int)
        }
    &&& forall|i: int|
        0 <= i < f.tracks@.len() ==> {
            let t = #[trigger] f.tracks@[i];
            &&& in_milli_range(t.stroke_width as int)
            &&& forall|j: int|
                0 <= j < t.points@.len() ==> in_milli_range(#[trigger] t.points@[j].0 as int)
                    && in_milli_range(t.points@[j].1 as int)
        }
    &&& forall|i: int|
        0 <= i < f.circles@.len() ==> {
            let cc = #[trigger] f.circles@[i];
            &&& in_milli_range(cc.center_x as int)
            &&& in_milli_range(cc.center_y as int)
            &&& in_milli_range(cc.radius as int)
            &&& in_milli_range(cc.stroke_width as int)
        }
}

} // verus!
