//! Total lookup tables: source layer id to target layer-name set, source
//! shape code to target pad shape, source pin-type code to target pin type.
//! Every function is total; unknown inputs fall back to a safe default.

use vstd::prelude::*;
use crate::kicad_models::{FpShape, KiPinType};
use crate::text::str_eq;

verus! {

/// Layer names a pad or graphic with the given source layer id lands on.
/// Through-hole pads always get the copper+mask wildcard pair.
pub open spec fn spec_layer_names(layer_id: int, is_smd: bool) -> Seq<Seq<char>> {
    if !is_smd {
        seq!["*.Cu"@, "*.Mask"@]
    } else if layer_id == 1 {
        seq!["F.Cu"@, "F.Paste"@, "F.Mask"@]
    } else if layer_id == 2 {
        seq!["B.Cu"@, "B.Paste"@, "B.Mask"@]
    } else if layer_id == 3 {
        seq!["F.SilkS"@]
    } else if layer_id == 4 {
        seq!["B.SilkS"@]
    } else if layer_id == 13 {
        seq!["F.Fab"@]
    } else if layer_id == 15 {
        seq!["Dwgs.User"@]
    } else {
        seq!["F.Fab"@]
    }
}

/// Maps a source layer id to the target layer-name set.
///
/// Through-hole pads (`is_smd == false`) always map to the generic
/// copper+mask wildcard pair regardless of the id; SMD pads map per id,
/// with front fabrication as the default for unknown ids.
pub fn map_layer(layer_id: i64, is_smd: bool) -> (r: Vec<String>)
    ensures
        r@.map_values(|s: String| s@) == spec_layer_names(layer_id as int, is_smd),
{
    let mut r: Vec<String> = Vec::new();
    if !is_smd {
        r.push(String::from_str("*.Cu"));
        r.push(String::from_str("*.Mask"));
    } else if layer_id == 1 {
        r.push(String::from_str("F.Cu"));
        r.push(String::from_str("F.Paste"));
        r.push(String::from_str("F.Mask"));
    } else if layer_id == 2 {
        r.push(String::from_str("B.Cu"));
        r.push(String::from_str("B.Paste"));
        r.push(String::from_str("B.Mask"));
    } else if layer_id == 3 {
        r.push(String::from_str("F.SilkS"));
    } else if layer_id == 4 {
        r.push(String::from_str("B.SilkS"));
    } else if layer_id == 13 {
        r.push(String::from_str("F.Fab"));
    } else if layer_id == 15 {
        r.push(String::from_str("Dwgs.User"));
    } else {
        r.push(String::from_str("F.Fab"));
    }
    proof {
        assert(r@.map_values(|s: String| s@) =~= spec_layer_names(layer_id as int, is_smd));
    }
    r
}

/// The pad shape a source shape code maps to.
pub open spec fn spec_map_shape(shape: Seq<char>) -> FpShape {
    if shape == "ELLIPSE"@ {
        FpShape::Circle
    } else if shape == "RECT"@ {
        FpShape::Rect
    } else if shape == "OVAL"@ {
        FpShape::Oval
    } else {
        FpShape::Rect
    }
}

/// Maps a source pad shape code to the target pad shape; unrecognized
/// codes default to a rectangle.
pub fn map_shape(shape: &str) -> (r: FpShape)
    ensures
        r == spec_map_shape(shape@),
{
    if str_eq(shape, "ELLIPSE") {
        FpShape::Circle
    } else if str_eq(shape, "RECT") {
        FpShape::Rect
    } else if str_eq(shape, "OVAL") {
        FpShape::Oval
    } else {
        FpShape::Rect
    }
}

/// The pin electrical type a source pin-type code maps to.
pub open spec fn spec_map_pin_type(code: Seq<char>) -> KiPinType {
    if code == "1"@ {
        KiPinType::Input
    } else if code == "2"@ {
        KiPinType::Output
    } else if code == "3"@ {
        KiPinType::Bidirectional
    } else if code == "4"@ {
        KiPinType::PowerIn
    } else {
        KiPinType::Passive
    }
}

/// Maps a source pin-type code to the target pin electrical type;
/// unrecognized codes default to passive.
pub fn map_pin_type(ee_type: &str) -> (r: KiPinType)
    ensures
        r == spec_map_pin_type(ee_type@),
{
    if str_eq(ee_type, "1") {
        KiPinType::Input
    } else if str_eq(ee_type, "2") {
        KiPinType::Output
    } else if str_eq(ee_type, "3") {
        KiPinType::Bidirectional
    } else if str_eq(ee_type, "4") {
        KiPinType::PowerIn
    } else {
        KiPinType::Passive
    }
}

/// Whether a track on this source layer is kept as footprint graphics.
/// Copper layers (ids 1 and 2) are discarded; every other id resolves to a
/// silkscreen, fabrication or documentation layer and is kept.
pub open spec fn spec_is_graphic_layer(layer_id: int) -> bool {
    layer_id != 1 && layer_id != 2
}

/// Decides whether a track's layer resolves to a non-copper drawing layer.
pub fn is_graphic_layer(layer_id: i64) -> (r: bool)
    ensures
        r == spec_is_graphic_layer(layer_id as int),
{
    layer_id != 1 && layer_id != 2
}

} // verus!
