//! Target-side (KiCad) entity types.
//!
//! All lengths and positions are fixed-point integers in nanometers, all
//! angles fixed-point integers in millidegrees, so that geometry is exact.
//! The serializer renders them as decimal millimeter/degree text.

use vstd::prelude::*;

verus! {

/// Pad outline shape in the target format.
#[derive(Debug, Clone, Copy, PartialEq, Eq, Structural)]
pub enum FpShape {
    Circle,
    Rect,
    Oval,
}

/// Electrical type of a symbol pin in the target format.
#[derive(Debug, Clone, Copy, PartialEq, Eq, Structural)]
pub enum KiPinType {
    Input,
    Output,
    Bidirectional,
    PowerIn,
    Passive,
    Unspecified,
}

/// A symbol pin, in target space: position in nanometers relative to the
/// symbol center, rotation in whole degrees, length in nanometers.
pub struct KiSymbolPin {
    pub name: String,
    pub number: String,
    pub pin_type: KiPinType,
    pub length: i64,
    pub pos: (i64, i64),
    pub rotation: i64,
}

/// A symbol body rectangle, in target space nanometers.
pub struct KiSymbolRect {
    pub start: (i64, i64),
    pub end: (i64, i64),
}

/// A complete schematic symbol ready for serialization.
pub struct KiSymbol {
    pub name: String,
    pub reference: String,
    pub footprint: String,
    pub datasheet: String,
    pub lcsc_part: Option<String>,
    pub is_extended: bool,
    pub pins: Vec<KiSymbolPin>,
    pub rectangles: Vec<KiSymbolRect>,
}

/// A footprint pad: position/size in nanometers, rotation in millidegrees.
/// `drill` is a circular drill diameter; `drill_oval` a slot (width, height).
/// At most one of the two is set; neither is set for an SMD pad.
pub struct FpPad {
    pub number: String,
    pub pad_type: String,
    pub shape: FpShape,
    pub pos: (i64, i64),
    pub size: (i64, i64),
    pub layers: Vec<String>,
    pub rotation: i64,
    pub drill: Option<i64>,
    pub drill_oval: Option<(i64, i64)>,
}

/// A footprint text item: position in nanometers.
pub struct FpText {
    pub text_type: String,
    pub text: String,
    pub pos: (i64, i64),
    pub layer: String,
}

/// A straight graphic line segment on a footprint, in nanometers.
pub struct FpLine {
    pub start: (i64, i64),
    pub end: (i64, i64),
    pub layer: String,
    pub width: i64,
}

/// A graphic circle on a footprint, in nanometers.
pub struct FpCircle {
    pub center: (i64, i64),
    pub radius: i64,
    pub layer: String,
    pub width: i64,
}

/// A 3D model reference attached to a footprint. The placement triples are
/// fixed-point thousandths (1000 = 1.0).
pub struct Ki3dModel {
    pub name: String,
    pub wrl_data: Option<String>,
    pub step_data: Option<Vec<u8>>,
    pub offset: (i64, i64, i64),
    pub scale: (i64, i64, i64),
    pub rotate: (i64, i64, i64),
}

/// A complete footprint ready for serialization.
pub struct KiFootprint {
    pub name: String,
    pub pads: Vec<FpPad>,
    pub texts: Vec<FpText>,
    pub lines: Vec<FpLine>,
    pub circles: Vec<FpCircle>,
    pub model_3d: Option<Ki3dModel>,
}

} // verus!
