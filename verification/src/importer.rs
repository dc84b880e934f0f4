//! Decoders: from one component's payload fields to intermediate entities.
//!
//! The payload types hold, as plain values, exactly what the decoders read
//! from the component's JSON-like tree: metadata strings, the
//! numeric-as-text bounding-box origin, and the raw shape lines. A caller
//! that fetched the tree copies those paths over and hands the rest of the
//! work to the verified decoders here.

use vstd::prelude::*;
use crate::easyeda_models::{
    spec_fp_wf, spec_sym_wf, Ee3dModel, EeFootprint, EeFootprintInfo, EeSymbol, EeSymbolInfo,
};
use crate::error::Error;
use crate::grammar::{
    parse_footprint_shape_line, parse_symbol_shape_line, spec_arc_fields_ok, spec_circle_fields_ok,
    spec_pad_fields_ok, spec_pin_accepted, spec_pin_fields_ok, spec_rect_fields_ok,
    spec_text_fields_ok, spec_track_fields_ok, spec_is_pin_branch, FootprintShape, SymbolShape,
};
use crate::numbers::{parse_fixed_or_zero, spec_fixed_or_zero};
use crate::text::{has_prefix, seq_views, spec_has_prefix, spec_split, spec_split_caret2};

verus! {

/// What the symbol decoder reads from a component's payload tree: the
/// `head.c_para` metadata strings, the `lcsc` fields, the numeric-as-text
/// bounding-box origin, and the `shape` line array. `None` stands for an
/// absent or non-string field; a non-string shape entry is carried as an
/// empty string.
pub struct SymbolPayload {
    pub name: Option<String>,
    pub prefix: Option<String>,
    pub package: Option<String>,
    pub datasheet: Option<String>,
    pub lcsc_id: Option<String>,
    pub part_class: Option<String>,
    pub head_x: Option<String>,
    pub head_y: Option<String>,
    pub shapes: Option<Vec<String>>,
}

/// What the footprint decoder reads from the `packageDetail` subtree.
pub struct FootprintPayload {
    pub title: Option<String>,
    pub head_x: Option<String>,
    pub head_y: Option<String>,
    pub shapes: Option<Vec<String>>,
}

/// The view of an optional string.
pub open spec fn opt_view(o: Option<String>) -> Option<Seq<char>> {
    match o {
        Some(s) => Some(s@),
        None => None,
    }
}

/// The string's view, or the given default when it is absent.
pub open spec fn spec_str_or(o: Option<String>, d: Seq<char>) -> Seq<char> {
    match o {
        Some(s) => s@,
        None => d,
    }
}

/// A bounding-box coordinate: the parsed numeric-as-text field, zero when
/// the field is absent or malformed.
pub open spec fn spec_opt_coord(o: Option<String>) -> int {
    match o {
        Some(s) => spec_fixed_or_zero(s@, 3),
        None => 0,
    }
}

/// Whether the part class marks the part as extended.
pub open spec fn spec_is_extended(pc: Option<String>) -> bool {
    match pc {
        Some(s) => s@ == "Extended Part"@,
        None => false,
    }
}

/// Whether a symbol shape line decodes to a pin.
pub open spec fn spec_is_sym_pin_line(l: Seq<char>) -> bool {
    spec_is_pin_branch(l) && spec_pin_accepted(spec_split_caret2(l))
}

/// Whether a symbol shape line decodes to a body rectangle.
pub open spec fn spec_is_sym_rect_line(l: Seq<char>) -> bool {
    !spec_is_pin_branch(l) && spec_split(l, '~')[0] == "R"@ && spec_split(l, '~').len() > 6
}

/// The symbol shape lines that decode to pins, in order.
pub open spec fn spec_sym_pin_lines(shapes: Seq<Seq<char>>) -> Seq<Seq<char>> {
    shapes.filter(|l: Seq<char>| spec_is_sym_pin_line(l))
}

/// The symbol shape lines that decode to rectangles, in order.
pub open spec fn spec_sym_rect_lines(shapes: Seq<Seq<char>>) -> Seq<Seq<char>> {
    shapes.filter(|l: Seq<char>| spec_is_sym_rect_line(l))
}

/// Decodes a full symbol payload: metadata with their documented
/// defaults, the bounding-box origin, and one decoded entity per accepted
/// shape line, pins and rectangles in payload order. Only a missing shape
/// collection is an error; every malformed line is skipped.
#[verifier::rlimit(60)]
pub fn import_symbol(payload: &SymbolPayload) -> (r: Result<EeSymbol, Error>)
    ensures
        match r {
            Ok(sym) => payload.shapes matches Some(sv) && {
                let shapes = seq_views(sv@);
                let pin_lines = spec_sym_pin_lines(shapes);
                let rect_lines = spec_sym_rect_lines(shapes);
                &&& sym.info.name@ == spec_str_or(payload.name, "Unknown"@)
                &&& sym.info.prefix@ == spec_str_or(payload.prefix, "U"@)
                &&& opt_view(sym.info.package) == opt_view(payload.package)
                &&& opt_view(sym.info.datasheet) == opt_view(payload.datasheet)
                &&& opt_view(sym.info.lcsc_id) == opt_view(payload.lcsc_id)
                &&& sym.info.is_extended == spec_is_extended(payload.part_class)
                &&& sym.bbox.0 as int == spec_opt_coord(payload.head_x)
                &&& sym.bbox.1 as int == spec_opt_coord(payload.head_y)
                &&& sym.pins@.len() == pin_lines.len()
                &&& forall|k: int|
                    0 <= k < pin_lines.len() ==> spec_pin_fields_ok(
                        #[trigger] sym.pins@[k],
                        spec_split_caret2(pin_lines[k]),
                    )
                &&& sym.rectangles@.len() == rect_lines.len()
                &&& forall|k: int|
                    0 <= k < rect_lines.len() ==> spec_rect_fields_ok(
                        #[trigger] sym.rectangles@[k],
                        spec_split(rect_lines[k], '~'),
                    )
                &&& spec_sym_wf(sym)
            },
            Err(e) => payload.shapes is None && (e matches Error::MissingData(m) && m@
                == "Symbol shape data is missing"@),
        },
{
    broadcast use crate::grammar::lemma_pin_fields_bounded;
    broadcast use crate::grammar::lemma_rect_fields_bounded;

    let shapes: &Vec<String> = match &payload.shapes {
        Some(v) => v,
        None => {
            return Err(Error::MissingData(String::from_str("Symbol shape data is missing")));
        },
    };
    let info = EeSymbolInfo {
        name: match &payload.name {
            Some(s) => s.clone(),
            None => String::from_str("Unknown"),
        },
        prefix: match &payload.prefix {
            Some(s) => s.clone(),
            None => String::from_str("U"),
        },
        package: match &payload.package {
            Some(s) => Some(s.clone()),
            None => None,
        },
        datasheet: match &payload.datasheet {
            Some(s) => Some(s.clone()),
            None => None,
        },
        lcsc_id: match &payload.lcsc_id {
            Some(s) => Some(s.clone()),
            None => None,
        },
        is_extended: match &payload.part_class {
            Some(s) => crate::text::str_eq(s.as_str(), "Extended Part"),
            None => false,
        },
    };
    let bbox_x: i64 = match &payload.head_x {
        Some(s) => parse_fixed_or_zero(s.as_str(), crate::grammar::GRAMMAR_SCALE),
        None => 0,
    };
    let bbox_y: i64 = match &payload.head_y {
        Some(s) => parse_fixed_or_zero(s.as_str(), crate::grammar::GRAMMAR_SCALE),
        None => 0,
    };
    let ghost shv = seq_views(shapes@);
    let mut pins: Vec<crate::easyeda_models::EeSymbolPin> = Vec::new();
    let mut rectangles: Vec<crate::easyeda_models::EeSymbolRectangle> = Vec::new();
    let mut i: usize = 0;
    proof {
        reveal(Seq::filter);
        assert(shv.take(0) =~= Seq::<Seq<char>>::empty());
    }
    while i < shapes.len()
        invariant
            i <= shapes@.len(),
            shv == seq_views(shapes@),
            pins@.len() == spec_sym_pin_lines(shv.take(i as int)).len(),
            forall|k: int|
                0 <= k < pins@.len() ==> spec_pin_fields_ok(
                    #[trigger] pins@[k],
                    spec_split_caret2(spec_sym_pin_lines(shv.take(i as int))[k]),
                ),
            rectangles@.len() == spec_sym_rect_lines(shv.take(i as int)).len(),
            forall|k: int|
                0 <= k < rectangles@.len() ==> spec_rect_fields_ok(
                    #[trigger] rectangles@[k],
                    spec_split(spec_sym_rect_lines(shv.take(i as int))[k], '~'),
                ),
        decreases shapes@.len() - i,
    {
        let ghost pin_prev = spec_sym_pin_lines(shv.take(i as int));
        let ghost rect_prev = spec_sym_rect_lines(shv.take(i as int));
        proof {
            reveal(Seq::filter);
            assert(seq_views(shapes@)[i as int] == shapes@[i as int]@);
            assert(shv.take(i as int + 1).drop_last() =~= shv.take(i as int));
            assert(shv.take(i as int + 1).last() == shv[i as int]);
        }
        match parse_symbol_shape_line(shapes[i].as_str()) {
            SymbolShape::Pin(p) => {
                let ghost prev = pins@;
                pins.push(p);
                proof {
                    assert(spec_is_sym_pin_line(shv[i as int]));
                    assert(spec_sym_pin_lines(shv.take(i as int + 1)) == pin_prev.push(
                        shv[i as int],
                    ));
                    assert(spec_sym_rect_lines(shv.take(i as int + 1)) == rect_prev);
                    assert(forall|k: int| 0 <= k < prev.len() ==> pins@[k] == #[trigger] prev[k]);
                }
            },
            SymbolShape::Rect(rc) => {
                let ghost prev = rectangles@;
                rectangles.push(rc);
                proof {
                    assert(spec_is_sym_rect_line(shv[i as int]));
                    assert(!spec_is_sym_pin_line(shv[i as int]));
                    assert(spec_sym_rect_lines(shv.take(i as int + 1)) == rect_prev.push(
                        shv[i as int],
                    ));
                    assert(spec_sym_pin_lines(shv.take(i as int + 1)) == pin_prev);
                    assert(forall|k: int|
                        0 <= k < prev.len() ==> rectangles@[k] == #[trigger] prev[k]);
                }
            },
            SymbolShape::Ignored => {
                proof {
                    assert(!spec_is_sym_pin_line(shv[i as int]));
                    assert(!spec_is_sym_rect_line(shv[i as int]));
                    assert(spec_sym_pin_lines(shv.take(i as int + 1)) == pin_prev);
                    assert(spec_sym_rect_lines(shv.take(i as int + 1)) == rect_prev);
                }
            },
        }
        i += 1;
    }
    proof {
        assert(shv.take(shapes@.len() as int) =~= shv);
    }
    Ok(EeSymbol { info, bbox: (bbox_x, bbox_y), pins, rectangles })
}

/// Whether a footprint shape line decodes to a pad.
pub open spec fn spec_is_pad_line(l: Seq<char>) -> bool {
    spec_split(l, '~')[0] == "PAD"@ && spec_split(l, '~').len() > 11
}

/// Whether a footprint shape line decodes to a track.
pub open spec fn spec_is_track_line(l: Seq<char>) -> bool {
    spec_split(l, '~')[0] == "TRACK"@ && spec_split(l, '~').len() > 4
}

/// Whether a footprint shape line decodes to a text item.
pub open spec fn spec_is_text_line(l: Seq<char>) -> bool {
    spec_split(l, '~')[0] == "TEXT"@ && spec_split(l, '~').len() > 10
}

/// Whether a footprint shape line decodes to a circle.
pub open spec fn spec_is_circle_line(l: Seq<char>) -> bool {
    spec_split(l, '~')[0] == "CIRCLE"@ && spec_split(l, '~').len() > 5
}

/// Whether a footprint shape line decodes to an arc.
pub open spec fn spec_is_arc_line(l: Seq<char>) -> bool {
    spec_split(l, '~')[0] == "ARC"@ && spec_split(l, '~').len() > 3
}

/// The footprint shape lines that decode to pads, in order.
pub open spec fn spec_pad_lines(shapes: Seq<Seq<char>>) -> Seq<Seq<char>> {
    shapes.filter(|l: Seq<char>| spec_is_pad_line(l))
}

/// The footprint shape lines that decode to tracks, in order.
pub open spec fn spec_track_lines(shapes: Seq<Seq<char>>) -> Seq<Seq<char>> {
    shapes.filter(|l: Seq<char>| spec_is_track_line(l))
}

/// The footprint shape lines that decode to text items, in order.
pub open spec fn spec_text_lines(shapes: Seq<Seq<char>>) -> Seq<Seq<char>> {
    shapes.filter(|l: Seq<char>| spec_is_text_line(l))
}

/// The footprint shape lines that decode to circles, in order.
pub open spec fn spec_circle_lines(shapes: Seq<Seq<char>>) -> Seq<Seq<char>> {
    shapes.filter(|l: Seq<char>| spec_is_circle_line(l))
}

/// The footprint shape lines that decode to arcs, in order.
pub open spec fn spec_arc_lines(shapes: Seq<Seq<char>>) -> Seq<Seq<char>> {
    shapes.filter(|l: Seq<char>| spec_is_arc_line(l))
}

/// Decodes a full footprint payload: the title with its documented
/// default, the bounding-box origin, and one decoded entity per accepted
/// shape line, each collection in payload order. Only a missing shape
/// collection is an error.
#[verifier::rlimit(100)]
pub fn import_footprint(payload: &FootprintPayload) -> (r: Result<EeFootprint, Error>)
    ensures
        match r {
            Ok(fp) => payload.shapes matches Some(sv) && {
                let shapes = seq_views(sv@);
                &&& fp.info.name@ == spec_str_or(payload.title, "UnknownFootprint"@)
                &&& fp.bbox.0 as int == spec_opt_coord(payload.head_x)
                &&& fp.bbox.1 as int == spec_opt_coord(payload.head_y)
                &&& fp.pads@.len() == spec_pad_lines(shapes).len()
                &&& forall|k: int|
                    0 <= k < fp.pads@.len() ==> spec_pad_fields_ok(
                        #[trigger] fp.pads@[k],
                        spec_split(spec_pad_lines(shapes)[k], '~'),
                    )
                &&& fp.tracks@.len() == spec_track_lines(shapes).len()
                &&& forall|k: int|
                    0 <= k < fp.tracks@.len() ==> spec_track_fields_ok(
                        #[trigger] fp.tracks@[k],
                        spec_split(spec_track_lines(shapes)[k], '~'),
                    )
                &&& fp.texts@.len() == spec_text_lines(shapes).len()
                &&& forall|k: int|
                    0 <= k < fp.texts@.len() ==> spec_text_fields_ok(
                        #[trigger] fp.texts@[k],
                        spec_split(spec_text_lines(shapes)[k], '~'),
                    )
                &&& fp.circles@.len() == spec_circle_lines(shapes).len()
                &&& forall|k: int|
                    0 <= k < fp.circles@.len() ==> spec_circle_fields_ok(
                        #[trigger] fp.circles@[k],
                        spec_split(spec_circle_lines(shapes)[k], '~'),
                    )
                &&& fp.arcs@.len() == spec_arc_lines(shapes).len()
                &&& forall|k: int|
                    0 <= k < fp.arcs@.len() ==> spec_arc_fields_ok(
                        #[trigger] fp.arcs@[k],
                        spec_split(spec_arc_lines(shapes)[k], '~'),
                    )
                &&& spec_fp_wf(fp)
            },
            Err(e) => payload.shapes is None && (e matches Error::MissingData(m) && m@
                == "Footprint shape data is missing"@),
        },
{
    broadcast use crate::grammar::lemma_pad_fields_bounded;
    broadcast use crate::grammar::lemma_track_fields_bounded;
    broadcast use crate::grammar::lemma_text_fields_bounded;
    broadcast use crate::grammar::lemma_circle_fields_bounded;

    let shapes: &Vec<String> = match &payload.shapes {
        Some(v) => v,
        None => {
            return Err(Error::MissingData(String::from_str("Footprint shape data is missing")));
        },
    };
    let info = EeFootprintInfo {
        name: match &payload.title {
            Some(s) => s.clone(),
            None => String::from_str("UnknownFootprint"),
        },
    };
    let bbox_x: i64 = match &payload.head_x {
        Some(s) => parse_fixed_or_zero(s.as_str(), crate::grammar::GRAMMAR_SCALE),
        None => 0,
    };
    let bbox_y: i64 = match &payload.head_y {
        Some(s) => parse_fixed_or_zero(s.as_str(), crate::grammar::GRAMMAR_SCALE),
        None => 0,
    };
    let ghost shv = seq_views(shapes@);
    let mut pads: Vec<crate::easyeda_models::EeFootprintPad> = Vec::new();
    let mut tracks: Vec<crate::easyeda_models::EeFootprintTrack> = Vec::new();
    let mut texts: Vec<crate::easyeda_models::EeFootprintText> = Vec::new();
    let mut circles: Vec<crate::easyeda_models::EeFootprintCircle> = Vec::new();
    let mut arcs: Vec<crate::easyeda_models::EeFootprintArc> = Vec::new();
    let mut i: usize = 0;
    proof {
        reveal(Seq::filter);
        crate::grammar::lemma_tags_distinct();
        assert(shv.take(0) =~= Seq::<Seq<char>>::empty());
    }
    while i < shapes.len()
        invariant
            i <= shapes@.len(),
            shv == seq_views(shapes@),
            "PAD"@ != "TRACK"@ && "PAD"@ != "TEXT"@ && "PAD"@ != "CIRCLE"@ && "PAD"@ != "ARC"@,
            "TRACK"@ != "TEXT"@ && "TRACK"@ != "CIRCLE"@ && "TRACK"@ != "ARC"@,
            "TEXT"@ != "CIRCLE"@ && "TEXT"@ != "ARC"@ && "CIRCLE"@ != "ARC"@,
            pads@.len() == spec_pad_lines(shv.take(i as int)).len(),
            forall|k: int|
                0 <= k < pads@.len() ==> spec_pad_fields_ok(
                    #[trigger] pads@[k],
                    spec_split(spec_pad_lines(shv.take(i as int))[k], '~'),
                ),
            tracks@.len() == spec_track_lines(shv.take(i as int)).len(),
            forall|k: int|
                0 <= k < tracks@.len() ==> spec_track_fields_ok(
                    #[trigger] tracks@[k],
                    spec_split(spec_track_lines(shv.take(i as int))[k], '~'),
                ),
            texts@.len() == spec_text_lines(shv.take(i as int)).len(),
            forall|k: int|
                0 <= k < texts@.len() ==> spec_text_fields_ok(
                    #[trigger] texts@[k],
                    spec_split(spec_text_lines(shv.take(i as int))[k], '~'),
                ),
            circles@.len() == spec_circle_lines(shv.take(i as int)).len(),
            forall|k: int|
                0 <= k < circles@.len() ==> spec_circle_fields_ok(
                    #[trigger] circles@[k],
                    spec_split(spec_circle_lines(shv.take(i as int))[k], '~'),
                ),
            arcs@.len() == spec_arc_lines(shv.take(i as int)).len(),
            forall|k: int|
                0 <= k < arcs@.len() ==> spec_arc_fields_ok(
                    #[trigger] arcs@[k],
                    spec_split(spec_arc_lines(shv.take(i as int))[k], '~'),
                ),
        decreases shapes@.len() - i,
    {
        let ghost pad_prev = spec_pad_lines(shv.take(i as int));
        let ghost track_prev = spec_track_lines(shv.take(i as int));
        let ghost text_prev = spec_text_lines(shv.take(i as int));
        let ghost circle_prev = spec_circle_lines(shv.take(i as int));
        let ghost arc_prev = spec_arc_lines(shv.take(i as int));
        proof {
            reveal(Seq::filter);
            assert(seq_views(shapes@)[i as int] == shapes@[i as int]@);
            assert(shv.take(i as int + 1).drop_last() =~= shv.take(i as int));
            assert(shv.take(i as int + 1).last() == shv[i as int]);
        }
        match parse_footprint_shape_line(shapes[i].as_str()) {
            FootprintShape::Pad(p) => {
                let ghost prev = pads@;
                pads.push(p);
                proof {
                    assert(spec_is_pad_line(shv[i as int]));
                    assert(spec_pad_lines(shv.take(i as int + 1)) == pad_prev.push(shv[i as int]));
                    assert(spec_track_lines(shv.take(i as int + 1)) == track_prev);
                    assert(spec_text_lines(shv.take(i as int + 1)) == text_prev);
                    assert(spec_circle_lines(shv.take(i as int + 1)) == circle_prev);
                    assert(spec_arc_lines(shv.take(i as int + 1)) == arc_prev);
                    assert(forall|k: int| 0 <= k < prev.len() ==> pads@[k] == #[trigger] prev[k]);
                }
            },
            FootprintShape::Track(t) => {
                let ghost prev = tracks@;
                tracks.push(t);
                proof {
                    assert(spec_is_track_line(shv[i as int]));
                    assert(!spec_is_pad_line(shv[i as int]));
                    assert(spec_track_lines(shv.take(i as int + 1)) == track_prev.push(
                        shv[i as int],
                    ));
                    assert(spec_pad_lines(shv.take(i as int + 1)) == pad_prev);
                    assert(spec_text_lines(shv.take(i as int + 1)) == text_prev);
                    assert(spec_circle_lines(shv.take(i as int + 1)) == circle_prev);
                    assert(spec_arc_lines(shv.take(i as int + 1)) == arc_prev);
                    assert(forall|k: int| 0 <= k < prev.len() ==> tracks@[k] == #[trigger] prev[k]);
                }
            },
            FootprintShape::Text(t) => {
                let ghost prev = texts@;
                texts.push(t);
                proof {
                    assert(spec_is_text_line(shv[i as int]));
                    assert(spec_text_lines(shv.take(i as int + 1)) == text_prev.push(
                        shv[i as int],
                    ));
                    assert(spec_pad_lines(shv.take(i as int + 1)) == pad_prev);
                    assert(spec_track_lines(shv.take(i as int + 1)) == track_prev);
                    assert(spec_circle_lines(shv.take(i as int + 1)) == circle_prev);
                    assert(spec_arc_lines(shv.take(i as int + 1)) == arc_prev);
                    assert(forall|k: int| 0 <= k < prev.len() ==> texts@[k] == #[trigger] prev[k]);
                }
            },
            FootprintShape::Circle(c) => {
                let ghost prev = circles@;
                circles.push(c);
                proof {
                    assert(spec_is_circle_line(shv[i as int]));
                    assert(spec_circle_lines(shv.take(i as int + 1)) == circle_prev.push(
                        shv[i as int],
                    ));
                    assert(spec_pad_lines(shv.take(i as int + 1)) == pad_prev);
                    assert(spec_track_lines(shv.take(i as int + 1)) == track_prev);
                    assert(spec_text_lines(shv.take(i as int + 1)) == text_prev);
                    assert(spec_arc_lines(shv.take(i as int + 1)) == arc_prev);
                    assert(forall|k: int|
                        0 <= k < prev.len() ==> circles@[k] == #[trigger] prev[k]);
                }
            },
            FootprintShape::Arc(a) => {
                let ghost prev = arcs@;
                arcs.push(a);
                proof {
                    assert(spec_is_arc_line(shv[i as int]));
                    assert(spec_arc_lines(shv.take(i as int + 1)) == arc_prev.push(shv[i as int]));
                    assert(spec_pad_lines(shv.take(i as int + 1)) == pad_prev);
                    assert(spec_track_lines(shv.take(i as int + 1)) == track_prev);
                    assert(spec_text_lines(shv.take(i as int + 1)) == text_prev);
                    assert(spec_circle_lines(shv.take(i as int + 1)) == circle_prev);
                    assert(forall|k: int| 0 <= k < prev.len() ==> arcs@[k] == #[trigger] prev[k]);
                }
            },
            FootprintShape::Ignored => {
                proof {
                    assert(!spec_is_pad_line(shv[i as int]));
                    assert(!spec_is_track_line(shv[i as int]));
                    assert(!spec_is_text_line(shv[i as int]));
                    assert(!spec_is_circle_line(shv[i as int]));
                    assert(!spec_is_arc_line(shv[i as int]));
                    assert(spec_pad_lines(shv.take(i as int + 1)) == pad_prev);
                    assert(spec_track_lines(shv.take(i as int + 1)) == track_prev);
                    assert(spec_text_lines(shv.take(i as int + 1)) == text_prev);
                    assert(spec_circle_lines(shv.take(i as int + 1)) == circle_prev);
                    assert(spec_arc_lines(shv.take(i as int + 1)) == arc_prev);
                }
            },
        }
        i += 1;
    }
    proof {
        assert(shv.take(shapes@.len() as int) =~= shv);
    }
    Ok(EeFootprint { info, bbox: (bbox_x, bbox_y), pads, tracks, texts, circles, arcs })
}

/// Unknown-tag law: a footprint shape line whose leading tag is none of
/// the recognized record tags is ignored whole. Decoding never errors on
/// it, and no entity collection grows by it: the line is in none of the
/// accepted-line filters the decoder's contract counts.
pub proof fn lemma_unknown_tag_adds_nothing(l: Seq<char>)
    requires
        spec_split(l, '~')[0] != "PAD"@,
        spec_split(l, '~')[0] != "TRACK"@,
        spec_split(l, '~')[0] != "TEXT"@,
        spec_split(l, '~')[0] != "CIRCLE"@,
        spec_split(l, '~')[0] != "ARC"@,
    ensures
        crate::grammar::spec_footprint_line_ignored(spec_split(l, '~')),
        !spec_is_pad_line(l),
        !spec_is_track_line(l),
        !spec_is_text_line(l),
        !spec_is_circle_line(l),
        !spec_is_arc_line(l),
{
}

/// Unknown-tag law for symbol lines: a line that neither takes the pin
/// path nor carries the rectangle tag adds neither a pin nor a rectangle.
pub proof fn lemma_unknown_symbol_tag_adds_nothing(l: Seq<char>)
    requires
        !spec_is_pin_branch(l),
        spec_split(l, '~')[0] != "R"@,
    ensures
        !spec_is_sym_pin_line(l),
        !spec_is_sym_rect_line(l),
{
}

/// What serde_json's parser extracts from a 3D-model node's JSON blob:
/// the `attrs.uuid` and `attrs.title` strings, or nothing when the blob is
/// not valid JSON of that shape. JSON parsing is deterministic, so the
/// result is a function of the text alone.
pub uninterp spec fn svg_attrs_of(json: Seq<char>) -> Option<(Seq<char>, Seq<char>)>;

/// Relies on serde_json::from_str and serde_json::Value::get / as_str:
/// parses the blob and picks out the `attrs.uuid` and `attrs.title`
/// strings; any other shape of blob yields nothing.
#[verifier::external_body]
fn parse_svg_node(json: &str) -> (r: Option<(String, String)>)
    ensures
        match r {
            Some(p) => svg_attrs_of(json@) == Some((p.0@, p.1@)),
            None => svg_attrs_of(json@) is None,
        },
{
    let v: serde_json::Value = match serde_json::from_str(json) {
        Ok(v) => v,
        Err(_) => {
            return None;
        },
    };
    let attrs = v.get("attrs")?;
    let uuid = attrs.get("uuid")?.as_str()?.to_owned();
    let title = attrs.get("title")?.as_str()?.to_owned();
    Some((uuid, title))
}

/// Whether a footprint shape line carries the embedded 3D-model node.
pub open spec fn spec_is_svgnode_line(l: Seq<char>) -> bool {
    spec_has_prefix(l, "SVGNODE~"@)
}

/// The footprint shape lines that carry a 3D-model node, in order.
pub open spec fn spec_svgnode_lines(shapes: Seq<Seq<char>>) -> Seq<Seq<char>> {
    shapes.filter(|l: Seq<char>| spec_is_svgnode_line(l))
}

/// Scans the footprint shapes for the one line tagged as an embedded
/// 3D-model node and decodes its JSON blob into a model reference. The
/// first match wins; absence yields no model, not an error; a blob that
/// does not parse is a parse error.
#[verifier::loop_isolation(false)]
pub fn import_3d_model_info(payload: &FootprintPayload) -> (r: Result<Option<Ee3dModel>, Error>)
    ensures
        match r {
            Ok(m) => payload.shapes matches Some(sv) && {
                let svgs = spec_svgnode_lines(seq_views(sv@));
                match m {
                    Some(model) => svgs.len() > 0 && (svg_attrs_of(svgs[0].skip(8)) matches Some(
                        at,
                    ) && model.uuid@ == at.0 && model.name@ == at.1 && model.raw_obj is None
                        && model.step is None),
                    None => svgs.len() == 0,
                }
            },
            Err(e) => match e {
                Error::MissingData(m) => payload.shapes is None && m@
                    == "Footprint shape data is missing or not an array"@,
                Error::ParseError(_) => payload.shapes matches Some(sv) && {
                    let svgs = spec_svgnode_lines(seq_views(sv@));
                    svgs.len() > 0 && svg_attrs_of(svgs[0].skip(8)) is None
                },
                _ => false,
            },
        },
{
    let shapes: &Vec<String> = match &payload.shapes {
        Some(v) => v,
        None => {
            return Err(
                Error::MissingData(
                    String::from_str("Footprint shape data is missing or not an array"),
                ),
            );
        },
    };
    let ghost shv = seq_views(shapes@);
    let mut i: usize = 0;
    proof {
        reveal(Seq::filter);
        reveal_strlit("SVGNODE~");
        assert("SVGNODE~"@.len() == 8);
        assert(shv.take(0) =~= Seq::<Seq<char>>::empty());
    }
    while i < shapes.len()
        invariant
            i <= shapes@.len(),
            shv == seq_views(shapes@),
            "SVGNODE~"@.len() == 8,
            spec_svgnode_lines(shv.take(i as int)).len() == 0,
        decreases shapes@.len() - i,
    {
        proof {
            reveal(Seq::filter);
            assert(seq_views(shapes@)[i as int] == shapes@[i as int]@);
            assert(shv.take(i as int + 1).drop_last() =~= shv.take(i as int));
            assert(shv.take(i as int + 1).last() == shv[i as int]);
        }
        let line = shapes[i].as_str();
        if has_prefix(line, "SVGNODE~") {
            proof {
                assert(spec_is_svgnode_line(shv[i as int]));
                assert(spec_svgnode_lines(shv.take(i as int + 1)) == spec_svgnode_lines(
                    shv.take(i as int),
                ).push(shv[i as int]));
                Seq::<Seq<char>>::filter_distributes_over_add(
                    shv.take(i as int + 1),
                    shv.skip(i as int + 1),
                    |l: Seq<char>| spec_is_svgnode_line(l),
                );
                assert(shv.take(i as int + 1) + shv.skip(i as int + 1) =~= shv);
                assert(spec_svgnode_lines(shv)[0] == shv[i as int]);
                assert(spec_svgnode_lines(shv).len() > 0);
            }
            let n = line.unicode_len();
            let json = line.substring_char(8, n);
            proof {
                assert(json@ =~= shv[i as int].skip(8));
            }
            match parse_svg_node(json) {
                Some(pair) => {
                    return Ok(
                        Some(Ee3dModel { name: pair.1, uuid: pair.0, raw_obj: None, step: None }),
                    );
                },
                None => {
                    return Err(
                        Error::ParseError(String::from_str("3D model node JSON did not parse")),
                    );
                },
            }
        }
        proof {
            assert(!spec_is_svgnode_line(shv[i as int]));
            assert(spec_svgnode_lines(shv.take(i as int + 1)) == spec_svgnode_lines(
                shv.take(i as int),
            ));
        }
        i += 1;
    }
    proof {
        assert(shv.take(shapes@.len() as int) =~= shv);
    }
    Ok(None)
}

} // verus!
