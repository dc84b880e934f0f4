//! The target serializer: renders normalized entities into the target
//! tool's nested-parenthesis description language. Every line's text is
//! given exactly by a specification function; the entry functions are
//! proved to emit the concatenation of those lines.

use vstd::prelude::*;
use crate::converter::{spec_ki_fp_wf, spec_ki_sym_wf};
use crate::kicad_models::{
    FpCircle, FpLine, FpPad, FpShape, FpText, Ki3dModel, KiFootprint, KiPinType, KiSymbol,
    KiSymbolPin, KiSymbolRect,
};
use crate::numbers::{fmt_fixed, spec_fmt_fixed};

verus! {

/// The textual form of a boolean property value.
pub open spec fn spec_bool_text(b: bool) -> Seq<char> {
    if b {
        "true"@
    } else {
        "false"@
    }
}

/// The textual form of a pin electrical type.
pub open spec fn spec_pin_type_text(t: KiPinType) -> Seq<char> {
    match t {
        KiPinType::Input => "input"@,
        KiPinType::Output => "output"@,
        KiPinType::Bidirectional => "bidirectional"@,
        KiPinType::PowerIn => "power_in"@,
        KiPinType::Passive => "passive"@,
        KiPinType::Unspecified => "unspecified"@,
    }
}

/// The textual form of a pad shape.
pub open spec fn spec_shape_text(s: FpShape) -> Seq<char> {
    match s {
        FpShape::Circle => "circle"@,
        FpShape::Rect => "rect"@,
        FpShape::Oval => "oval"@,
    }
}

/// A pin name, quoted; a name beginning with the overbar marker is
/// re-wrapped into the target's overbar syntax.
pub open spec fn spec_pin_name_quoted(name: Seq<char>) -> Seq<char> {
    if name.len() > 0 && name[0] == '~' {
        "\"~{"@ + name.skip(1) + "}\""@
    } else {
        "\""@ + name + "\""@
    }
}

/// A length or position in nanometers as millimeter text.
pub open spec fn spec_mm(v: int) -> Seq<char> {
    spec_fmt_fixed(v, 6)
}

/// A rotation in millidegrees as degree text.
pub open spec fn spec_deg(v: int) -> Seq<char> {
    spec_fmt_fixed(v, 3)
}

/// Quotes a pin name for the symbol grammar.
fn pin_name_quoted(name: &str) -> (r: String)
    ensures
        r@ == spec_pin_name_quoted(name@),
{
    let n = name.unicode_len();
    if n > 0 && name.get_char(0) == '~' {
        let mut s = String::from_str("\"~{");
        let rest = name.substring_char(1, n);
        s.append(rest);
        s.append("}\"");
        proof {
            assert(s@ =~= spec_pin_name_quoted(name@));
        }
        s
    } else {
        let mut s = String::from_str("\"");
        s.append(name);
        s.append("\"");
        proof {
            assert(s@ =~= spec_pin_name_quoted(name@));
        }
        s
    }
}

/// The head of a symbol entry: the identity line and the property lines,
/// the part-id property present only when the symbol carries one, then
/// the opening of the drawing block.
pub open spec fn spec_sym_head(s: KiSymbol) -> Seq<char> {
    "(symbol \""@ + s.name@ + "\" (in_bom yes) (on_board yes)\n"@
        + "  (property \"Reference\" \""@ + s.reference@
        + "\" (id 0) (at 0 2.54 0) (effects (font (size 1.27 1.27))))\n"@
        + "  (property \"Value\" \""@ + s.name@
        + "\" (id 1) (at 0 -2.54 0) (effects (font (size 1.27 1.27))))\n"@
        + "  (property \"Footprint\" \""@ + s.footprint@
        + "\" (id 2) (at 0 0 0) (effects (font (size 1.27 1.27)) hide))\n"@
        + "  (property \"Datasheet\" \""@ + s.datasheet@
        + "\" (id 3) (at 0 0 0) (effects (font (size 1.27 1.27)) hide))\n"@ + (match s.lcsc_part {
        Some(l) => "  (property \"LCSC Part\" \""@ + l@
            + "\" (id 4) (at 0 0 0) (effects (font (size 1.27 1.27)) hide))\n"@,
        None => Seq::empty(),
    }) + "  (property \"Extended\" \""@ + spec_bool_text(s.is_extended)
        + "\" (id 5) (at 0 0 0) (effects (font (size 1.27 1.27)) hide))\n"@ + "  (symbol \""@
        + s.name@ + "_1_1\"\n"@
}

/// One rectangle line of a symbol's drawing block.
pub open spec fn spec_rect_line(rc: KiSymbolRect) -> Seq<char> {
    "    (rectangle (start "@ + spec_mm(rc.start.0 as int) + " "@ + spec_mm(rc.start.1 as int)
        + ") (end "@ + spec_mm(rc.end.0 as int) + " "@ + spec_mm(rc.end.1 as int)
        + ") (stroke (width 0.254) (type default) (color 0 0 0 0)) (fill (type background)))\n"@
}

/// One pin block of a symbol's drawing block.
pub open spec fn spec_pin_block(p: KiSymbolPin) -> Seq<char> {
    "    (pin "@ + spec_pin_type_text(p.pin_type) + " line (at "@ + spec_mm(p.pos.0 as int) + " "@
        + spec_mm(p.pos.1 as int) + " "@ + spec_fmt_fixed(p.rotation as int, 0) + ") (length "@
        + spec_mm(p.length as int) + ")\n      (name "@ + spec_pin_name_quoted(p.name@)
        + " (effects (font (size 1.27 1.27))))\n      (number \""@ + p.number@
        + "\" (effects (font (size 1.27 1.27))))\n    )\n"@
}

/// The first `n` rectangle lines.
pub open spec fn spec_rects_block(rects: Seq<KiSymbolRect>, n: int) -> Seq<char>
    decreases n,
{
    if n <= 0 {
        Seq::empty()
    } else {
        spec_rects_block(rects, n - 1) + spec_rect_line(rects[n - 1])
    }
}

/// The first `n` pin blocks.
pub open spec fn spec_pins_block(pins: Seq<KiSymbolPin>, n: int) -> Seq<char>
    decreases n,
{
    if n <= 0 {
        Seq::empty()
    } else {
        spec_pins_block(pins, n - 1) + spec_pin_block(pins[n - 1])
    }
}

/// A complete symbol library entry: head, one line per rectangle, one
/// block per pin, and the closing brackets.
pub open spec fn spec_symbol_entry(s: KiSymbol) -> Seq<char> {
    spec_sym_head(s) + spec_rects_block(s.rectangles@, s.rectangles@.len() as int)
        + spec_pins_block(s.pins@, s.pins@.len() as int) + "  )\n)\n"@
}

/// Builds one rectangle line.
fn build_rect_line(rc: &KiSymbolRect) -> (r: String)
    requires
        rc.start.0 > i64::MIN,
        rc.start.1 > i64::MIN,
        rc.end.0 > i64::MIN,
        rc.end.1 > i64::MIN,
    ensures
        r@ == spec_rect_line(*rc),
{
    let mut s = String::from_str("    (rectangle (start ");
    let a = fmt_fixed(rc.start.0, 6);
    s.append(a.as_str());
    s.append(" ");
    let b = fmt_fixed(rc.start.1, 6);
    s.append(b.as_str());
    s.append(") (end ");
    let c = fmt_fixed(rc.end.0, 6);
    s.append(c.as_str());
    s.append(" ");
    let d = fmt_fixed(rc.end.1, 6);
    s.append(d.as_str());
    s.append(") (stroke (width 0.254) (type default) (color 0 0 0 0)) (fill (type background)))\n");
    proof {
        assert(s@ =~= spec_rect_line(*rc));
    }
    s
}

/// Builds one pin block.
fn build_pin_block(p: &KiSymbolPin) -> (r: String)
    requires
        p.pos.0 > i64::MIN,
        p.pos.1 > i64::MIN,
        p.length > i64::MIN,
        p.rotation > i64::MIN,
    ensures
        r@ == spec_pin_block(*p),
{
    let mut s = String::from_str("    (pin ");
    let t: &'static str = match p.pin_type {
        KiPinType::Input => "input",
        KiPinType::Output => "output",
        KiPinType::Bidirectional => "bidirectional",
        KiPinType::PowerIn => "power_in",
        KiPinType::Passive => "passive",
        KiPinType::Unspecified => "unspecified",
    };
    proof {
        assert(t@ == spec_pin_type_text(p.pin_type));
    }
    s.append(t);
    s.append(" line (at ");
    let a = fmt_fixed(p.pos.0, 6);
    s.append(a.as_str());
    s.append(" ");
    let b = fmt_fixed(p.pos.1, 6);
    s.append(b.as_str());
    s.append(" ");
    let c = fmt_fixed(p.rotation, 0);
    s.append(c.as_str());
    s.append(") (length ");
    let d = fmt_fixed(p.length, 6);
    s.append(d.as_str());
    s.append(")\n      (name ");
    let nm = pin_name_quoted(p.name.as_str());
    s.append(nm.as_str());
    s.append(" (effects (font (size 1.27 1.27))))\n      (number \"");
    s.append(p.number.as_str());
    s.append("\" (effects (font (size 1.27 1.27))))\n    )\n");
    proof {
        assert(s@ =~= spec_pin_block(*p));
    }
    s
}

impl KiSymbol {
    /// Renders this symbol as one library entry of the target's symbol
    /// grammar, proved equal to `spec_symbol_entry`.
    #[verifier::rlimit(100)]
    #[verifier::loop_isolation(false)]
    pub fn to_kicad_lib_entry(&self) -> (r: String)
        requires
            spec_ki_sym_wf(*self),
        ensures
            r@ == spec_symbol_entry(*self),
    {
        let mut out = String::from_str("(symbol \"");
        out.append(self.name.as_str());
        out.append("\" (in_bom yes) (on_board yes)\n");
        out.append("  (property \"Reference\" \"");
        out.append(self.reference.as_str());
        out.append("\" (id 0) (at 0 2.54 0) (effects (font (size 1.27 1.27))))\n");
        out.append("  (property \"Value\" \"");
        out.append(self.name.as_str());
        out.append("\" (id 1) (at 0 -2.54 0) (effects (font (size 1.27 1.27))))\n");
        out.append("  (property \"Footprint\" \"");
        out.append(self.footprint.as_str());
        out.append("\" (id 2) (at 0 0 0) (effects (font (size 1.27 1.27)) hide))\n");
        out.append("  (property \"Datasheet\" \"");
        out.append(self.datasheet.as_str());
        out.append("\" (id 3) (at 0 0 0) (effects (font (size 1.27 1.27)) hide))\n");
        match &self.lcsc_part {
            Some(l) => {
                out.append("  (property \"LCSC Part\" \"");
                out.append(l.as_str());
                out.append("\" (id 4) (at 0 0 0) (effects (font (size 1.27 1.27)) hide))\n");
            },
            None => {},
        }
        out.append("  (property \"Extended\" \"");
        if self.is_extended {
            out.append("true");
        } else {
            out.append("false");
        }
        out.append("\" (id 5) (at 0 0 0) (effects (font (size 1.27 1.27)) hide))\n");
        out.append("  (symbol \"");
        out.append(self.name.as_str());
        out.append("_1_1\"\n");
        proof {
            assert(out@ =~= spec_sym_head(*self));
        }
        let mut i: usize = 0;
        while i < self.rectangles.len()
            invariant
                i <= self.rectangles@.len(),
                spec_ki_sym_wf(*self),
                out@ == spec_sym_head(*self) + spec_rects_block(self.rectangles@, i as int),
            decreases self.rectangles@.len() - i,
        {
            let line = build_rect_line(&self.rectangles[i]);
            out.append(line.as_str());
            proof {
                assert(spec_rects_block(self.rectangles@, i as int + 1) == spec_rects_block(
                    self.rectangles@,
                    i as int,
                ) + spec_rect_line(self.rectangles@[i as int]));
                assert(out@ =~= spec_sym_head(*self) + spec_rects_block(
                    self.rectangles@,
                    i as int + 1,
                ));
            }
            i += 1;
        }
        let ghost rects_done = out@;
        let mut i: usize = 0;
        while i < self.pins.len()
            invariant
                i <= self.pins@.len(),
                spec_ki_sym_wf(*self),
                rects_done == spec_sym_head(*self) + spec_rects_block(
                    self.rectangles@,
                    self.rectangles@.len() as int,
                ),
                out@ == rects_done + spec_pins_block(self.pins@, i as int),
            decreases self.pins@.len() - i,
        {
            let block = build_pin_block(&self.pins[i]);
            out.append(block.as_str());
            proof {
                assert(spec_pins_block(self.pins@, i as int + 1) == spec_pins_block(
                    self.pins@,
                    i as int,
                ) + spec_pin_block(self.pins@[i as int]));
                assert(out@ =~= rects_done + spec_pins_block(self.pins@, i as int + 1));
            }
            i += 1;
        }
        out.append("  )\n)\n");
        proof {
            assert(out@ =~= spec_symbol_entry(*self));
        }
        out
    }
}

/// One text line of a footprint module.
pub open spec fn spec_fp_text_line(t: FpText) -> Seq<char> {
    "  (fp_text "@ + t.text_type@ + " "@ + t.text@ + " (at "@ + spec_mm(t.pos.0 as int) + " "@
        + spec_mm(t.pos.1 as int) + ") (layer "@ + t.layer@
        + ") (effects (font (size 1 1) (thickness 0.15))))\n"@
}

/// The 3D-model reference block of a footprint module.
pub open spec fn spec_model_block(m: Ki3dModel) -> Seq<char> {
    "  (model \"../3dmodels.3dshapes/"@ + m.name@ + ".wrl\"\n    (offset (xyz "@ + spec_deg(
        m.offset.0 as int,
    ) + " "@ + spec_deg(m.offset.1 as int) + " "@ + spec_deg(m.offset.2 as int)
        + "))\n    (scale (xyz "@ + spec_deg(m.scale.0 as int) + " "@ + spec_deg(m.scale.1 as int)
        + " "@ + spec_deg(m.scale.2 as int) + "))\n    (rotate (xyz "@ + spec_deg(
        m.rotate.0 as int,
    ) + " "@ + spec_deg(m.rotate.1 as int) + " "@ + spec_deg(m.rotate.2 as int) + "))\n  )\n"@
}

/// The first `n` layer names joined by single spaces.
pub open spec fn spec_layers_joined(ls: Seq<Seq<char>>, n: int) -> Seq<char>
    decreases n,
{
    if n <= 0 {
        Seq::empty()
    } else if n == 1 {
        ls[0]
    } else {
        spec_layers_joined(ls, n - 1) + " "@ + ls[n - 1]
    }
}

/// One pad line of a footprint module, in one of its three mutually
/// exclusive forms: slot drill, round drill, or none for an SMD pad.
pub open spec fn spec_pad_line(p: FpPad) -> Seq<char> {
    let core = "  (pad "@ + p.number@ + " "@ + p.pad_type@ + " "@ + spec_shape_text(p.shape)
        + " (at "@ + spec_mm(p.pos.0 as int) + " "@ + spec_mm(p.pos.1 as int) + " "@ + spec_deg(
        p.rotation as int,
    ) + ") (size "@ + spec_mm(p.size.0 as int) + " "@ + spec_mm(p.size.1 as int) + ") (layers "@
        + spec_layers_joined(
        crate::text::seq_views(p.layers@),
        p.layers@.len() as int,
    );
    match p.drill_oval {
        Some(d) => core + ") (drill oval "@ + spec_mm(d.0 as int) + " "@ + spec_mm(d.1 as int)
            + "))\n"@,
        None => match p.drill {
            Some(d) => core + ") (drill "@ + spec_mm(d as int) + "))\n"@,
            None => core + "))\n"@,
        },
    }
}

/// One graphic line of a footprint module.
pub open spec fn spec_line_line(l: FpLine) -> Seq<char> {
    "  (fp_line (start "@ + spec_mm(l.start.0 as int) + " "@ + spec_mm(l.start.1 as int)
        + ") (end "@ + spec_mm(l.end.0 as int) + " "@ + spec_mm(l.end.1 as int) + ") (layer "@
        + l.layer@ + ") (width "@ + spec_mm(l.width as int) + "))\n"@
}

/// One graphic circle of a footprint module: the target grammar takes a
/// center and one point on the circle.
pub open spec fn spec_circle_line(g: FpCircle) -> Seq<char> {
    "  (fp_circle (center "@ + spec_mm(g.center.0 as int) + " "@ + spec_mm(g.center.1 as int)
        + ") (end "@ + spec_mm(g.center.0 as int + g.radius as int) + " "@ + spec_mm(
        g.center.1 as int,
    ) + ") (layer "@ + g.layer@ + ") (width "@ + spec_mm(g.width as int) + "))\n"@
}

/// The first `n` text lines.
pub open spec fn spec_texts_block(ts: Seq<FpText>, n: int) -> Seq<char>
    decreases n,
{
    if n <= 0 {
        Seq::empty()
    } else {
        spec_texts_block(ts, n - 1) + spec_fp_text_line(ts[n - 1])
    }
}

/// The first `n` pad lines.
pub open spec fn spec_pads_block(ps: Seq<FpPad>, n: int) -> Seq<char>
    decreases n,
{
    if n <= 0 {
        Seq::empty()
    } else {
        spec_pads_block(ps, n - 1) + spec_pad_line(ps[n - 1])
    }
}

/// The first `n` graphic lines.
pub open spec fn spec_lines_block(ls: Seq<FpLine>, n: int) -> Seq<char>
    decreases n,
{
    if n <= 0 {
        Seq::empty()
    } else {
        spec_lines_block(ls, n - 1) + spec_line_line(ls[n - 1])
    }
}

/// The first `n` graphic circles.
pub open spec fn spec_circles_block(cs: Seq<FpCircle>, n: int) -> Seq<char>
    decreases n,
{
    if n <= 0 {
        Seq::empty()
    } else {
        spec_circles_block(cs, n - 1) + spec_circle_line(cs[n - 1])
    }
}

/// A complete footprint module: header, text lines, the model block when
/// one is present, pad lines, graphic lines, graphic circles, and the
/// closing bracket.
pub open spec fn spec_footprint_entry(f: KiFootprint) -> Seq<char> {
    "(module "@ + f.name@ + " (layer F.Cu)\n"@ + spec_texts_block(f.texts@, f.texts@.len() as int)
        + (match f.model_3d {
        Some(m) => spec_model_block(m),
        None => Seq::empty(),
    }) + spec_pads_block(f.pads@, f.pads@.len() as int) + spec_lines_block(
        f.lines@,
        f.lines@.len() as int,
    ) + spec_circles_block(f.circles@, f.circles@.len() as int) + ")\n"@
}

/// Builds one text line.
fn build_fp_text_line(t: &FpText) -> (r: String)
    requires
        t.pos.0 > i64::MIN,
        t.pos.1 > i64::MIN,
    ensures
        r@ == spec_fp_text_line(*t),
{
    let mut s = String::from_str("  (fp_text ");
    s.append(t.text_type.as_str());
    s.append(" ");
    s.append(t.text.as_str());
    s.append(" (at ");
    let a = fmt_fixed(t.pos.0, 6);
    s.append(a.as_str());
    s.append(" ");
    let b = fmt_fixed(t.pos.1, 6);
    s.append(b.as_str());
    s.append(") (layer ");
    s.append(t.layer.as_str());
    s.append(") (effects (font (size 1 1) (thickness 0.15))))\n");
    proof {
        assert(s@ =~= spec_fp_text_line(*t));
    }
    s
}

/// Builds the model block.
fn build_model_block(m: &Ki3dModel) -> (r: String)
    requires
        m.offset.0 > i64::MIN && m.offset.1 > i64::MIN && m.offset.2 > i64::MIN,
        m.scale.0 > i64::MIN && m.scale.1 > i64::MIN && m.scale.2 > i64::MIN,
        m.rotate.0 > i64::MIN && m.rotate.1 > i64::MIN && m.rotate.2 > i64::MIN,
    ensures
        r@ == spec_model_block(*m),
{
    let mut s = String::from_str("  (model \"../3dmodels.3dshapes/");
    s.append(m.name.as_str());
    s.append(".wrl\"\n    (offset (xyz ");
    let a = fmt_fixed(m.offset.0, 3);
    s.append(a.as_str());
    s.append(" ");
    let b = fmt_fixed(m.offset.1, 3);
    s.append(b.as_str());
    s.append(" ");
    let c = fmt_fixed(m.offset.2, 3);
    s.append(c.as_str());
    s.append("))\n    (scale (xyz ");
    let d = fmt_fixed(m.scale.0, 3);
    s.append(d.as_str());
    s.append(" ");
    let e = fmt_fixed(m.scale.1, 3);
    s.append(e.as_str());
    s.append(" ");
    let f = fmt_fixed(m.scale.2, 3);
    s.append(f.as_str());
    s.append("))\n    (rotate (xyz ");
    let g = fmt_fixed(m.rotate.0, 3);
    s.append(g.as_str());
    s.append(" ");
    let h = fmt_fixed(m.rotate.1, 3);
    s.append(h.as_str());
    s.append(" ");
    let k = fmt_fixed(m.rotate.2, 3);
    s.append(k.as_str());
    s.append("))\n  )\n");
    proof {
        assert(s@ =~= spec_model_block(*m));
    }
    s
}

/// Builds one pad line.
#[verifier::rlimit(100)]
#[verifier::loop_isolation(false)]
fn build_pad_line(p: &FpPad) -> (r: String)
    requires
        p.pos.0 > i64::MIN,
        p.pos.1 > i64::MIN,
        p.size.0 > i64::MIN,
        p.size.1 > i64::MIN,
        p.rotation > i64::MIN,
        match p.drill {
            Some(d) => d > i64::MIN,
            None => true,
        },
        match p.drill_oval {
            Some(d) => d.0 > i64::MIN && d.1 > i64::MIN,
            None => true,
        },
    ensures
        r@ == spec_pad_line(*p),
{
    let mut s = String::from_str("  (pad ");
    s.append(p.number.as_str());
    s.append(" ");
    s.append(p.pad_type.as_str());
    s.append(" ");
    let sh: &'static str = match p.shape {
        FpShape::Circle => "circle",
        FpShape::Rect => "rect",
        FpShape::Oval => "oval",
    };
    proof {
        assert(sh@ == spec_shape_text(p.shape));
    }
    s.append(sh);
    s.append(" (at ");
    let a = fmt_fixed(p.pos.0, 6);
    s.append(a.as_str());
    s.append(" ");
    let b = fmt_fixed(p.pos.1, 6);
    s.append(b.as_str());
    s.append(" ");
    let c = fmt_fixed(p.rotation, 3);
    s.append(c.as_str());
    s.append(") (size ");
    let d = fmt_fixed(p.size.0, 6);
    s.append(d.as_str());
    s.append(" ");
    let e = fmt_fixed(p.size.1, 6);
    s.append(e.as_str());
    s.append(") (layers ");
    let ghost lv = crate::text::seq_views(p.layers@);
    let ghost before_layers = s@;
    let mut j: usize = 0;
    while j < p.layers.len()
        invariant
            j <= p.layers@.len(),
            lv == crate::text::seq_views(p.layers@),
            s@ == before_layers + spec_layers_joined(lv, j as int),
        decreases p.layers@.len() - j,
    {
        if j > 0 {
            s.append(" ");
        }
        s.append(p.layers[j].as_str());
        proof {
            assert(lv[j as int] == p.layers@[j as int]@);
            if j == 0 {
                assert(spec_layers_joined(lv, 1) == lv[0]);
                assert(s@ =~= before_layers + spec_layers_joined(lv, 1));
            } else {
                assert(spec_layers_joined(lv, j as int + 1) == spec_layers_joined(lv, j as int)
                    + " "@ + lv[j as int]);
                assert(s@ =~= before_layers + spec_layers_joined(lv, j as int + 1));
            }
        }
        j += 1;
    }
    match &p.drill_oval {
        Some(d) => {
            s.append(") (drill oval ");
            let x = fmt_fixed(d.0, 6);
            s.append(x.as_str());
            s.append(" ");
            let y = fmt_fixed(d.1, 6);
            s.append(y.as_str());
            s.append("))\n");
        },
        None => {
            match &p.drill {
                Some(d) => {
                    s.append(") (drill ");
                    let x = fmt_fixed(*d, 6);
                    s.append(x.as_str());
                    s.append("))\n");
                },
                None => {
                    s.append("))\n");
                },
            }
        },
    }
    proof {
        assert(s@ =~= spec_pad_line(*p));
    }
    s
}

/// Builds one graphic line.
fn build_line_line(l: &FpLine) -> (r: String)
    requires
        l.start.0 > i64::MIN,
        l.start.1 > i64::MIN,
        l.end.0 > i64::MIN,
        l.end.1 > i64::MIN,
        l.width > i64::MIN,
    ensures
        r@ == spec_line_line(*l),
{
    let mut s = String::from_str("  (fp_line (start ");
    let a = fmt_fixed(l.start.0, 6);
    s.append(a.as_str());
    s.append(" ");
    let b = fmt_fixed(l.start.1, 6);
    s.append(b.as_str());
    s.append(") (end ");
    let c = fmt_fixed(l.end.0, 6);
    s.append(c.as_str());
    s.append(" ");
    let d = fmt_fixed(l.end.1, 6);
    s.append(d.as_str());
    s.append(") (layer ");
    s.append(l.layer.as_str());
    s.append(") (width ");
    let e = fmt_fixed(l.width, 6);
    s.append(e.as_str());
    s.append("))\n");
    proof {
        assert(s@ =~= spec_line_line(*l));
    }
    s
}

/// Builds one graphic circle.
fn build_circle_line(g: &FpCircle) -> (r: String)
    requires
        g.center.0 > i64::MIN,
        g.center.1 > i64::MIN,
        g.width > i64::MIN,
        i64::MIN < g.center.0 + g.radius < i64::MAX,
    ensures
        r@ == spec_circle_line(*g),
{
    let mut s = String::from_str("  (fp_circle (center ");
    let a = fmt_fixed(g.center.0, 6);
    s.append(a.as_str());
    s.append(" ");
    let b = fmt_fixed(g.center.1, 6);
    s.append(b.as_str());
    s.append(") (end ");
    let c = fmt_fixed(g.center.0 + g.radius, 6);
    s.append(c.as_str());
    s.append(" ");
    let d = fmt_fixed(g.center.1, 6);
    s.append(d.as_str());
    s.append(") (layer ");
    s.append(g.layer.as_str());
    s.append(") (width ");
    let e = fmt_fixed(g.width, 6);
    s.append(e.as_str());
    s.append("))\n");
    proof {
        assert(s@ =~= spec_circle_line(*g));
    }
    s
}

impl KiFootprint {
    /// Renders this footprint as one module of the target's footprint
    /// grammar, proved equal to `spec_footprint_entry`.
    #[verifier::rlimit(100)]
    #[verifier::loop_isolation(false)]
    pub fn to_kicad_mod_entry(&self) -> (r: String)
        requires
            spec_ki_fp_wf(*self),
        ensures
            r@ == spec_footprint_entry(*self),
    {
        let mut out = String::from_str("(module ");
        out.append(self.name.as_str());
        out.append(" (layer F.Cu)\n");
        let ghost head = out@;
        proof {
            assert(head =~= "(module "@ + self.name@ + " (layer F.Cu)\n"@);
        }
        let mut i: usize = 0;
        while i < self.texts.len()
            invariant
                i <= self.texts@.len(),
                spec_ki_fp_wf(*self),
                head == "(module "@ + self.name@ + " (layer F.Cu)\n"@,
                out@ == head + spec_texts_block(self.texts@, i as int),
            decreases self.texts@.len() - i,
        {
            let line = build_fp_text_line(&self.texts[i]);
            out.append(line.as_str());
            proof {
                assert(spec_texts_block(self.texts@, i as int + 1) == spec_texts_block(
                    self.texts@,
                    i as int,
                ) + spec_fp_text_line(self.texts@[i as int]));
                assert(out@ =~= head + spec_texts_block(self.texts@, i as int + 1));
            }
            i += 1;
        }
        match &self.model_3d {
            Some(m) => {
                let block = build_model_block(m);
                out.append(block.as_str());
            },
            None => {},
        }
        let ghost model_done = out@;
        proof {
            assert(model_done =~= head + spec_texts_block(self.texts@, self.texts@.len() as int)
                + (match self.model_3d {
                Some(m) => spec_model_block(m),
                None => Seq::<char>::empty(),
            }));
        }
        let mut i: usize = 0;
        while i < self.pads.len()
            invariant
                i <= self.pads@.len(),
                spec_ki_fp_wf(*self),
                model_done == head + spec_texts_block(self.texts@, self.texts@.len() as int) + (
                match self.model_3d {
                    Some(m) => spec_model_block(m),
                    None => Seq::<char>::empty(),
                }),
                out@ == model_done + spec_pads_block(self.pads@, i as int),
            decreases self.pads@.len() - i,
        {
            let line = build_pad_line(&self.pads[i]);
            out.append(line.as_str());
            proof {
                assert(spec_pads_block(self.pads@, i as int + 1) == spec_pads_block(
                    self.pads@,
                    i as int,
                ) + spec_pad_line(self.pads@[i as int]));
                assert(out@ =~= model_done + spec_pads_block(self.pads@, i as int + 1));
            }
            i += 1;
        }
        let ghost pads_done = out@;
        let mut i: usize = 0;
        while i < self.lines.len()
            invariant
                i <= self.lines@.len(),
                spec_ki_fp_wf(*self),
                pads_done == model_done + spec_pads_block(self.pads@, self.pads@.len() as int),
                model_done == head + spec_texts_block(self.texts@, self.texts@.len() as int) + (
                match self.model_3d {
                    Some(m) => spec_model_block(m),
                    None => Seq::<char>::empty(),
                }),
                out@ == pads_done + spec_lines_block(self.lines@, i as int),
            decreases self.lines@.len() - i,
        {
            let line = build_line_line(&self.lines[i]);
            out.append(line.as_str());
            proof {
                assert(spec_lines_block(self.lines@, i as int + 1) == spec_lines_block(
                    self.lines@,
                    i as int,
                ) + spec_line_line(self.lines@[i as int]));
                assert(out@ =~= pads_done + spec_lines_block(self.lines@, i as int + 1));
            }
            i += 1;
        }
        let ghost lines_done = out@;
        let mut i: usize = 0;
        while i < self.circles.len()
            invariant
                i <= self.circles@.len(),
                spec_ki_fp_wf(*self),
                lines_done == pads_done + spec_lines_block(self.lines@, self.lines@.len() as int),
                pads_done == model_done + spec_pads_block(self.pads@, self.pads@.len() as int),
                model_done == head + spec_texts_block(self.texts@, self.texts@.len() as int) + (
                match self.model_3d {
                    Some(m) => spec_model_block(m),
                    None => Seq::<char>::empty(),
                }),
                out@ == lines_done + spec_circles_block(self.circles@, i as int),
            decreases self.circles@.len() - i,
        {
            let line = build_circle_line(&self.circles[i]);
            out.append(line.as_str());
            proof {
                assert(spec_circles_block(self.circles@, i as int + 1) == spec_circles_block(
                    self.circles@,
                    i as int,
                ) + spec_circle_line(self.circles@[i as int]));
                assert(out@ =~= lines_done + spec_circles_block(self.circles@, i as int + 1));
            }
            i += 1;
        }
        out.append(")\n");
        proof {
            assert(out@ =~= spec_footprint_entry(*self));
        }
        out
    }
}

} // verus!
