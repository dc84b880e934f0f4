//! The shape-string grammar: one delimited text record per primitive.
//!
//! A record is a `~`-separated field list; pin records are further split
//! into `^^`-separated segments. The parser is tolerant: malformed numeric
//! fields default to zero, short records are dropped whole, and a line with
//! an unrecognized leading tag is ignored without error.

use vstd::prelude::*;
use crate::easyeda_models::{
    EeFootprintArc, EeFootprintCircle, EeFootprintPad, EeFootprintText, EeFootprintTrack,
    EeSymbolPin, EeSymbolRectangle,
};
use crate::numbers::{
    spec_fixed_or_zero, spec_fixed_or, spec_int_or_zero, parse_fixed_or_zero, parse_fixed_or,
    parse_int_or_zero,
};
use crate::text::{
    seq_views, spec_split, spec_split_caret2, spec_ws_tokens, split_char, split_caret2, ws_tokens,
    str_eq,
};
use crate::geometry::in_milli_range;

verus! {

/// Milli-units per source unit: grammar numbers are scaled by a thousand.
pub const GRAMMAR_SCALE: u32 = 3;

/// Default stroke width of circles and arcs whose width field is
/// malformed, a tenth of a source unit.
pub const DEFAULT_STROKE_MILLI: i64 = 100;

/// The views of a vector of coordinate pairs.
pub open spec fn pair_views(v: Seq<(i64, i64)>) -> Seq<(int, int)> {
    v.map_values(|p: (i64, i64)| (p.0 as int, p.1 as int))
}

/// Field accuracy of a decoded pad with respect to its record's fields.
pub open spec fn spec_pad_fields_ok(p: EeFootprintPad, fields: Seq<Seq<char>>) -> bool {
    &&& p.shape@ == fields[1]
    &&& p.center_x as int == spec_fixed_or_zero(fields[2], 3)
    &&& p.center_y as int == spec_fixed_or_zero(fields[3], 3)
    &&& p.width as int == spec_fixed_or_zero(fields[4], 3)
    &&& p.height as int == spec_fixed_or_zero(fields[5], 3)
    &&& p.layer_id as int == spec_int_or_zero(fields[6])
    &&& p.number@ == fields[8]
    &&& p.hole_radius as int == spec_fixed_or_zero(fields[9], 3)
    &&& p.hole_length as int == spec_hole_length(fields)
    &&& p.rotation as int == spec_fixed_or_zero(fields[11], 3)
}

/// The pad's slot length: field 13 when present, else field 12 when it
/// parses as a plausible positive length (older payloads put the length
/// there; an identifier string parses as zero and is passed over).
pub open spec fn spec_hole_length(fields: Seq<Seq<char>>) -> int {
    let primary = if fields.len() > 13 {
        spec_fixed_or_zero(fields[13], 3)
    } else {
        0
    };
    if primary != 0 {
        primary
    } else if fields.len() > 12 {
        let v = spec_fixed_or_zero(fields[12], 3);
        if v > 0 {
            v
        } else {
            0
        }
    } else {
        0
    }
}

/// Decodes a pad record: requires at least 12 fields, else the line is
/// dropped whole.
pub fn parse_pad(fields: &Vec<String>) -> (r: Option<EeFootprintPad>)
    ensures
        match r {
            Some(p) => fields@.len() > 11 && spec_pad_fields_ok(p, seq_views(fields@)),
            None => fields@.len() <= 11,
        },
{
    if fields.len() <= 11 {
        return None;
    }
    let mut hole_length: i64 = if fields.len() > 13 {
        parse_fixed_or_zero(fields[13].as_str(), GRAMMAR_SCALE)
    } else {
        0
    };
    if hole_length == 0 && fields.len() > 12 {
        let v = parse_fixed_or_zero(fields[12].as_str(), GRAMMAR_SCALE);
        if v > 0 {
            hole_length = v;
        }
    }
    let p = EeFootprintPad {
        shape: fields[1].clone(),
        center_x: parse_fixed_or_zero(fields[2].as_str(), GRAMMAR_SCALE),
        center_y: parse_fixed_or_zero(fields[3].as_str(), GRAMMAR_SCALE),
        width: parse_fixed_or_zero(fields[4].as_str(), GRAMMAR_SCALE),
        height: parse_fixed_or_zero(fields[5].as_str(), GRAMMAR_SCALE),
        layer_id: parse_int_or_zero(fields[6].as_str()),
        number: fields[8].clone(),
        hole_radius: parse_fixed_or_zero(fields[9].as_str(), GRAMMAR_SCALE),
        hole_length,
        rotation: parse_fixed_or_zero(fields[11].as_str(), GRAMMAR_SCALE),
    };
    Some(p)
}

/// The coordinate pairs of a track's point-list field: consecutive pairs
/// of space-separated values, an unpaired trailing value ignored.
pub open spec fn spec_track_points(pieces: Seq<Seq<char>>) -> Seq<(int, int)> {
    Seq::new((pieces.len() / 2) as nat, |i: int| (spec_fixed_or_zero(pieces[2 * i], 3), spec_fixed_or_zero(pieces[2 * i + 1], 3)))
}

/// Field accuracy of a decoded track.
pub open spec fn spec_track_fields_ok(t: EeFootprintTrack, fields: Seq<Seq<char>>) -> bool {
    &&& t.stroke_width as int == spec_fixed_or_zero(fields[1], 3)
    &&& t.layer_id as int == spec_int_or_zero(fields[2])
    &&& pair_views(t.points@) == spec_track_points(spec_split(fields[4], ' '))
}

/// Decodes a track record: requires at least 5 fields.
pub fn parse_track(fields: &Vec<String>) -> (r: Option<EeFootprintTrack>)
    ensures
        match r {
            Some(t) => fields@.len() > 4 && spec_track_fields_ok(t, seq_views(fields@)),
            None => fields@.len() <= 4,
        },
{
    if fields.len() <= 4 {
        return None;
    }
    let pieces = split_char(fields[4].as_str(), ' ');
    let ghost pv = seq_views(pieces@);
    let mut points: Vec<(i64, i64)> = Vec::new();
    let mut i: usize = 0;
    proof {
        assert(pair_views(points@) =~= spec_track_points(pv).take(0));
    }
    while i + 1 < pieces.len()
        invariant
            pv == seq_views(pieces@),
            i % 2 == 0,
            i <= pv.len() + 1,
            i / 2 <= spec_track_points(pv).len(),
            pair_views(points@) == spec_track_points(pv).take(i as int / 2),
        decreases pieces@.len() - i,
    {
        let x = parse_fixed_or_zero(pieces[i].as_str(), GRAMMAR_SCALE);
        let y = parse_fixed_or_zero(pieces[i + 1].as_str(), GRAMMAR_SCALE);
        let ghost prev = points@;
        points.push((x, y));
        proof {
            let k = i as int / 2;
            assert(spec_track_points(pv)[k] == (x as int, y as int));
            assert(pair_views(points@) =~= pair_views(prev).push((x as int, y as int)));
            assert(spec_track_points(pv).take(k + 1) =~= spec_track_points(pv).take(k).push(
                spec_track_points(pv)[k],
            ));
        }
        i += 2;
    }
    proof {
        assert(i as int / 2 == spec_track_points(pv).len());
        assert(spec_track_points(pv).take(spec_track_points(pv).len() as int) =~= spec_track_points(
            pv,
        ));
    }
    let t = EeFootprintTrack {
        stroke_width: parse_fixed_or_zero(fields[1].as_str(), GRAMMAR_SCALE),
        layer_id: parse_int_or_zero(fields[2].as_str()),
        points,
    };
    Some(t)
}

/// Field accuracy of a decoded text item.
pub open spec fn spec_text_fields_ok(t: EeFootprintText, fields: Seq<Seq<char>>) -> bool {
    &&& t.text_type@ == fields[1]
    &&& t.center_x as int == spec_fixed_or_zero(fields[2], 3)
    &&& t.center_y as int == spec_fixed_or_zero(fields[3], 3)
    &&& t.rotation as int == spec_fixed_or_zero(fields[5], 3)
    &&& t.layer_id as int == spec_int_or_zero(fields[7])
    &&& t.text@ == fields[10]
}

/// Decodes a text record: requires at least 11 fields.
pub fn parse_text(fields: &Vec<String>) -> (r: Option<EeFootprintText>)
    ensures
        match r {
            Some(t) => fields@.len() > 10 && spec_text_fields_ok(t, seq_views(fields@)),
            None => fields@.len() <= 10,
        },
{
    if fields.len() <= 10 {
        return None;
    }
    let t = EeFootprintText {
        text_type: fields[1].clone(),
        center_x: parse_fixed_or_zero(fields[2].as_str(), GRAMMAR_SCALE),
        center_y: parse_fixed_or_zero(fields[3].as_str(), GRAMMAR_SCALE),
        rotation: parse_fixed_or_zero(fields[5].as_str(), GRAMMAR_SCALE),
        layer_id: parse_int_or_zero(fields[7].as_str()),
        text: fields[10].clone(),
    };
    Some(t)
}

/// Field accuracy of a decoded circle.
pub open spec fn spec_circle_fields_ok(c: EeFootprintCircle, fields: Seq<Seq<char>>) -> bool {
    &&& c.layer_id as int == spec_int_or_zero(fields[1])
    &&& c.stroke_width as int == spec_fixed_or(fields[2], 3, DEFAULT_STROKE_MILLI as int)
    &&& c.center_x as int == spec_fixed_or_zero(fields[3], 3)
    &&& c.center_y as int == spec_fixed_or_zero(fields[4], 3)
    &&& c.radius as int == spec_fixed_or_zero(fields[5], 3)
}

/// Decodes a circle record: requires at least 6 fields.
pub fn parse_circle(fields: &Vec<String>) -> (r: Option<EeFootprintCircle>)
    ensures
        match r {
            Some(c) => fields@.len() > 5 && spec_circle_fields_ok(c, seq_views(fields@)),
            None => fields@.len() <= 5,
        },
{
    if fields.len() <= 5 {
        return None;
    }
    let c = EeFootprintCircle {
        layer_id: parse_int_or_zero(fields[1].as_str()),
        stroke_width: parse_fixed_or(fields[2].as_str(), GRAMMAR_SCALE, DEFAULT_STROKE_MILLI),
        center_x: parse_fixed_or_zero(fields[3].as_str(), GRAMMAR_SCALE),
        center_y: parse_fixed_or_zero(fields[4].as_str(), GRAMMAR_SCALE),
        radius: parse_fixed_or_zero(fields[5].as_str(), GRAMMAR_SCALE),
    };
    Some(c)
}

/// Field accuracy of a decoded arc.
pub open spec fn spec_arc_fields_ok(a: EeFootprintArc, fields: Seq<Seq<char>>) -> bool {
    &&& a.layer_id as int == spec_int_or_zero(fields[1])
    &&& a.stroke_width as int == spec_fixed_or(fields[2], 3, DEFAULT_STROKE_MILLI as int)
    &&& a.path@ == fields[3]
}

/// Decodes an arc record: requires at least 4 fields; the path is kept raw.
pub fn parse_arc(fields: &Vec<String>) -> (r: Option<EeFootprintArc>)
    ensures
        match r {
            Some(a) => fields@.len() > 3 && spec_arc_fields_ok(a, seq_views(fields@)),
            None => fields@.len() <= 3,
        },
{
    if fields.len() <= 3 {
        return None;
    }
    let a = EeFootprintArc {
        layer_id: parse_int_or_zero(fields[1].as_str()),
        stroke_width: parse_fixed_or(fields[2].as_str(), GRAMMAR_SCALE, DEFAULT_STROKE_MILLI),
        path: fields[3].clone(),
    };
    Some(a)
}

/// Field accuracy of a decoded symbol rectangle.
pub open spec fn spec_rect_fields_ok(rc: EeSymbolRectangle, fields: Seq<Seq<char>>) -> bool {
    &&& rc.x as int == spec_fixed_or_zero(fields[1], 3)
    &&& rc.y as int == spec_fixed_or_zero(fields[2], 3)
    &&& rc.width as int == spec_fixed_or_zero(fields[5], 3)
    &&& rc.height as int == spec_fixed_or_zero(fields[6], 3)
}

/// Decodes a symbol rectangle record: requires at least 7 fields.
pub fn parse_rect(fields: &Vec<String>) -> (r: Option<EeSymbolRectangle>)
    ensures
        match r {
            Some(rc) => fields@.len() > 6 && spec_rect_fields_ok(rc, seq_views(fields@)),
            None => fields@.len() <= 6,
        },
{
    if fields.len() <= 6 {
        return None;
    }
    let rc = EeSymbolRectangle {
        x: parse_fixed_or_zero(fields[1].as_str(), GRAMMAR_SCALE),
        y: parse_fixed_or_zero(fields[2].as_str(), GRAMMAR_SCALE),
        width: parse_fixed_or_zero(fields[5].as_str(), GRAMMAR_SCALE),
        height: parse_fixed_or_zero(fields[6].as_str(), GRAMMAR_SCALE),
    };
    Some(rc)
}

/// Every numeric field of a decoded pad is within the parser's range.
pub broadcast proof fn lemma_pad_fields_bounded(p: EeFootprintPad, fields: Seq<Seq<char>>)
    requires
        #[trigger] spec_pad_fields_ok(p, fields),
    ensures
        in_milli_range(p.center_x as int),
        in_milli_range(p.center_y as int),
        in_milli_range(p.width as int),
        in_milli_range(p.height as int),
        in_milli_range(p.hole_radius as int),
        in_milli_range(p.hole_length as int),
        in_milli_range(p.rotation as int),
{
    broadcast use crate::numbers::lemma_fixed_or_zero_bound;

}

/// Every numeric field of a decoded track is within the parser's range.
pub broadcast proof fn lemma_track_fields_bounded(t: EeFootprintTrack, fields: Seq<Seq<char>>)
    requires
        #[trigger] spec_track_fields_ok(t, fields),
    ensures
        in_milli_range(t.stroke_width as int),
        forall|j: int|
            0 <= j < t.points@.len() ==> in_milli_range(#[trigger] t.points@[j].0 as int)
                && in_milli_range(t.points@[j].1 as int),
{
    broadcast use crate::numbers::lemma_fixed_or_zero_bound;

    assert forall|j: int|
        0 <= j < t.points@.len() implies in_milli_range(#[trigger] t.points@[j].0 as int)
        && in_milli_range(t.points@[j].1 as int) by {
        let pieces = spec_split(fields[4], ' ');
        assert(pair_views(t.points@).len() == t.points@.len());
        assert(pair_views(t.points@) == spec_track_points(pieces));
        assert(0 <= j < spec_track_points(pieces).len());
        assert(pair_views(t.points@)[j] == (t.points@[j].0 as int, t.points@[j].1 as int));
        assert(spec_track_points(pieces)[j] == (
            spec_fixed_or_zero(pieces[2 * j], 3),
            spec_fixed_or_zero(pieces[2 * j + 1], 3),
        ));
        assert(t.points@[j].0 as int == spec_fixed_or_zero(pieces[2 * j], 3));
        assert(t.points@[j].1 as int == spec_fixed_or_zero(pieces[2 * j + 1], 3));
    }
}

/// Every numeric field of a decoded text item is within the parser's
/// range.
pub broadcast proof fn lemma_text_fields_bounded(t: EeFootprintText, fields: Seq<Seq<char>>)
    requires
        #[trigger] spec_text_fields_ok(t, fields),
    ensures
        in_milli_range(t.center_x as int),
        in_milli_range(t.center_y as int),
        in_milli_range(t.rotation as int),
{
    broadcast use crate::numbers::lemma_fixed_or_zero_bound;

}

/// Every numeric field of a decoded circle is within the parser's range.
pub broadcast proof fn lemma_circle_fields_bounded(c: EeFootprintCircle, fields: Seq<Seq<char>>)
    requires
        #[trigger] spec_circle_fields_ok(c, fields),
    ensures
        in_milli_range(c.center_x as int),
        in_milli_range(c.center_y as int),
        in_milli_range(c.radius as int),
        in_milli_range(c.stroke_width as int),
{
    broadcast use crate::numbers::lemma_fixed_or_zero_bound;

    crate::numbers::lemma_fixed_or_bound(fields[2], 3, DEFAULT_STROKE_MILLI as int);
}

/// Every numeric field of a decoded arc is within the parser's range.
pub broadcast proof fn lemma_arc_fields_bounded(a: EeFootprintArc, fields: Seq<Seq<char>>)
    requires
        #[trigger] spec_arc_fields_ok(a, fields),
    ensures
        in_milli_range(a.stroke_width as int),
{
    crate::numbers::lemma_fixed_or_bound(fields[2], 3, DEFAULT_STROKE_MILLI as int);
}

/// Every numeric field of a decoded pin is within the parser's range.
pub broadcast proof fn lemma_pin_fields_bounded(p: EeSymbolPin, segs: Seq<Seq<char>>)
    requires
        #[trigger] spec_pin_fields_ok(p, segs),
    ensures
        in_milli_range(p.pos_x as int),
        in_milli_range(p.pos_y as int),
        in_milli_range(p.pin_length as int),
        -crate::numbers::INT_ABS_LIMIT <= p.rotation <= crate::numbers::INT_ABS_LIMIT,
{
    broadcast use crate::numbers::lemma_fixed_or_zero_bound;
    broadcast use crate::numbers::lemma_int_or_zero_bound;

}

/// Every numeric field of a decoded rectangle is within the parser's
/// range.
pub broadcast proof fn lemma_rect_fields_bounded(rc: EeSymbolRectangle, fields: Seq<Seq<char>>)
    requires
        #[trigger] spec_rect_fields_ok(rc, fields),
    ensures
        in_milli_range(rc.x as int),
        in_milli_range(rc.y as int),
        in_milli_range(rc.width as int),
        in_milli_range(rc.height as int),
{
    broadcast use crate::numbers::lemma_fixed_or_zero_bound;

}

/// Splits one raw shape line into its `~`-separated fields.
pub fn parse_raw_line(line: &str) -> (r: Vec<String>)
    ensures
        seq_views(r@) == spec_split(line@, '~'),
        r@.len() >= 1,
{
    split_char(line, '~')
}

/// Whether a pin record's segments pass the minimum-field checks: at least
/// 4 segments, with at least 8, 2 and 6 fields in the settings, path and
/// name groups.
pub open spec fn spec_pin_accepted(segs: Seq<Seq<char>>) -> bool {
    &&& segs.len() >= 4
    &&& spec_split(segs[0], '~').len() > 7
    &&& spec_split(segs[2], '~').len() > 1
    &&& spec_split(segs[3], '~').len() > 5
}

/// The pin length read from the last whitespace token of the pin's path
/// field; zero when the field has no token or it is malformed.
pub open spec fn spec_pin_length(path1: Seq<char>) -> int {
    let t = spec_ws_tokens(path1);
    if t.len() > 0 {
        spec_fixed_or_zero(t.last(), 3)
    } else {
        0
    }
}

/// Field accuracy of a decoded pin with respect to its record's segments.
pub open spec fn spec_pin_fields_ok(p: EeSymbolPin, segs: Seq<Seq<char>>) -> bool {
    let settings = spec_split(segs[0], '~');
    let path = spec_split(segs[2], '~');
    let name_data = spec_split(segs[3], '~');
    &&& p.number@ == settings[3]
    &&& p.pin_type@ == settings[2]
    &&& p.pos_x as int == spec_fixed_or_zero(settings[4], 3)
    &&& p.pos_y as int == spec_fixed_or_zero(settings[5], 3)
    &&& p.rotation as int == spec_int_or_zero(settings[6])
    &&& p.name@ == name_data[4]
    &&& p.pin_length as int == spec_pin_length(path[1])
}

/// Decodes a pin record from its `^^`-separated segments; a record that
/// fails the minimum-field checks is dropped.
pub fn parse_pin(segs: &Vec<String>) -> (r: Option<EeSymbolPin>)
    ensures
        match r {
            Some(p) => spec_pin_accepted(seq_views(segs@)) && spec_pin_fields_ok(
                p,
                seq_views(segs@),
            ),
            None => !spec_pin_accepted(seq_views(segs@)),
        },
{
    if segs.len() < 4 {
        return None;
    }
    proof {
        assert(seq_views(segs@)[0] == segs@[0]@);
        assert(seq_views(segs@)[2] == segs@[2]@);
        assert(seq_views(segs@)[3] == segs@[3]@);
    }
    let settings = parse_raw_line(segs[0].as_str());
    let path = parse_raw_line(segs[2].as_str());
    let name_data = parse_raw_line(segs[3].as_str());
    if !(settings.len() > 7 && name_data.len() > 5 && path.len() > 1) {
        return None;
    }
    proof {
        assert(seq_views(settings@)[2] == settings@[2]@);
        assert(seq_views(settings@)[3] == settings@[3]@);
        assert(seq_views(settings@)[4] == settings@[4]@);
        assert(seq_views(settings@)[5] == settings@[5]@);
        assert(seq_views(settings@)[6] == settings@[6]@);
        assert(seq_views(path@)[1] == path@[1]@);
        assert(seq_views(name_data@)[4] == name_data@[4]@);
    }
    let toks = ws_tokens(path[1].as_str());
    let pin_length: i64 = if toks.len() > 0 {
        proof {
            assert(seq_views(toks@)[toks@.len() - 1] == toks@[toks@.len() - 1]@);
        }
        parse_fixed_or_zero(toks[toks.len() - 1].as_str(), GRAMMAR_SCALE)
    } else {
        0
    };
    let p = EeSymbolPin {
        number: settings[3].clone(),
        name: name_data[4].clone(),
        pos_x: parse_fixed_or_zero(settings[4].as_str(), GRAMMAR_SCALE),
        pos_y: parse_fixed_or_zero(settings[5].as_str(), GRAMMAR_SCALE),
        rotation: parse_int_or_zero(settings[6].as_str()),
        pin_type: settings[2].clone(),
        pin_length,
    };
    Some(p)
}

/// One decoded footprint shape line: a typed record, or ignored.
pub enum FootprintShape {
    Pad(EeFootprintPad),
    Track(EeFootprintTrack),
    Text(EeFootprintText),
    Circle(EeFootprintCircle),
    Arc(EeFootprintArc),
    Ignored,
}

/// Whether a footprint shape line is ignored: its tag is not recognized,
/// or its record is too short for its tag.
pub open spec fn spec_footprint_line_ignored(fields: Seq<Seq<char>>) -> bool {
    &&& !(fields[0] == "PAD"@ && fields.len() > 11)
    &&& !(fields[0] == "TRACK"@ && fields.len() > 4)
    &&& !(fields[0] == "TEXT"@ && fields.len() > 10)
    &&& !(fields[0] == "CIRCLE"@ && fields.len() > 5)
    &&& !(fields[0] == "ARC"@ && fields.len() > 3)
}

/// The five footprint record tags are pairwise distinct.
pub proof fn lemma_tags_distinct()
    ensures
        "PAD"@ != "TRACK"@,
        "PAD"@ != "TEXT"@,
        "PAD"@ != "CIRCLE"@,
        "PAD"@ != "ARC"@,
        "TRACK"@ != "TEXT"@,
        "TRACK"@ != "CIRCLE"@,
        "TRACK"@ != "ARC"@,
        "TEXT"@ != "CIRCLE"@,
        "TEXT"@ != "ARC"@,
        "CIRCLE"@ != "ARC"@,
{
    reveal_strlit("PAD");
    reveal_strlit("TRACK");
    reveal_strlit("TEXT");
    reveal_strlit("CIRCLE");
    reveal_strlit("ARC");
    assert("PAD"@.len() == 3);
    assert("TRACK"@.len() == 5);
    assert("TEXT"@.len() == 4);
    assert("CIRCLE"@.len() == 6);
    assert("ARC"@.len() == 3);
    assert("PAD"@[0] == 'P');
    assert("ARC"@[0] == 'A');
}

/// Decodes one footprint shape line by its leading tag. A line with an
/// unrecognized tag, or one too short for its tag, is ignored; decoding
/// never fails.
pub fn parse_footprint_shape_line(line: &str) -> (r: FootprintShape)
    ensures
        ({
            let fields = spec_split(line@, '~');
            match r {
                FootprintShape::Pad(p) => fields[0] == "PAD"@ && fields.len() > 11
                    && spec_pad_fields_ok(p, fields),
                FootprintShape::Track(t) => fields[0] == "TRACK"@ && fields.len() > 4
                    && spec_track_fields_ok(t, fields),
                FootprintShape::Text(t) => fields[0] == "TEXT"@ && fields.len() > 10
                    && spec_text_fields_ok(t, fields),
                FootprintShape::Circle(c) => fields[0] == "CIRCLE"@ && fields.len() > 5
                    && spec_circle_fields_ok(c, fields),
                FootprintShape::Arc(a) => fields[0] == "ARC"@ && fields.len() > 3
                    && spec_arc_fields_ok(a, fields),
                FootprintShape::Ignored => spec_footprint_line_ignored(fields),
            }
        }),
{
    proof {
        reveal_strlit("PAD");
        reveal_strlit("TRACK");
        reveal_strlit("TEXT");
        reveal_strlit("CIRCLE");
        reveal_strlit("ARC");
        assert("PAD"@.len() == 3);
        assert("TRACK"@.len() == 5);
        assert("TEXT"@.len() == 4);
        assert("CIRCLE"@.len() == 6);
        assert("ARC"@.len() == 3);
        assert("PAD"@[0] == 'P');
        assert("ARC"@[0] == 'A');
    }
    let fields = parse_raw_line(line);
    proof {
        assert(seq_views(fields@)[0] == fields@[0]@);
    }
    let ghost fv = spec_split(line@, '~');
    if str_eq(fields[0].as_str(), "PAD") {
        match parse_pad(&fields) {
            Some(p) => FootprintShape::Pad(p),
            None => {
                proof {
                    assert(spec_footprint_line_ignored(fv));
                }
                FootprintShape::Ignored
            },
        }
    } else if str_eq(fields[0].as_str(), "TRACK") {
        match parse_track(&fields) {
            Some(t) => FootprintShape::Track(t),
            None => {
                proof {
                    assert(spec_footprint_line_ignored(fv));
                }
                FootprintShape::Ignored
            },
        }
    } else if str_eq(fields[0].as_str(), "TEXT") {
        match parse_text(&fields) {
            Some(t) => FootprintShape::Text(t),
            None => {
                proof {
                    assert(spec_footprint_line_ignored(fv));
                }
                FootprintShape::Ignored
            },
        }
    } else if str_eq(fields[0].as_str(), "CIRCLE") {
        match parse_circle(&fields) {
            Some(c) => FootprintShape::Circle(c),
            None => {
                proof {
                    assert(spec_footprint_line_ignored(fv));
                }
                FootprintShape::Ignored
            },
        }
    } else if str_eq(fields[0].as_str(), "ARC") {
        match parse_arc(&fields) {
            Some(a) => FootprintShape::Arc(a),
            None => {
                proof {
                    assert(spec_footprint_line_ignored(fv));
                }
                FootprintShape::Ignored
            },
        }
    } else {
        proof {
            assert(spec_footprint_line_ignored(fv));
        }
        FootprintShape::Ignored
    }
}

/// One decoded symbol shape line: a typed record, or ignored.
pub enum SymbolShape {
    Pin(EeSymbolPin),
    Rect(EeSymbolRectangle),
    Ignored,
}

/// Whether a symbol line takes the pin path: it starts with the pin tag
/// and holds the `^^` segment separator.
pub open spec fn spec_is_pin_branch(line: Seq<char>) -> bool {
    line.len() > 0 && line[0] == 'P' && spec_split_caret2(line).len() >= 2
}

/// Decodes one symbol shape line: a pin record, a body rectangle, or
/// ignored; decoding never fails.
pub fn parse_symbol_shape_line(line: &str) -> (r: SymbolShape)
    ensures
        ({
            let fields = spec_split(line@, '~');
            let segs = spec_split_caret2(line@);
            match r {
                SymbolShape::Pin(p) => spec_is_pin_branch(line@) && spec_pin_accepted(segs)
                    && spec_pin_fields_ok(p, segs),
                SymbolShape::Rect(rc) => !spec_is_pin_branch(line@) && fields[0] == "R"@
                    && fields.len() > 6 && spec_rect_fields_ok(rc, fields),
                SymbolShape::Ignored => (spec_is_pin_branch(line@) && !spec_pin_accepted(segs)) || (
                !spec_is_pin_branch(line@) && !(fields[0] == "R"@ && fields.len() > 6)),
            }
        }),
{
    let n = line.unicode_len();
    if n > 0 && line.get_char(0) == 'P' {
        let segs = split_caret2(line);
        if segs.len() >= 2 {
            return match parse_pin(&segs) {
                Some(p) => SymbolShape::Pin(p),
                None => SymbolShape::Ignored,
            };
        }
    }
    let fields = parse_raw_line(line);
    proof {
        assert(seq_views(fields@)[0] == fields@[0]@);
    }
    if fields.len() > 6 && str_eq(fields[0].as_str(), "R") {
        match parse_rect(&fields) {
            Some(rc) => SymbolShape::Rect(rc),
            None => SymbolShape::Ignored,
        }
    } else {
        SymbolShape::Ignored
    }
}

} // verus!
