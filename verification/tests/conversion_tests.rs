use easyeda2kicad_rs::converter::{convert_footprint, convert_symbol};
use easyeda2kicad_rs::easyeda_models::{
    EeFootprint, EeFootprintCircle, EeFootprintInfo, EeFootprintPad, EeFootprintText,
    EeFootprintTrack, EeSymbol, EeSymbolInfo, EeSymbolPin, EeSymbolRectangle,
};

fn simple_pad(number: &str, x: i64, y: i64, hole_radius: i64, hole_length: i64) -> EeFootprintPad {
    EeFootprintPad {
        shape: "RECT".to_string(),
        center_x: x,
        center_y: y,
        width: 1200,
        height: 600,
        layer_id: 1,
        number: number.to_string(),
        hole_radius,
        hole_length,
        rotation: 0,
    }
}

fn empty_footprint() -> EeFootprint {
    EeFootprint {
        info: EeFootprintInfo {
            name: "TEST_PAD".to_string(),
        },
        bbox: (0, 0),
        pads: vec![],
        tracks: vec![],
        texts: vec![],
        circles: vec![],
        arcs: vec![],
    }
}

#[test]
fn test_footprint_conversion() {
    // One rectangular SMD pad of size (1.2, 0.6) at the origin.
    let mut ee_footprint = empty_footprint();
    ee_footprint.pads = vec![simple_pad("1", 0, 0, 0, 0)];

    let result = convert_footprint(ee_footprint, None);
    assert!(
        result.is_ok(),
        "Failed to convert simple footprint: {:?}",
        result.is_err()
    );

    let kicad_fp = result.ok().unwrap();
    assert_eq!(
        kicad_fp.pads.len(),
        1,
        "Expected one pad in converted footprint"
    );
    assert_eq!(kicad_fp.pads[0].number, "1", "Expected pad number to be '1'");
}

#[test]
fn test_symbol_conversion() {
    // A simple resistor: two pins and one body rectangle.
    let ee_symbol = EeSymbol {
        info: EeSymbolInfo {
            name: "TEST_R".to_string(),
            prefix: "R".to_string(),
            package: Some("0805".to_string()),
            datasheet: None,
            lcsc_id: Some("C1234".to_string()),
            is_extended: false,
        },
        bbox: (0, 0),
        pins: vec![
            EeSymbolPin {
                number: "1".to_string(),
                name: "1".to_string(),
                pos_x: -5000,
                pos_y: 0,
                rotation: 0,
                pin_type: "passive".to_string(),
                pin_length: 2540,
            },
            EeSymbolPin {
                number: "2".to_string(),
                name: "2".to_string(),
                pos_x: 5000,
                pos_y: 0,
                rotation: 180,
                pin_type: "passive".to_string(),
                pin_length: 2540,
            },
        ],
        rectangles: vec![EeSymbolRectangle {
            x: -2500,
            y: -1000,
            width: 5000,
            height: 2000,
        }],
    };

    let result = convert_symbol(ee_symbol);
    assert!(result.is_ok(), "Failed to convert simple symbol");

    let kicad_sym = result.ok().unwrap();
    assert_eq!(
        kicad_sym.pins.len(),
        2,
        "Expected two pins in converted symbol"
    );
}

#[test]
fn symbol_unit_round_trip_recenters_and_turns_pins() {
    // Two pins at (-5, 0) and (5, 0) with rotations 0 and 180, and a
    // rectangle (-2.5, -1, 5, 2): the bounding box ends up centered on
    // the origin and the pin rotations come out as 180 and 0.
    let ee_symbol = EeSymbol {
        info: EeSymbolInfo {
            name: "RT".to_string(),
            prefix: "U".to_string(),
            package: None,
            datasheet: None,
            lcsc_id: None,
            is_extended: false,
        },
        bbox: (0, 0),
        pins: vec![
            EeSymbolPin {
                number: "1".to_string(),
                name: "1".to_string(),
                pos_x: -5000,
                pos_y: 0,
                rotation: 0,
                pin_type: "1".to_string(),
                pin_length: 2540,
            },
            EeSymbolPin {
                number: "2".to_string(),
                name: "2".to_string(),
                pos_x: 5000,
                pos_y: 0,
                rotation: 180,
                pin_type: "1".to_string(),
                pin_length: 2540,
            },
        ],
        rectangles: vec![EeSymbolRectangle {
            x: -2500,
            y: -1000,
            width: 5000,
            height: 2000,
        }],
    };
    let sym = convert_symbol(ee_symbol).ok().unwrap();
    assert_eq!(sym.pins.len(), 2);
    assert_eq!(sym.pins[0].rotation, 180);
    assert_eq!(sym.pins[1].rotation, 0);
    // Recentred pin positions: -5 and 5 source units are -1.27 and
    // 1.27 mm, and the computed center is already the origin.
    assert_eq!(sym.pins[0].pos, (-1_270_000, 0));
    assert_eq!(sym.pins[1].pos, (1_270_000, 0));
    // The rectangle's extremes are symmetric, so the overall bounding
    // box is centered at the origin.
    assert_eq!(sym.rectangles[0].start, (-635_000, 254_000));
    assert_eq!(sym.rectangles[0].end, (635_000, -254_000));
}

#[test]
fn smd_pad_gets_front_layer_set_and_no_drill() {
    let mut ee_footprint = empty_footprint();
    ee_footprint.pads = vec![simple_pad("1", 0, 0, 0, 0)];
    let fp = convert_footprint(ee_footprint, None).ok().unwrap();
    assert_eq!(fp.pads.len(), 1);
    let pad = &fp.pads[0];
    assert_eq!(pad.pad_type, "smd");
    assert_eq!(pad.layers, vec!["F.Cu", "F.Paste", "F.Mask"]);
    assert!(pad.drill.is_none());
    assert!(pad.drill_oval.is_none());
    assert_eq!(pad.size, (304_800, 152_400));
}

#[test]
fn drill_classification_by_hole_geometry() {
    let mut ee_footprint = empty_footprint();
    ee_footprint.pads = vec![
        simple_pad("1", 0, 0, 500, 0),
        simple_pad("2", 10_000, 0, 500, 2000),
        simple_pad("3", 20_000, 0, 0, 0),
    ];
    let fp = convert_footprint(ee_footprint, None).ok().unwrap();
    // Hole radius 0.5 units, length zero: circular drill of diameter
    // one unit, which is 0.254 mm.
    assert_eq!(fp.pads[0].pad_type, "thru_hole");
    assert_eq!(fp.pads[0].drill, Some(254_000));
    assert!(fp.pads[0].drill_oval.is_none());
    // Hole length 2 units: a slot of (0.254, 0.508) mm.
    assert_eq!(fp.pads[1].pad_type, "thru_hole");
    assert!(fp.pads[1].drill.is_none());
    assert_eq!(fp.pads[1].drill_oval, Some((254_000, 508_000)));
    // Neither: surface-mounted, no drill of either kind.
    assert_eq!(fp.pads[2].pad_type, "smd");
    assert!(fp.pads[2].drill.is_none());
    assert!(fp.pads[2].drill_oval.is_none());
}

#[test]
fn far_track_segments_are_dropped() {
    let mut ee_footprint = empty_footprint();
    // No pads or texts: the computed center is the origin. A silkscreen
    // track with one near pair and one segment reaching 254 mm out.
    ee_footprint.tracks = vec![
        EeFootprintTrack {
            stroke_width: 100,
            layer_id: 3,
            points: vec![(0, 0), (10, 10), (1_000_000, 0)],
        },
        EeFootprintTrack {
            stroke_width: 100,
            layer_id: 1,
            points: vec![(0, 0), (10, 10)],
        },
    ];
    let fp = convert_footprint(ee_footprint, None).ok().unwrap();
    // The copper track contributes nothing; the silkscreen track keeps
    // only the in-range consecutive pair.
    assert_eq!(fp.lines.len(), 1);
    assert_eq!(fp.lines[0].start, (0, 0));
    assert_eq!(fp.lines[0].end, (2540, 2540));
    assert_eq!(fp.lines[0].layer, "F.SilkS");
}

#[test]
fn oversized_or_foreign_layer_circles_never_appear() {
    let mut ee_footprint = empty_footprint();
    let good = EeFootprintCircle {
        layer_id: 3,
        stroke_width: 100,
        center_x: 0,
        center_y: 0,
        radius: 1000,
    };
    let too_big = EeFootprintCircle {
        layer_id: 3,
        stroke_width: 100,
        center_x: 0,
        center_y: 0,
        radius: 250_000,
    };
    let wrong_layer = EeFootprintCircle {
        layer_id: 5,
        stroke_width: 100,
        center_x: 0,
        center_y: 0,
        radius: 1000,
    };
    ee_footprint.circles = vec![good, too_big, wrong_layer];
    let fp = convert_footprint(ee_footprint, None).ok().unwrap();
    assert_eq!(fp.circles.len(), 1);
    assert_eq!(fp.circles[0].radius, 254_000);
    assert_eq!(fp.circles[0].layer, "F.SilkS");
}

#[test]
fn pin_one_marker_is_synthesized_outward() {
    let mut ee_footprint = empty_footprint();
    ee_footprint.pads = vec![simple_pad("1", -10, 0, 0, 0), simple_pad("2", 10, 0, 0, 0)];
    let fp = convert_footprint(ee_footprint, None).ok().unwrap();
    // The two pads sit at -2.54 and 2.54 um from the center; the marker
    // goes beside the pad numbered "1", pushed outward (negative x) by
    // half the pad width plus the 0.5 mm clearance, and toward negative
    // y since the pad is centered on that axis.
    assert_eq!(fp.circles.len(), 1);
    let marker = &fp.circles[0];
    assert_eq!(marker.radius, 250_000);
    assert_eq!(marker.layer, "F.SilkS");
    let pad = &fp.pads[0];
    assert_eq!(pad.pos, (-2540, 0));
    assert_eq!(
        marker.center,
        (pad.pos.0 - (152_400 + 500_000), pad.pos.1 - (76_200 + 500_000))
    );
}

#[test]
fn already_centered_footprint_keeps_positions() {
    // Pads placed symmetrically: the centroid is already the origin, so
    // recentering changes nothing and positions equal the raw
    // unit-converted coordinates.
    let mut ee_footprint = empty_footprint();
    ee_footprint.pads = vec![simple_pad("1", -10, 0, 0, 0), simple_pad("2", 10, 0, 0, 0)];
    let fp = convert_footprint(ee_footprint, None).ok().unwrap();
    assert_eq!(fp.pads[0].pos, (-2540, 0));
    assert_eq!(fp.pads[1].pos, (2540, 0));
}

#[test]
fn blank_pad_number_falls_back_to_position() {
    let mut ee_footprint = empty_footprint();
    ee_footprint.pads = vec![simple_pad("  ", 0, 0, 0, 0), simple_pad("", 10, 0, 0, 0)];
    let fp = convert_footprint(ee_footprint, None).ok().unwrap();
    assert_eq!(fp.pads[0].number, "1");
    assert_eq!(fp.pads[1].number, "2");
}

#[test]
fn text_roles_are_normalized() {
    let mut ee_footprint = empty_footprint();
    ee_footprint.info.name = "PKG".to_string();
    ee_footprint.texts = vec![
        EeFootprintText {
            text_type: "P".to_string(),
            center_x: 0,
            center_y: 0,
            rotation: 0,
            layer_id: 3,
            text: "ignored".to_string(),
        },
        EeFootprintText {
            text_type: "N".to_string(),
            center_x: 0,
            center_y: 0,
            rotation: 0,
            layer_id: 3,
            text: "ignored".to_string(),
        },
        EeFootprintText {
            text_type: "X".to_string(),
            center_x: 0,
            center_y: 0,
            rotation: 0,
            layer_id: 15,
            text: "note".to_string(),
        },
    ];
    let fp = convert_footprint(ee_footprint, None).ok().unwrap();
    assert_eq!(fp.texts[0].text_type, "value");
    assert_eq!(fp.texts[0].text, "PKG");
    assert_eq!(fp.texts[0].layer, "F.Fab");
    assert_eq!(fp.texts[1].text_type, "reference");
    assert_eq!(fp.texts[1].text, "REF**");
    assert_eq!(fp.texts[1].layer, "F.SilkS");
    assert_eq!(fp.texts[2].text_type, "user");
    assert_eq!(fp.texts[2].text, "note");
    assert_eq!(fp.texts[2].layer, "Dwgs.User");
}
