use easyeda2kicad_rs::error::Error;
use easyeda2kicad_rs::grammar::{parse_footprint_shape_line, parse_raw_line, FootprintShape};
use easyeda2kicad_rs::importer::{
    import_3d_model_info, import_footprint, import_symbol, FootprintPayload, SymbolPayload,
};

fn symbol_payload(shapes: Option<Vec<String>>) -> SymbolPayload {
    SymbolPayload {
        name: Some("Part".to_string()),
        prefix: Some("R".to_string()),
        package: Some("0805".to_string()),
        datasheet: None,
        lcsc_id: Some("C42".to_string()),
        part_class: Some("Extended Part".to_string()),
        head_x: Some("4000".to_string()),
        head_y: Some("3000".to_string()),
        shapes,
    }
}

fn footprint_payload(shapes: Option<Vec<String>>) -> FootprintPayload {
    FootprintPayload {
        title: Some("PKG-8".to_string()),
        head_x: Some("0".to_string()),
        head_y: Some("0".to_string()),
        shapes,
    }
}

#[test]
fn parse_raw_line_splits_on_tilde() {
    let fields = parse_raw_line("PAD~ELLIPSE~1~2");
    assert_eq!(fields, vec!["PAD", "ELLIPSE", "1", "2"]);
    let empty = parse_raw_line("");
    assert_eq!(empty, vec![""]);
}

#[test]
fn pad_record_decodes_with_hole_length_heuristic() {
    // Field 13 is the length in modern payloads.
    let line = "PAD~RECT~10~20~1.2~0.6~1~net~7~0.5~pts~90~some-uuid~2.5";
    match parse_footprint_shape_line(line) {
        FootprintShape::Pad(p) => {
            assert_eq!(p.shape, "RECT");
            assert_eq!(p.center_x, 10_000);
            assert_eq!(p.center_y, 20_000);
            assert_eq!(p.width, 1200);
            assert_eq!(p.height, 600);
            assert_eq!(p.layer_id, 1);
            assert_eq!(p.number, "7");
            assert_eq!(p.hole_radius, 500);
            assert_eq!(p.hole_length, 2500);
            assert_eq!(p.rotation, 90_000);
        }
        _ => panic!("expected a pad"),
    }
    // Field 13 absent or zero: an older payload may keep the length in
    // field 12; an identifier there parses as zero and is passed over.
    let old = "PAD~RECT~0~0~1~1~1~net~1~0.5~pts~0~3";
    match parse_footprint_shape_line(old) {
        FootprintShape::Pad(p) => assert_eq!(p.hole_length, 3000),
        _ => panic!("expected a pad"),
    }
    let uuid_only = "PAD~RECT~0~0~1~1~1~net~1~0.5~pts~0~abcdef";
    match parse_footprint_shape_line(uuid_only) {
        FootprintShape::Pad(p) => assert_eq!(p.hole_length, 0),
        _ => panic!("expected a pad"),
    }
}

#[test]
fn short_records_are_dropped_whole() {
    match parse_footprint_shape_line("PAD~RECT~1~2") {
        FootprintShape::Ignored => {}
        _ => panic!("a short pad record must be ignored"),
    }
    match parse_footprint_shape_line("TRACK~1~2") {
        FootprintShape::Ignored => {}
        _ => panic!("a short track record must be ignored"),
    }
}

#[test]
fn unknown_tag_is_ignored_and_adds_nothing() {
    match parse_footprint_shape_line("SOLIDREGION~1~2~3~4~5~6~7~8~9~10~11~12~13") {
        FootprintShape::Ignored => {}
        _ => panic!("an unrecognized tag must be ignored"),
    }
    let fp = import_footprint(&footprint_payload(Some(vec![
        "SOLIDREGION~1~2~3~4~5~6~7~8~9~10~11~12~13".to_string(),
        "WEIRD~x".to_string(),
    ])))
    .ok()
    .unwrap();
    assert_eq!(fp.pads.len(), 0);
    assert_eq!(fp.tracks.len(), 0);
    assert_eq!(fp.texts.len(), 0);
    assert_eq!(fp.circles.len(), 0);
    assert_eq!(fp.arcs.len(), 0);
}

#[test]
fn track_points_pair_up_and_drop_trailing_value() {
    let line = "TRACK~0.5~3~net~1 2 3 4 5";
    match parse_footprint_shape_line(line) {
        FootprintShape::Track(t) => {
            assert_eq!(t.stroke_width, 500);
            assert_eq!(t.layer_id, 3);
            assert_eq!(t.points, vec![(1000, 2000), (3000, 4000)]);
        }
        _ => panic!("expected a track"),
    }
}

#[test]
fn symbol_decode_partitions_pins_and_rectangles() {
    let pin_line = "P~show~1~7~-5~0~180~x^^ignored^^path~M 10 20 h 2.54^^a~b~c~d~PinName~e";
    let rect_line = "R~-2.5~-1~rx~ry~5~2~extra";
    let payload = symbol_payload(Some(vec![
        pin_line.to_string(),
        rect_line.to_string(),
        "ARC~whatever".to_string(),
    ]));
    let sym = import_symbol(&payload).ok().unwrap();
    assert_eq!(sym.info.name, "Part");
    assert_eq!(sym.info.prefix, "R");
    assert!(sym.info.is_extended);
    assert_eq!(sym.bbox, (4_000_000, 3_000_000));
    assert_eq!(sym.pins.len(), 1);
    let p = &sym.pins[0];
    assert_eq!(p.pin_type, "1");
    assert_eq!(p.number, "7");
    assert_eq!(p.pos_x, -5000);
    assert_eq!(p.pos_y, 0);
    assert_eq!(p.rotation, 180);
    assert_eq!(p.name, "PinName");
    assert_eq!(p.pin_length, 2540);
    assert_eq!(sym.rectangles.len(), 1);
    let rc = &sym.rectangles[0];
    assert_eq!(rc.x, -2500);
    assert_eq!(rc.y, -1000);
    assert_eq!(rc.width, 5000);
    assert_eq!(rc.height, 2000);
}

#[test]
fn missing_shape_collection_is_the_only_fatal_decode_error() {
    match import_symbol(&symbol_payload(None)) {
        Err(Error::MissingData(m)) => assert_eq!(m, "Symbol shape data is missing"),
        _ => panic!("expected a missing-data error"),
    }
    match import_footprint(&footprint_payload(None)) {
        Err(Error::MissingData(m)) => assert_eq!(m, "Footprint shape data is missing"),
        _ => panic!("expected a missing-data error"),
    }
    match import_3d_model_info(&footprint_payload(None)) {
        Err(Error::MissingData(m)) => {
            assert_eq!(m, "Footprint shape data is missing or not an array")
        }
        _ => panic!("expected a missing-data error"),
    }
}

#[test]
fn model_node_is_found_and_parsed() {
    let shapes = vec![
        "PAD~RECT~0~0~1~1~1~net~1~0~pts~0".to_string(),
        "SVGNODE~{\"attrs\":{\"uuid\":\"u-123\",\"title\":\"Model X\"}}".to_string(),
    ];
    let found = import_3d_model_info(&footprint_payload(Some(shapes)))
        .ok()
        .unwrap();
    let model = found.unwrap();
    assert_eq!(model.uuid, "u-123");
    assert_eq!(model.name, "Model X");
    assert!(model.raw_obj.is_none());
    assert!(model.step.is_none());
}

#[test]
fn absent_model_node_is_not_an_error() {
    let found = import_3d_model_info(&footprint_payload(Some(vec![
        "PAD~RECT~0~0~1~1~1~net~1~0~pts~0".to_string(),
    ])))
    .ok()
    .unwrap();
    assert!(found.is_none());
}

#[test]
fn malformed_model_node_is_a_parse_error() {
    let shapes = vec!["SVGNODE~this is not json".to_string()];
    match import_3d_model_info(&footprint_payload(Some(shapes))) {
        Err(Error::ParseError(_)) => {}
        _ => panic!("expected a parse error"),
    }
}
