use easyeda2kicad_rs::easyeda_models::Ee3dModel;
use easyeda2kicad_rs::kicad_models::{
    FpPad, FpShape, FpText, KiFootprint, KiPinType, KiSymbol, KiSymbolPin, KiSymbolRect,
};
use easyeda2kicad_rs::mapper::{map_layer, map_pin_type, map_shape, is_graphic_layer};
use easyeda2kicad_rs::mesh::convert_3d_model;
use easyeda2kicad_rs::numbers::{fmt_fixed, fmt_fixed_pad, fmt_nonneg, parse_fixed, parse_int};

#[test]
fn layer_mapping_tables() {
    assert_eq!(map_layer(1, true), vec!["F.Cu", "F.Paste", "F.Mask"]);
    assert_eq!(map_layer(2, true), vec!["B.Cu", "B.Paste", "B.Mask"]);
    assert_eq!(map_layer(3, true), vec!["F.SilkS"]);
    assert_eq!(map_layer(4, true), vec!["B.SilkS"]);
    assert_eq!(map_layer(13, true), vec!["F.Fab"]);
    assert_eq!(map_layer(15, true), vec!["Dwgs.User"]);
    assert_eq!(map_layer(99, true), vec!["F.Fab"]);
    // Through-hole pads get the wildcard pair whatever the id says.
    assert_eq!(map_layer(1, false), vec!["*.Cu", "*.Mask"]);
    assert_eq!(map_layer(99, false), vec!["*.Cu", "*.Mask"]);
}

#[test]
fn shape_and_pin_type_mapping_tables() {
    assert!(matches!(map_shape("ELLIPSE"), FpShape::Circle));
    assert!(matches!(map_shape("RECT"), FpShape::Rect));
    assert!(matches!(map_shape("OVAL"), FpShape::Oval));
    assert!(matches!(map_shape("HEXAGON"), FpShape::Rect));
    assert!(matches!(map_pin_type("1"), KiPinType::Input));
    assert!(matches!(map_pin_type("2"), KiPinType::Output));
    assert!(matches!(map_pin_type("3"), KiPinType::Bidirectional));
    assert!(matches!(map_pin_type("4"), KiPinType::PowerIn));
    assert!(matches!(map_pin_type("9"), KiPinType::Passive));
    assert!(is_graphic_layer(3));
    assert!(!is_graphic_layer(1));
    assert!(!is_graphic_layer(2));
}

#[test]
fn fixed_point_parsing_is_tolerant() {
    assert_eq!(parse_fixed("1.2345678", 3), Some(1234));
    assert_eq!(parse_fixed("-5.0", 3), Some(-5000));
    assert_eq!(parse_fixed("5.", 3), Some(5000));
    assert_eq!(parse_fixed(".5", 3), Some(500));
    assert_eq!(parse_fixed("+2", 3), Some(2000));
    assert_eq!(parse_fixed("abc", 3), None);
    assert_eq!(parse_fixed("1e5", 3), None);
    assert_eq!(parse_fixed("", 3), None);
    assert_eq!(parse_fixed("1.2.3", 3), None);
    assert_eq!(parse_int("180"), Some(180));
    assert_eq!(parse_int("-90"), Some(-90));
    assert_eq!(parse_int("1.5"), None);
    assert_eq!(parse_int("12abc"), None);
}

#[test]
fn fixed_point_formatting_matches_plain_decimal() {
    assert_eq!(fmt_fixed(1_270_000, 6), "1.27");
    assert_eq!(fmt_fixed(-2_540_000, 6), "-2.54");
    assert_eq!(fmt_fixed(0, 6), "0");
    assert_eq!(fmt_fixed(5_000_000, 6), "5");
    assert_eq!(fmt_fixed(1, 6), "0.000001");
    assert_eq!(fmt_fixed(90_000, 3), "90");
    assert_eq!(fmt_fixed_pad(12_345, 4), "1.2345");
    assert_eq!(fmt_fixed_pad(0, 4), "0.0000");
    assert_eq!(fmt_fixed_pad(-5000, 4), "-0.5000");
    assert_eq!(fmt_nonneg(0), "0");
    assert_eq!(fmt_nonneg(1234567890), "1234567890");
}

fn minimal_symbol() -> KiSymbol {
    KiSymbol {
        name: "R1K".to_string(),
        reference: "R".to_string(),
        footprint: "R_0805".to_string(),
        datasheet: "".to_string(),
        lcsc_part: Some("C42".to_string()),
        is_extended: true,
        pins: vec![KiSymbolPin {
            name: "~CS".to_string(),
            number: "1".to_string(),
            pin_type: KiPinType::Input,
            length: 2_540_000,
            pos: (-1_270_000, 0),
            rotation: 180,
        }],
        rectangles: vec![KiSymbolRect {
            start: (-635_000, 254_000),
            end: (635_000, -254_000),
        }],
    }
}

#[test]
fn symbol_entry_text_is_exact() {
    let out = minimal_symbol().to_kicad_lib_entry();
    let expected = "(symbol \"R1K\" (in_bom yes) (on_board yes)\n  (property \"Reference\" \"R\" (id 0) (at 0 2.54 0) (effects (font (size 1.27 1.27))))\n  (property \"Value\" \"R1K\" (id 1) (at 0 -2.54 0) (effects (font (size 1.27 1.27))))\n  (property \"Footprint\" \"R_0805\" (id 2) (at 0 0 0) (effects (font (size 1.27 1.27)) hide))\n  (property \"Datasheet\" \"\" (id 3) (at 0 0 0) (effects (font (size 1.27 1.27)) hide))\n  (property \"LCSC Part\" \"C42\" (id 4) (at 0 0 0) (effects (font (size 1.27 1.27)) hide))\n  (property \"Extended\" \"true\" (id 5) (at 0 0 0) (effects (font (size 1.27 1.27)) hide))\n  (symbol \"R1K_1_1\"\n    (rectangle (start -0.635 0.254) (end 0.635 -0.254) (stroke (width 0.254) (type default) (color 0 0 0 0)) (fill (type background)))\n    (pin input line (at -1.27 0 180) (length 2.54)\n      (name \"~{CS}\" (effects (font (size 1.27 1.27))))\n      (number \"1\" (effects (font (size 1.27 1.27))))\n    )\n  )\n)\n";
    assert_eq!(out, expected);
}

#[test]
fn footprint_entry_text_is_exact() {
    let fp = KiFootprint {
        name: "PKG".to_string(),
        pads: vec![FpPad {
            number: "1".to_string(),
            pad_type: "smd".to_string(),
            shape: FpShape::Rect,
            pos: (-2540, 0),
            size: (304_800, 152_400),
            layers: vec!["F.Cu".to_string(), "F.Paste".to_string(), "F.Mask".to_string()],
            rotation: -90_000,
            drill: None,
            drill_oval: None,
        }],
        texts: vec![FpText {
            text_type: "reference".to_string(),
            text: "REF**".to_string(),
            pos: (0, 1_000_000),
            layer: "F.SilkS".to_string(),
        }],
        lines: vec![],
        circles: vec![],
        model_3d: None,
    };
    let out = fp.to_kicad_mod_entry();
    let expected = "(module PKG (layer F.Cu)\n  (fp_text reference REF** (at 0 1) (layer F.SilkS) (effects (font (size 1 1) (thickness 0.15))))\n  (pad 1 smd rect (at -0.00254 0 -90) (size 0.3048 0.1524) (layers F.Cu F.Paste F.Mask))\n)\n";
    assert_eq!(out, expected);
}

fn drilled_pad(drill: Option<i64>, drill_oval: Option<(i64, i64)>) -> KiFootprint {
    KiFootprint {
        name: "D".to_string(),
        pads: vec![FpPad {
            number: "1".to_string(),
            pad_type: "thru_hole".to_string(),
            shape: FpShape::Circle,
            pos: (0, 0),
            size: (1_000_000, 1_000_000),
            layers: vec!["*.Cu".to_string(), "*.Mask".to_string()],
            rotation: 0,
            drill,
            drill_oval,
        }],
        texts: vec![],
        lines: vec![],
        circles: vec![],
        model_3d: None,
    }
}

#[test]
fn drilled_pad_lines_take_their_forms() {
    let out = drilled_pad(Some(500_000), None).to_kicad_mod_entry();
    assert!(out.contains(
        "  (pad 1 thru_hole circle (at 0 0 0) (size 1 1) (layers *.Cu *.Mask) (drill 0.5))\n"
    ));
    let out2 = drilled_pad(None, Some((500_000, 800_000))).to_kicad_mod_entry();
    assert!(out2.contains(
        "  (pad 1 thru_hole circle (at 0 0 0) (size 1 1) (layers *.Cu *.Mask) (drill oval 0.5 0.8))\n"
    ));
}

#[test]
fn degenerate_mesh_yields_empty_but_valid_output() {
    let model = Ee3dModel {
        name: "M".to_string(),
        uuid: "u".to_string(),
        raw_obj: Some("# a comment line\nusemtl stuff\n".to_string()),
        step: None,
    };
    let ki = convert_3d_model(model).ok().unwrap();
    let wrl = ki.wrl_data.unwrap();
    let expected = "#VRML V2.0 utf8\nShape {\n  appearance Appearance {\n    material Material { diffuseColor 0.5 0.5 0.5 }\n  }\n  geometry IndexedFaceSet {\n    coord Coordinate {\n      point [\n      ]\n    }\n    coordIndex [\n    ]\n  }\n}\n";
    assert_eq!(wrl, expected);
}

#[test]
fn mesh_vertices_and_faces_are_reformatted() {
    let obj = "v 1 2 3\nv -1 0.5 0\nf 1//1 2//2 2\nf 9x 2 1\n";
    let model = Ee3dModel {
        name: "M".to_string(),
        uuid: "u".to_string(),
        raw_obj: Some(obj.to_string()),
        step: Some(vec![1, 2, 3]),
    };
    let ki = convert_3d_model(model).ok().unwrap();
    assert_eq!(ki.step_data, Some(vec![1, 2, 3]));
    let wrl = ki.wrl_data.unwrap();
    // 1 * 0.3937 = 0.3937; 2 -> 0.7874; 3 -> 1.1811; 0.5 -> 0.1968
    // (truncated).
    assert!(wrl.contains("        0.3937 0.7874 1.1811,\n"));
    assert!(wrl.contains("        -0.3937 0.1968 0.0000,\n"));
    // One-indexed references become zero-indexed.
    assert!(wrl.contains("      0, 1, 1, -1,\n"));
    // The malformed first reference of the second face becomes 0.
    assert!(wrl.contains("      0, 1, 0, -1,\n"));
}
