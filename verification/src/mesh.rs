//! The ad-hoc 3D mesh reformat: a line-oriented vertex/face text format is
//! turned into a minimal scene description with one shaped geometry node.
//! Vertex lines yield three scaled coordinates, face lines a list of
//! one-indexed vertex references; everything else is ignored. The uniform
//! scale is an empirical correction, a calibration constant rather than a
//! law of the format.

use vstd::prelude::*;
use crate::easyeda_models::Ee3dModel;
use crate::error::Error;
use crate::geometry::spec_div_trunc;
use crate::kicad_models::Ki3dModel;
use crate::numbers::{
    fmt_fixed_pad, fmt_nonneg, parse_fixed_or_zero, parse_int, spec_fixed_or_zero, spec_fmt_fixed_pad,
    spec_parse_int, spec_udigits,
};
use crate::text::{
    seq_views, spec_split, spec_text_lines, spec_ws_tokens, split_char, split_lines, str_eq,
    ws_tokens,
};

verus! {

/// Numerator of the empirical mesh scale over ten thousand: the source
/// mesh unit is multiplied by 0.3937 (0.254 times an empirical 1.55).
pub const MESH_SCALE_NUM: i64 = 3937;

/// Fractional digits parsed from a vertex coordinate.
pub const MESH_PARSE_SCALE: u32 = 7;

/// One scaled vertex coordinate in ten-thousandths: the parsed value
/// times the empirical scale, truncated toward zero.
pub open spec fn spec_vertex_coord(tok: Seq<char>) -> int {
    spec_div_trunc(spec_fixed_or_zero(tok, 7) * MESH_SCALE_NUM as int, 10_000_000)
}

/// Parses and scales one vertex coordinate.
fn vertex_coord(tok: &str) -> (r: i64)
    ensures
        r as int == spec_vertex_coord(tok@),
        -400_000_000_000 <= r <= 400_000_000_000,
{
    let v = parse_fixed_or_zero(tok, MESH_PARSE_SCALE);
    proof {
        assert(-(1_000_000_000_000_000int * 3937) <= (v as int) * 3937 <= 1_000_000_000_000_000int
            * 3937) by (nonlinear_arith)
            requires
                -1_000_000_000_000_000 <= v <= 1_000_000_000_000_000,
        ;
    }
    let prod = v * MESH_SCALE_NUM;
    let r = if prod >= 0 {
        prod / 10_000_000
    } else {
        -((-prod) / 10_000_000)
    };
    proof {
        assert(0 <= 3_937_000_000_000_000_000int / 10_000_000 <= 400_000_000_000);
        if prod >= 0 {
            assert(prod / 10_000_000 <= 3_937_000_000_000_000_000int / 10_000_000) by (nonlinear_arith)
                requires
                    0 <= prod <= 3_937_000_000_000_000_000,
            ;
        } else {
            assert((-prod) / 10_000_000 <= 3_937_000_000_000_000_000int / 10_000_000)
                by (nonlinear_arith)
                requires
                    0 <= -prod <= 3_937_000_000_000_000_000,
            ;
        }
    }
    r
}

/// One face vertex reference: the one-indexed number before any slash,
/// converted to zero-indexed; a malformed or out-of-range reference
/// becomes index zero.
pub open spec fn spec_face_index(tok: Seq<char>) -> int {
    let first = spec_split(tok, '/')[0];
    match spec_parse_int(first) {
        Some(v) => if v >= 1 {
            v - 1
        } else {
            0
        },
        None => 0,
    }
}

/// Parses one face vertex reference.
fn face_index(tok: &str) -> (r: i64)
    ensures
        r as int == spec_face_index(tok@),
        0 <= r,
{
    let pieces = split_char(tok, '/');
    proof {
        assert(seq_views(pieces@)[0] == pieces@[0]@);
    }
    match parse_int(pieces[0].as_str()) {
        Some(v) => {
            if v >= 1 {
                v - 1
            } else {
                0
            }
        },
        None => 0,
    }
}

/// Whether a line is a vertex statement with enough coordinates.
pub open spec fn spec_is_vertex_line(l: Seq<char>) -> bool {
    let t = spec_ws_tokens(l);
    t.len() >= 4 && t[0] == "v"@
}

/// Whether a line is a face statement with enough references.
pub open spec fn spec_is_face_line(l: Seq<char>) -> bool {
    let t = spec_ws_tokens(l);
    t.len() >= 4 && t[0] == "f"@
}

/// The scaled vertex triple of a vertex line.
pub open spec fn spec_vertex_of(l: Seq<char>) -> (int, int, int) {
    let t = spec_ws_tokens(l);
    (spec_vertex_coord(t[1]), spec_vertex_coord(t[2]), spec_vertex_coord(t[3]))
}

/// The zero-indexed reference list of a face line.
pub open spec fn spec_face_of(l: Seq<char>) -> Seq<int> {
    let t = spec_ws_tokens(l);
    Seq::new((t.len() - 1) as nat, |j: int| spec_face_index(t[j + 1]))
}

/// The vertices of the first `n` lines, in order.
pub open spec fn spec_mesh_vertices(lines: Seq<Seq<char>>, n: int) -> Seq<(int, int, int)>
    decreases n,
{
    if n <= 0 {
        Seq::empty()
    } else {
        spec_mesh_vertices(lines, n - 1) + if spec_is_vertex_line(lines[n - 1]) {
            seq![spec_vertex_of(lines[n - 1])]
        } else {
            Seq::empty()
        }
    }
}

/// The faces of the first `n` lines, in order.
pub open spec fn spec_mesh_faces(lines: Seq<Seq<char>>, n: int) -> Seq<Seq<int>>
    decreases n,
{
    if n <= 0 {
        Seq::empty()
    } else {
        spec_mesh_faces(lines, n - 1) + if spec_is_face_line(lines[n - 1]) {
            seq![spec_face_of(lines[n - 1])]
        } else {
            Seq::empty()
        }
    }
}

/// The views of a vector of vertex triples.
pub open spec fn triple_views(v: Seq<(i64, i64, i64)>) -> Seq<(int, int, int)> {
    v.map_values(|p: (i64, i64, i64)| (p.0 as int, p.1 as int, p.2 as int))
}

/// The views of a vector of faces.
pub open spec fn face_views(v: Seq<Vec<i64>>) -> Seq<Seq<int>> {
    v.map_values(|f: Vec<i64>| f@.map_values(|x: i64| x as int))
}

/// The fixed head of the scene description, down to the open vertex list.
pub open spec fn spec_wrl_header() -> Seq<char> {
    "#VRML V2.0 utf8\n"@ + "Shape {\n"@ + "  appearance Appearance {\n"@
        + "    material Material { diffuseColor 0.5 0.5 0.5 }\n"@ + "  }\n"@
        + "  geometry IndexedFaceSet {\n"@ + "    coord Coordinate {\n"@ + "      point [\n"@
}

/// The fixed middle: the vertex list closed, the index list opened.
pub open spec fn spec_wrl_mid() -> Seq<char> {
    "      ]\n"@ + "    }\n"@ + "    coordIndex [\n"@
}

/// The fixed tail that closes every bracket.
pub open spec fn spec_wrl_footer() -> Seq<char> {
    "    ]\n"@ + "  }\n"@ + "}\n"@
}

/// One vertex line of the output: three coordinates at four decimal
/// places.
pub open spec fn spec_vertex_line_text(v: (int, int, int)) -> Seq<char> {
    "        "@ + spec_fmt_fixed_pad(v.0, 4) + " "@ + spec_fmt_fixed_pad(v.1, 4) + " "@
        + spec_fmt_fixed_pad(v.2, 4) + ",\n"@
}

/// A face's references joined by comma-space, first `n` of them.
pub open spec fn spec_face_joined(f: Seq<int>, n: int) -> Seq<char>
    decreases n,
{
    if n <= 0 {
        Seq::empty()
    } else if n == 1 {
        spec_udigits(f[0])
    } else {
        spec_face_joined(f, n - 1) + ", "@ + spec_udigits(f[n - 1])
    }
}

/// One face line of the output, terminated by the sentinel.
pub open spec fn spec_face_line_text(f: Seq<int>) -> Seq<char> {
    "      "@ + spec_face_joined(f, f.len() as int) + ", -1,\n"@
}

/// All vertex lines of the output, first `n` of them.
pub open spec fn spec_wrl_vertex_block(vs: Seq<(int, int, int)>, n: int) -> Seq<char>
    decreases n,
{
    if n <= 0 {
        Seq::empty()
    } else {
        spec_wrl_vertex_block(vs, n - 1) + spec_vertex_line_text(vs[n - 1])
    }
}

/// All face lines of the output, first `n` of them.
pub open spec fn spec_wrl_face_block(fs: Seq<Seq<int>>, n: int) -> Seq<char>
    decreases n,
{
    if n <= 0 {
        Seq::empty()
    } else {
        spec_wrl_face_block(fs, n - 1) + spec_face_line_text(fs[n - 1])
    }
}

/// The complete scene description of a mesh text: fixed head, one line
/// per vertex, fixed middle, one line per face, fixed tail. A text with
/// no vertex or face lines still yields the full, syntactically closed
/// skeleton.
pub open spec fn spec_wrl_text(obj: Seq<char>) -> Seq<char> {
    let lines = spec_text_lines(obj);
    let vs = spec_mesh_vertices(lines, lines.len() as int);
    let fs = spec_mesh_faces(lines, lines.len() as int);
    spec_wrl_header() + spec_wrl_vertex_block(vs, vs.len() as int) + spec_wrl_mid()
        + spec_wrl_face_block(fs, fs.len() as int) + spec_wrl_footer()
}

/// No vertex line among the first `n` lines means no vertices.
proof fn lemma_no_vertices(lines: Seq<Seq<char>>, n: int)
    requires
        forall|i: int| 0 <= i < n ==> !spec_is_vertex_line(#[trigger] lines[i]),
    ensures
        spec_mesh_vertices(lines, n).len() == 0,
    decreases n,
{
    if n > 0 {
        lemma_no_vertices(lines, n - 1);
    }
}

/// No face line among the first `n` lines means no faces.
proof fn lemma_no_faces(lines: Seq<Seq<char>>, n: int)
    requires
        forall|i: int| 0 <= i < n ==> !spec_is_face_line(#[trigger] lines[i]),
    ensures
        spec_mesh_faces(lines, n).len() == 0,
    decreases n,
{
    if n > 0 {
        lemma_no_faces(lines, n - 1);
    }
}

/// Degenerate-input law: a mesh text without a single vertex or face line
/// still reformats to the full, syntactically closed skeleton with empty
/// point and index lists, never to an error.
pub proof fn lemma_degenerate_mesh(obj: Seq<char>)
    requires
        forall|i: int|
            0 <= i < spec_text_lines(obj).len() ==> !spec_is_vertex_line(
                #[trigger] spec_text_lines(obj)[i],
            ) && !spec_is_face_line(spec_text_lines(obj)[i]),
    ensures
        spec_wrl_text(obj) == spec_wrl_header() + spec_wrl_mid() + spec_wrl_footer(),
{
    let lines = spec_text_lines(obj);
    lemma_no_vertices(lines, lines.len() as int);
    lemma_no_faces(lines, lines.len() as int);
    assert(spec_wrl_text(obj) =~= spec_wrl_header() + spec_wrl_mid() + spec_wrl_footer());
}

/// Builds one output vertex line.
fn build_vertex_line(v: (i64, i64, i64)) -> (r: String)
    requires
        -400_000_000_000 <= v.0 <= 400_000_000_000,
        -400_000_000_000 <= v.1 <= 400_000_000_000,
        -400_000_000_000 <= v.2 <= 400_000_000_000,
    ensures
        r@ == spec_vertex_line_text((v.0 as int, v.1 as int, v.2 as int)),
{
    let mut s = String::from_str("        ");
    let a = fmt_fixed_pad(v.0, 4);
    s.append(a.as_str());
    s.append(" ");
    let b = fmt_fixed_pad(v.1, 4);
    s.append(b.as_str());
    s.append(" ");
    let c = fmt_fixed_pad(v.2, 4);
    s.append(c.as_str());
    s.append(",\n");
    s
}

/// Builds one output face line.
fn build_face_line(f: &Vec<i64>) -> (r: String)
    requires
        forall|j: int| 0 <= j < f@.len() ==> 0 <= #[trigger] f@[j],
    ensures
        r@ == spec_face_line_text(f@.map_values(|x: i64| x as int)),
{
    let ghost fv = f@.map_values(|x: i64| x as int);
    let mut s = String::from_str("      ");
    let mut j: usize = 0;
    proof {
        assert(s@ =~= "      "@ + spec_face_joined(fv, 0));
    }
    while j < f.len()
        invariant
            j <= f@.len(),
            fv == f@.map_values(|x: i64| x as int),
            forall|k: int| 0 <= k < f@.len() ==> 0 <= #[trigger] f@[k],
            s@ == "      "@ + spec_face_joined(fv, j as int),
        decreases f@.len() - j,
    {
        let ghost prev = s@;
        if j > 0 {
            s.append(", ");
        }
        let d = fmt_nonneg(f[j]);
        s.append(d.as_str());
        proof {
            assert(fv[j as int] == f@[j as int] as int);
            if j == 0 {
                assert(spec_face_joined(fv, 1) == spec_udigits(fv[0]));
                assert(s@ =~= "      "@ + spec_face_joined(fv, 1));
            } else {
                assert(spec_face_joined(fv, j as int + 1) == spec_face_joined(fv, j as int) + ", "@
                    + spec_udigits(fv[j as int]));
                assert(s@ =~= "      "@ + spec_face_joined(fv, j as int + 1));
            }
        }
        j += 1;
    }
    s.append(", -1,\n");
    proof {
        assert(s@ =~= spec_face_line_text(fv));
    }
    s
}

/// Builds the complete scene description of a mesh text.
#[verifier::rlimit(100)]
#[verifier::loop_isolation(false)]
fn build_wrl(obj: &str) -> (r: String)
    ensures
        r@ == spec_wrl_text(obj@),
{
    let lines = split_lines(obj);
    let ghost lv = seq_views(lines@);
    let mut vs: Vec<(i64, i64, i64)> = Vec::new();
    let mut fs: Vec<Vec<i64>> = Vec::new();
    let mut i: usize = 0;
    proof {
        reveal_strlit("v");
        reveal_strlit("f");
        assert("v"@.len() == 1);
        assert("f"@.len() == 1);
        assert("v"@[0] == 'v');
        assert("f"@[0] == 'f');
        assert(triple_views(vs@) =~= spec_mesh_vertices(lv, 0));
        assert(face_views(fs@) =~= spec_mesh_faces(lv, 0));
    }
    while i < lines.len()
        invariant
            i <= lines@.len(),
            lv == seq_views(lines@),
            triple_views(vs@) == spec_mesh_vertices(lv, i as int),
            face_views(fs@) == spec_mesh_faces(lv, i as int),
            forall|k: int|
                0 <= k < vs@.len() ==> -400_000_000_000 <= (#[trigger] vs@[k]).0 <= 400_000_000_000
                    && -400_000_000_000 <= vs@[k].1 <= 400_000_000_000 && -400_000_000_000
                    <= vs@[k].2 <= 400_000_000_000,
            forall|k: int, j: int|
                0 <= k < fs@.len() && 0 <= j < (#[trigger] fs@[k])@.len() ==> 0 <= #[trigger] fs@[k]@[j],
        decreases lines@.len() - i,
    {
        let toks = ws_tokens(lines[i].as_str());
        proof {
            assert(seq_views(lines@)[i as int] == lines@[i as int]@);
        }
        let ghost line = lv[i as int];
        if toks.len() >= 4 && str_eq(toks[0].as_str(), "v") {
            proof {
                assert(seq_views(toks@)[0] == toks@[0]@);
                assert(seq_views(toks@)[1] == toks@[1]@);
                assert(seq_views(toks@)[2] == toks@[2]@);
                assert(seq_views(toks@)[3] == toks@[3]@);
                assert(spec_is_vertex_line(line));
                assert(!spec_is_face_line(line));
            }
            let ghost prev = vs@;
            vs.push((
                vertex_coord(toks[1].as_str()),
                vertex_coord(toks[2].as_str()),
                vertex_coord(toks[3].as_str()),
            ));
            proof {
                assert(triple_views(vs@) =~= triple_views(prev).push(spec_vertex_of(line)));
                assert(spec_mesh_vertices(lv, i as int + 1) == spec_mesh_vertices(lv, i as int)
                    + seq![spec_vertex_of(line)]);
                assert(triple_views(vs@) =~= spec_mesh_vertices(lv, i as int + 1));
                assert(spec_mesh_faces(lv, i as int + 1) =~= spec_mesh_faces(lv, i as int));
            }
        } else if toks.len() >= 4 && str_eq(toks[0].as_str(), "f") {
            proof {
                assert(seq_views(toks@)[0] == toks@[0]@);
                assert(spec_is_face_line(line));
                assert(!spec_is_vertex_line(line));
            }
            let mut face: Vec<i64> = Vec::new();
            let mut j: usize = 1;
            proof {
                assert(spec_face_of(line).len() == seq_views(toks@).len() - 1);
            }
            while j < toks.len()
                invariant
                    1 <= j <= toks@.len(),
                    toks@.len() >= 4,
                    spec_ws_tokens(line) == seq_views(toks@),
                    face@.len() == j - 1,
                    forall|k: int|
                        0 <= k < j - 1 ==> #[trigger] face@[k] as int == spec_face_of(line)[k]
                            && 0 <= face@[k],
                decreases toks@.len() - j,
            {
                proof {
                    assert(seq_views(toks@)[j as int] == toks@[j as int]@);
                }
                face.push(face_index(toks[j].as_str()));
                j += 1;
            }
            let ghost prev = fs@;
            fs.push(face);
            proof {
                assert(face_views(fs@) =~= face_views(prev).push(spec_face_of(line)) ) by {
                    assert(fs@[prev.len() as int]@.map_values(|x: i64| x as int) =~= spec_face_of(
                        line,
                    ));
                }
                assert(spec_mesh_faces(lv, i as int + 1) == spec_mesh_faces(lv, i as int)
                    + seq![spec_face_of(line)]);
                assert(face_views(fs@) =~= spec_mesh_faces(lv, i as int + 1));
                assert(spec_mesh_vertices(lv, i as int + 1) =~= spec_mesh_vertices(lv, i as int));
            }
        } else {
            proof {
                if seq_views(toks@).len() >= 4 {
                    assert(seq_views(toks@)[0] == toks@[0]@);
                }
                assert(!spec_is_vertex_line(line));
                assert(!spec_is_face_line(line));
                assert(spec_mesh_vertices(lv, i as int + 1) =~= spec_mesh_vertices(lv, i as int));
                assert(spec_mesh_faces(lv, i as int + 1) =~= spec_mesh_faces(lv, i as int));
            }
        }
        i += 1;
    }
    proof {
        assert(lv.len() == lines@.len());
    }
    let ghost vspec = spec_mesh_vertices(lv, lv.len() as int);
    let ghost fspec = spec_mesh_faces(lv, lv.len() as int);
    let mut out = String::new();
    out.append("#VRML V2.0 utf8\n");
    out.append("Shape {\n");
    out.append("  appearance Appearance {\n");
    out.append("    material Material { diffuseColor 0.5 0.5 0.5 }\n");
    out.append("  }\n");
    out.append("  geometry IndexedFaceSet {\n");
    out.append("    coord Coordinate {\n");
    out.append("      point [\n");
    proof {
        assert(out@ =~= spec_wrl_header());
    }
    let mut i: usize = 0;
    while i < vs.len()
        invariant
            i <= vs@.len(),
            triple_views(vs@) == vspec,
            forall|k: int|
                0 <= k < vs@.len() ==> -400_000_000_000 <= (#[trigger] vs@[k]).0 <= 400_000_000_000
                    && -400_000_000_000 <= vs@[k].1 <= 400_000_000_000 && -400_000_000_000
                    <= vs@[k].2 <= 400_000_000_000,
            out@ == spec_wrl_header() + spec_wrl_vertex_block(vspec, i as int),
        decreases vs@.len() - i,
    {
        let line = build_vertex_line(vs[i]);
        out.append(line.as_str());
        proof {
            assert(triple_views(vs@)[i as int] == (vs@[i as int].0 as int, vs@[i as int].1 as int, vs@[i as int].2 as int));
            assert(spec_wrl_vertex_block(vspec, i as int + 1) == spec_wrl_vertex_block(
                vspec,
                i as int,
            ) + spec_vertex_line_text(vspec[i as int]));
            assert(out@ =~= spec_wrl_header() + spec_wrl_vertex_block(vspec, i as int + 1));
        }
        i += 1;
    }
    out.append("      ]\n");
    out.append("    }\n");
    out.append("    coordIndex [\n");
    proof {
        assert(out@ =~= spec_wrl_header() + spec_wrl_vertex_block(vspec, vspec.len() as int)
            + spec_wrl_mid());
    }
    let ghost mid_done = out@;
    let mut i: usize = 0;
    while i < fs.len()
        invariant
            i <= fs@.len(),
            face_views(fs@) == fspec,
            mid_done == spec_wrl_header() + spec_wrl_vertex_block(vspec, vspec.len() as int)
                + spec_wrl_mid(),
            forall|k: int, j: int|
                0 <= k < fs@.len() && 0 <= j < (#[trigger] fs@[k])@.len() ==> 0 <= #[trigger] fs@[k]@[j],
            out@ == mid_done + spec_wrl_face_block(fspec, i as int),
        decreases fs@.len() - i,
    {
        let line = build_face_line(&fs[i]);
        out.append(line.as_str());
        proof {
            assert(face_views(fs@)[i as int] == fs@[i as int]@.map_values(|x: i64| x as int));
            assert(spec_wrl_face_block(fspec, i as int + 1) == spec_wrl_face_block(fspec, i as int)
                + spec_face_line_text(fspec[i as int]));
            assert(out@ =~= mid_done + spec_wrl_face_block(fspec, i as int + 1));
        }
        i += 1;
    }
    out.append("    ]\n");
    out.append("  }\n");
    out.append("}\n");
    proof {
        assert(out@ =~= spec_wrl_text(obj@));
    }
    out
}

/// Converts a fetched 3D model: the raw mesh text, when there is one,
/// becomes the scene description `spec_wrl_text` gives for it; the raw
/// solid bytes pass through; the placement is the identity (zero offset
/// and rotation, unit scale, in thousandths). Conversion never fails.
pub fn convert_3d_model(ee_model: Ee3dModel) -> (r: Result<Ki3dModel, Error>)
    ensures
        r is Ok,
        ({
            let m = r->Ok_0;
            &&& m.name@ == ee_model.name@
            &&& m.step_data == ee_model.step
            &&& m.offset == (0i64, 0i64, 0i64)
            &&& m.scale == (1000i64, 1000i64, 1000i64)
            &&& m.rotate == (0i64, 0i64, 0i64)
            &&& match ee_model.raw_obj {
                Some(o) => m.wrl_data matches Some(w) && w@ == spec_wrl_text(o@),
                None => m.wrl_data is None,
            }
        }),
{
    let wrl_data = match &ee_model.raw_obj {
        Some(obj) => Some(build_wrl(obj.as_str())),
        None => None,
    };
    Ok(
        Ki3dModel {
            name: ee_model.name,
            wrl_data,
            step_data: ee_model.step,
            offset: (0, 0, 0),
            scale: (1000, 1000, 1000),
            rotate: (0, 0, 0),
        },
    )
}

} // verus!
