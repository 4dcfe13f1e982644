//! The record parser: classify each line by its leading tag token and
//! append the decoded record to the mesh under construction. Unknown tags
//! and undecodable numeric tokens are recovered silently; a wrong payload
//! arity for `v` / `vt` / `vn` / `f` aborts the whole load.

use vstd::prelude::*;
use crate::mesh::{
    spec_face_of, spec_vector2_of, spec_vector3_of, Face, Mesh, SpecMesh, Vector2, Vector3,
};
use crate::text::{spec_tokens, tokenize};

verus! {

/// The record tags whose payload arity is enforced.
#[derive(Clone, Copy, PartialEq, Eq, Structural, Debug)]
pub enum RecordTag {
    Position,
    Texcoord,
    Normal,
    Face,
}

/// A structurally malformed attribute record: the fatal error that aborts
/// a load, naming the offending tag and the 1-based line it stood on.
#[derive(Clone, Copy, PartialEq, Eq, Structural, Debug)]
pub struct FormatError {
    pub tag: RecordTag,
    pub line: usize,
}

/// The line's tag is the single character `o`.
pub open spec fn is_tag_o(t: Seq<char>) -> bool {
    t.len() == 1 && t[0] == 'o'
}

/// The line's tag is the single character `v`.
pub open spec fn is_tag_v(t: Seq<char>) -> bool {
    t.len() == 1 && t[0] == 'v'
}

/// The line's tag is `vt`.
pub open spec fn is_tag_vt(t: Seq<char>) -> bool {
    t.len() == 2 && t[0] == 'v' && t[1] == 't'
}

/// The line's tag is `vn`.
pub open spec fn is_tag_vn(t: Seq<char>) -> bool {
    t.len() == 2 && t[0] == 'v' && t[1] == 'n'
}

/// The line's tag is the single character `f`.
pub open spec fn is_tag_f(t: Seq<char>) -> bool {
    t.len() == 1 && t[0] == 'f'
}

/// What one line does to the mesh under construction, `lineno` being its
/// 1-based position: a blank line and an unknown tag change nothing, `o`
/// renames to its first payload token (an `o` without payload changes
/// nothing), `v` / `vt` / `vn` / `f` append one decoded record, and a
/// wrong payload arity is the fatal format error.
pub open spec fn spec_line(m: SpecMesh, line: Seq<char>, lineno: usize) -> Result<
    SpecMesh,
    FormatError,
> {
    let toks = spec_tokens(line);
    if toks.len() == 0 {
        Ok(m)
    } else {
        let tag = toks[0];
        let payload = toks.subrange(1, toks.len() as int);
        if is_tag_o(tag) {
            if payload.len() > 0 {
                Ok(SpecMesh { name: payload[0], ..m })
            } else {
                Ok(m)
            }
        } else if is_tag_v(tag) {
            match spec_vector3_of(payload) {
                Some(v) => Ok(SpecMesh { vertices: m.vertices.push(v), ..m }),
                None => Err(FormatError { tag: RecordTag::Position, line: lineno }),
            }
        } else if is_tag_vt(tag) {
            match spec_vector2_of(payload) {
                Some(v) => Ok(SpecMesh { texcoords: m.texcoords.push(v), ..m }),
                None => Err(FormatError { tag: RecordTag::Texcoord, line: lineno }),
            }
        } else if is_tag_vn(tag) {
            match spec_vector3_of(payload) {
                Some(v) => Ok(SpecMesh { normals: m.normals.push(v), ..m }),
                None => Err(FormatError { tag: RecordTag::Normal, line: lineno }),
            }
        } else if is_tag_f(tag) {
            match spec_face_of(payload) {
                Some(vs) => Ok(SpecMesh { faces: m.faces.push(vs), ..m }),
                None => Err(FormatError { tag: RecordTag::Face, line: lineno }),
            }
        } else {
            Ok(m)
        }
    }
}

/// What a line sequence does to a mesh under construction, the first line
/// standing at 1-based position `first`: lines are interpreted
/// independently and in order, and the first fatal error aborts the rest.
pub open spec fn spec_load_from(m: SpecMesh, lines: Seq<Seq<char>>, first: usize) -> Result<
    SpecMesh,
    FormatError,
>
    decreases lines.len(),
{
    if lines.len() == 0 {
        Ok(m)
    } else {
        match spec_line(m, lines[0], first) {
            Ok(m2) => spec_load_from(
                m2,
                lines.subrange(1, lines.len() as int),
                (first + 1) as usize,
            ),
            Err(e) => Err(e),
        }
    }
}

/// The mesh a line sequence loads into an initially empty mesh, or the
/// first fatal format error.
pub open spec fn spec_load(lines: Seq<Seq<char>>) -> Result<SpecMesh, FormatError> {
    spec_load_from(SpecMesh::empty(), lines, 1)
}

/// Interpret one line against the mesh under construction. On a fatal
/// format error the mesh is left as it was.
pub fn parse_line(mesh: &mut Mesh, line: &str, lineno: usize) -> (r: Result<(), FormatError>)
    ensures
        match r {
            Ok(()) => spec_line(old(mesh)@, line@, lineno) == Ok::<SpecMesh, FormatError>(
                final(mesh)@,
            ),
            Err(e) => spec_line(old(mesh)@, line@, lineno) == Err::<SpecMesh, FormatError>(e)
                && final(mesh)@ == old(mesh)@,
        },
{
    let toks = tokenize(line);
    let ghost stoks = spec_tokens(line@);
    if toks.len() == 0 {
        return Ok(());
    }
    let tag = toks[0].as_str();
    proof {
        assert(tag@ == stoks[0]);
    }
    let n = tag.unicode_len();
    let c0 = tag.get_char(0);
    let payload = rest_tokens(&toks);
    let ghost spayload = stoks.subrange(1, stoks.len() as int);
    if n == 1 && c0 == 'o' {
        if payload.len() > 0 {
            mesh.name = payload[0].clone();
        }
        Ok(())
    } else if n == 1 && c0 == 'v' {
        match Vector3::from_str_vec(&payload) {
            Some(v) => {
                mesh.vertices.push(v);
                Ok(())
            },
            None => Err(FormatError { tag: RecordTag::Position, line: lineno }),
        }
    } else if n == 2 && c0 == 'v' && tag.get_char(1) == 't' {
        match Vector2::from_str_vec(&payload) {
            Some(v) => {
                mesh.texcoords.push(v);
                Ok(())
            },
            None => Err(FormatError { tag: RecordTag::Texcoord, line: lineno }),
        }
    } else if n == 2 && c0 == 'v' && tag.get_char(1) == 'n' {
        match Vector3::from_str_vec(&payload) {
            Some(v) => {
                mesh.normals.push(v);
                Ok(())
            },
            None => Err(FormatError { tag: RecordTag::Normal, line: lineno }),
        }
    } else if n == 1 && c0 == 'f' {
        match Face::from_str_vec(&payload) {
            Some(f) => {
                mesh.faces.push(f);
                proof {
                    assert(final(mesh)@.faces =~= old(mesh)@.faces.push(f@));
                }
                Ok(())
            },
            None => Err(FormatError { tag: RecordTag::Face, line: lineno }),
        }
    } else {
        Ok(())
    }
}

/// The payload of a tokenized line: every token after the tag.
fn rest_tokens(toks: &Vec<String>) -> (r: Vec<String>)
    requires
        toks@.len() > 0,
    ensures
        r@.map_values(|s: String| s@) == toks@.map_values(|s: String| s@).subrange(
            1,
            toks@.len() as int,
        ),
{
    let mut r: Vec<String> = Vec::new();
    let mut i: usize = 1;
    while i < toks.len()
        invariant
            1 <= i <= toks@.len(),
            r@.map_values(|s: String| s@) == toks@.map_values(|s: String| s@).subrange(
                1,
                i as int,
            ),
        decreases toks@.len() - i,
    {
        r.push(toks[i].clone());
        proof {
            assert(toks@.map_values(|s: String| s@).subrange(1, i as int + 1)
                =~= toks@.map_values(|s: String| s@).subrange(1, i as int).push(
                toks@[i as int]@,
            ));
        }
        i = i + 1;
    }
    r
}

/// Load a mesh from a sequence of text lines, interpreted independently
/// and in order into an initially empty mesh; the first structurally
/// malformed attribute record aborts the load, and no partial mesh is
/// returned.
pub fn load_wavefront(lines: &Vec<String>) -> (r: Result<Mesh, FormatError>)
    ensures
        match r {
            Ok(m) => spec_load(lines@.map_values(|l: String| l@)) == Ok::<SpecMesh, FormatError>(
                m@,
            ),
            Err(e) => spec_load(lines@.map_values(|l: String| l@)) == Err::<SpecMesh, FormatError>(
                e,
            ),
        },
{
    let ghost slines = lines@.map_values(|l: String| l@);
    let mut mesh = Mesh::new();
    let mut i: usize = 0;
    proof {
        assert(slines.subrange(0, slines.len() as int) =~= slines);
    }
    while i < lines.len()
        invariant
            i <= lines@.len(),
            slines == lines@.map_values(|l: String| l@),
            spec_load(slines) == spec_load_from(
                mesh@,
                slines.subrange(i as int, slines.len() as int),
                (i + 1) as usize,
            ),
        decreases lines@.len() - i,
    {
        let ghost rest = slines.subrange(i as int, slines.len() as int);
        proof {
            assert(rest[0] == slines[i as int]);
            assert(rest.subrange(1, rest.len() as int) =~= slines.subrange(
                i as int + 1,
                slines.len() as int,
            ));
        }
        match parse_line(&mut mesh, lines[i].as_str(), i + 1) {
            Ok(()) => {},
            Err(e) => {
                return Err(e);
            },
        }
        i = i + 1;
    }
    proof {
        assert(slines.subrange(slines.len() as int, slines.len() as int) =~= Seq::<
            Seq<char>,
        >::empty());
    }
    Ok(mesh)
}

/// A line with no tokens changes nothing.
pub proof fn lemma_blank_line_ignored(m: SpecMesh, line: Seq<char>, lineno: usize)
    requires
        spec_tokens(line).len() == 0,
    ensures
        spec_line(m, line, lineno) == Ok::<SpecMesh, FormatError>(m),
{
}

/// A line whose tag is none of `o`, `v`, `vt`, `vn`, `f` leaves the mesh
/// exactly as it was.
pub proof fn lemma_unknown_tag_ignored(m: SpecMesh, line: Seq<char>, lineno: usize)
    requires
        spec_tokens(line).len() > 0,
        !is_tag_o(spec_tokens(line)[0]),
        !is_tag_v(spec_tokens(line)[0]),
        !is_tag_vt(spec_tokens(line)[0]),
        !is_tag_vn(spec_tokens(line)[0]),
        !is_tag_f(spec_tokens(line)[0]),
    ensures
        spec_line(m, line, lineno) == Ok::<SpecMesh, FormatError>(m),
{
}

/// An `o` record with a payload renames the mesh to its first payload
/// token, ignores the rest, and appends to no collection.
pub proof fn lemma_name_record(m: SpecMesh, line: Seq<char>, lineno: usize)
    requires
        spec_tokens(line).len() >= 2,
        is_tag_o(spec_tokens(line)[0]),
    ensures
        spec_line(m, line, lineno) == Ok::<SpecMesh, FormatError>(
            SpecMesh { name: spec_tokens(line)[1], ..m },
        ),
{
    assert(spec_tokens(line).subrange(1, spec_tokens(line).len() as int)[0] == spec_tokens(
        line,
    )[1]);
}

/// A `v` record with any payload arity but three is the fatal format
/// error, naming the tag and the line.
pub proof fn lemma_position_arity_aborts(m: SpecMesh, line: Seq<char>, lineno: usize)
    requires
        spec_tokens(line).len() != 4,
        spec_tokens(line).len() > 0,
        is_tag_v(spec_tokens(line)[0]),
    ensures
        spec_line(m, line, lineno) == Err::<SpecMesh, FormatError>(
            FormatError { tag: RecordTag::Position, line: lineno },
        ),
{
}

/// Loading is a pure function of the lines: two loads of equal line
/// sequences yield meshes that are equal field for field.
pub proof fn lemma_load_repeatable(lines: Seq<Seq<char>>, m1: SpecMesh, m2: SpecMesh)
    requires
        spec_load(lines) == Ok::<SpecMesh, FormatError>(m1),
        spec_load(lines) == Ok::<SpecMesh, FormatError>(m2),
    ensures
        m1.name == m2.name,
        m1.vertices == m2.vertices,
        m1.texcoords == m2.texcoords,
        m1.normals == m2.normals,
        m1.faces == m2.faces,
{
}

} // verus!
