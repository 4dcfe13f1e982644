//! The mesh data model: attribute vectors, per-corner vertex references,
//! triangular faces, and the mesh that owns them, together with their
//! constructors from decoded record payloads. The constructors enforce
//! only arity; they do no cross-referential validation.

use vstd::prelude::*;
use crate::decode::{decode_component, decode_index, spec_component_of, spec_index_of, Scalar};
use crate::text::{spec_split, split_char};

verus! {

/// A two-component attribute value (a texture coordinate).
#[derive(Clone, Copy, PartialEq, Eq, Structural, Debug)]
pub struct Vector2 {
    pub x: Scalar,
    pub y: Scalar,
}

/// A three-component attribute value (a position or a normal).
#[derive(Clone, Copy, PartialEq, Eq, Structural, Debug)]
pub struct Vector3 {
    pub x: Scalar,
    pub y: Scalar,
    pub z: Scalar,
}

/// One corner of a face: 0-based indices into the owning mesh's
/// positions, texture coordinates and normals.
#[derive(Clone, Copy, PartialEq, Eq, Structural, Debug)]
pub struct Vertex {
    pub position: u16,
    pub texcoord: u16,
    pub normal: u16,
}

/// A triangle: exactly three vertex references.
#[derive(Clone, Copy, PartialEq, Eq, Debug)]
pub struct Face {
    pub vertices: [Vertex; 3],
}

impl View for Face {
    type V = Seq<Vertex>;

    open spec fn view(&self) -> Seq<Vertex> {
        self.vertices@
    }
}

/// What a `Vector2` is built from: exactly two component values.
pub open spec fn spec_vector2_from(vals: Seq<Scalar>) -> Option<Vector2> {
    if vals.len() == 2 {
        Some(Vector2 { x: vals[0], y: vals[1] })
    } else {
        None
    }
}

/// The `Vector2` a record payload decodes to, each token under the
/// substitute-zero policy; `None` on any arity but two.
pub open spec fn spec_vector2_of(toks: Seq<Seq<char>>) -> Option<Vector2> {
    spec_vector2_from(toks.map_values(|t: Seq<char>| spec_component_of(t)))
}

/// What a `Vector3` is built from: exactly three component values.
pub open spec fn spec_vector3_from(vals: Seq<Scalar>) -> Option<Vector3> {
    if vals.len() == 3 {
        Some(Vector3 { x: vals[0], y: vals[1], z: vals[2] })
    } else {
        None
    }
}

/// The `Vector3` a record payload decodes to, each token under the
/// substitute-zero policy; `None` on any arity but three.
pub open spec fn spec_vector3_of(toks: Seq<Seq<char>>) -> Option<Vector3> {
    spec_vector3_from(toks.map_values(|t: Seq<char>| spec_component_of(t)))
}

/// What a `Vertex` is built from: exactly three 0-based indices.
pub open spec fn spec_vertex_from(ids: Seq<u16>) -> Option<Vertex> {
    if ids.len() == 3 {
        Some(Vertex { position: ids[0], texcoord: ids[1], normal: ids[2] })
    } else {
        None
    }
}

/// The `Vertex` a `p/t/n` face token decodes to: its `/`-separated parts,
/// each under the index-decoding policy; `None` on any count of parts
/// but three.
pub open spec fn spec_vertex_of(tok: Seq<char>) -> Option<Vertex> {
    spec_vertex_from(spec_split(tok, '/').map_values(|p: Seq<char>| spec_index_of(p)))
}

/// What a `Face` is built from: exactly three vertex references.
pub open spec fn spec_face_from(vs: Seq<Vertex>) -> Option<Seq<Vertex>> {
    if vs.len() == 3 {
        Some(vs)
    } else {
        None
    }
}

/// The corners a face record's payload decodes to: `None` on any arity
/// but three, or where a token has any count of `/`-separated parts but
/// three.
pub open spec fn spec_face_of(toks: Seq<Seq<char>>) -> Option<Seq<Vertex>> {
    if forall|i: int| 0 <= i < toks.len() ==> (#[trigger] spec_vertex_of(toks[i])) is Some {
        spec_face_from(toks.map_values(|t: Seq<char>| spec_vertex_of(t).unwrap()))
    } else {
        None
    }
}

impl Vector2 {
    /// Build from exactly two components; `None` reports the arity error.
    pub fn from_vec(v: &Vec<Scalar>) -> (r: Option<Vector2>)
        ensures
            r == spec_vector2_from(v@),
    {
        if v.len() == 2 {
            Some(Vector2 { x: v[0], y: v[1] })
        } else {
            None
        }
    }

    /// Decode a record payload, each token under the substitute-zero
    /// policy; `None` reports the arity error.
    pub fn from_str_vec(v: &Vec<String>) -> (r: Option<Vector2>)
        ensures
            r == spec_vector2_of(v@.map_values(|s: String| s@)),
    {
        let vals = decode_components(v);
        let r = Vector2::from_vec(&vals);
        proof {
            assert(vals@ =~= v@.map_values(|s: String| s@).map_values(
                |t: Seq<char>| spec_component_of(t),
            ));
        }
        r
    }
}

impl Vector3 {
    /// Build from exactly three components; `None` reports the arity
    /// error.
    pub fn from_vec(v: &Vec<Scalar>) -> (r: Option<Vector3>)
        ensures
            r == spec_vector3_from(v@),
    {
        if v.len() == 3 {
            Some(Vector3 { x: v[0], y: v[1], z: v[2] })
        } else {
            None
        }
    }

    /// Decode a record payload, each token under the substitute-zero
    /// policy; `None` reports the arity error.
    pub fn from_str_vec(v: &Vec<String>) -> (r: Option<Vector3>)
        ensures
            r == spec_vector3_of(v@.map_values(|s: String| s@)),
    {
        let vals = decode_components(v);
        let r = Vector3::from_vec(&vals);
        proof {
            assert(vals@ =~= v@.map_values(|s: String| s@).map_values(
                |t: Seq<char>| spec_component_of(t),
            ));
        }
        r
    }
}

/// Decode every token of a payload under the substitute-zero policy.
fn decode_components(v: &Vec<String>) -> (vals: Vec<Scalar>)
    ensures
        vals@ == v@.map_values(|s: String| spec_component_of(s@)),
{
    let mut vals: Vec<Scalar> = Vec::new();
    let mut i: usize = 0;
    while i < v.len()
        invariant
            i <= v.len(),
            vals@ == v@.subrange(0, i as int).map_values(|s: String| spec_component_of(s@)),
        decreases v.len() - i,
    {
        vals.push(decode_component(v[i].as_str()));
        proof {
            assert(v@.subrange(0, i as int + 1).map_values(|s: String| spec_component_of(s@))
                =~= v@.subrange(0, i as int).map_values(|s: String| spec_component_of(s@)).push(
                spec_component_of(v@[i as int]@),
            ));
        }
        i = i + 1;
    }
    proof {
        assert(v@.subrange(0, v@.len() as int) =~= v@);
    }
    vals
}

impl Vertex {
    /// Build from exactly three 0-based indices; `None` reports the
    /// arity error.
    pub fn from_vec(v: &Vec<u16>) -> (r: Option<Vertex>)
        ensures
            r == spec_vertex_from(v@),
    {
        if v.len() == 3 {
            Some(Vertex { position: v[0], texcoord: v[1], normal: v[2] })
        } else {
            None
        }
    }

    /// Decode one `p/t/n` face token, each part under the index-decoding
    /// policy; `None` reports any count of parts but three.
    pub fn from_str(v: &str) -> (r: Option<Vertex>)
        ensures
            r == spec_vertex_of(v@),
    {
        let parts = split_char(v, '/');
        let mut idx: Vec<u16> = Vec::new();
        let mut i: usize = 0;
        while i < parts.len()
            invariant
                i <= parts.len(),
                parts@.map_values(|t: String| t@) == spec_split(v@, '/'),
                idx@ == parts@.subrange(0, i as int).map_values(
                    |t: String| spec_index_of(t@),
                ),
            decreases parts.len() - i,
        {
            idx.push(decode_index(parts[i].as_str()));
            proof {
                assert(parts@.subrange(0, i as int + 1).map_values(
                    |t: String| spec_index_of(t@),
                ) =~= parts@.subrange(0, i as int).map_values(|t: String| spec_index_of(t@)).push(
                    spec_index_of(parts@[i as int]@),
                ));
            }
            i = i + 1;
        }
        proof {
            assert(parts@.subrange(0, parts@.len() as int) =~= parts@);
            assert(idx@ =~= spec_split(v@, '/').map_values(|p: Seq<char>| spec_index_of(p)));
        }
        Vertex::from_vec(&idx)
    }
}

impl Face {
    /// Build from exactly three vertex references; `None` reports the
    /// arity error.
    pub fn from_vec(v: &Vec<Vertex>) -> (r: Option<Face>)
        ensures
            match r {
                Some(f) => spec_face_from(v@) == Some(f@),
                None => spec_face_from(v@) is None,
            },
    {
        if v.len() == 3 {
            let f = Face { vertices: [v[0], v[1], v[2]] };
            proof {
                assert(f@ =~= v@);
            }
            Some(f)
        } else {
            None
        }
    }

    /// Decode a face record's payload of `p/t/n` tokens; `None` reports
    /// the arity error or a malformed token.
    pub fn from_str_vec(v: &Vec<String>) -> (r: Option<Face>)
        ensures
            match r {
                Some(f) => spec_face_of(v@.map_values(|s: String| s@)) == Some(f@),
                None => spec_face_of(v@.map_values(|s: String| s@)) is None,
            },
    {
        let ghost toks = v@.map_values(|s: String| s@);
        let mut vs: Vec<Vertex> = Vec::new();
        let mut i: usize = 0;
        while i < v.len()
            invariant
                i <= v.len(),
                toks == v@.map_values(|s: String| s@),
                forall|j: int| 0 <= j < i ==> (#[trigger] spec_vertex_of(toks[j])) is Some,
                vs@ == toks.subrange(0, i as int).map_values(
                    |t: Seq<char>| spec_vertex_of(t).unwrap(),
                ),
            decreases v.len() - i,
        {
            match Vertex::from_str(v[i].as_str()) {
                Some(vr) => {
                    vs.push(vr);
                    proof {
                        assert(toks.subrange(0, i as int + 1).map_values(
                            |t: Seq<char>| spec_vertex_of(t).unwrap(),
                        ) =~= toks.subrange(0, i as int).map_values(
                            |t: Seq<char>| spec_vertex_of(t).unwrap(),
                        ).push(spec_vertex_of(toks[i as int]).unwrap()));
                    }
                },
                None => {
                    return None;
                },
            }
            i = i + 1;
        }
        proof {
            assert(toks.subrange(0, toks.len() as int) =~= toks);
            assert(vs@ =~= toks.map_values(|t: Seq<char>| spec_vertex_of(t).unwrap()));
        }
        Face::from_vec(&vs)
    }
}

/// The mathematical content of a mesh: its name and its four ordered
/// collections, faces reduced to their corner sequences.
pub ghost struct SpecMesh {
    pub name: Seq<char>,
    pub vertices: Seq<Vector3>,
    pub texcoords: Seq<Vector2>,
    pub normals: Seq<Vector3>,
    pub faces: Seq<Seq<Vertex>>,
}

impl SpecMesh {
    /// The state a mesh is created in: nameless and empty.
    pub open spec fn empty() -> SpecMesh {
        SpecMesh {
            name: Seq::empty(),
            vertices: Seq::empty(),
            texcoords: Seq::empty(),
            normals: Seq::empty(),
            faces: Seq::empty(),
        }
    }
}

/// A named triangulated mesh: four parallel ordered collections, in file
/// order, which `Vertex` indices address 0-based.
#[derive(PartialEq, Debug)]
pub struct Mesh {
    pub name: String,
    pub vertices: Vec<Vector3>,
    pub texcoords: Vec<Vector2>,
    pub normals: Vec<Vector3>,
    pub faces: Vec<Face>,
}

impl View for Mesh {
    type V = SpecMesh;

    open spec fn view(&self) -> SpecMesh {
        SpecMesh {
            name: self.name@,
            vertices: self.vertices@,
            texcoords: self.texcoords@,
            normals: self.normals@,
            faces: self.faces@.map_values(|f: Face| f@),
        }
    }
}

impl Mesh {
    /// A new mesh: nameless, all collections empty.
    pub fn new() -> (m: Mesh)
        ensures
            m@ == SpecMesh::empty(),
    {
        let m = Mesh {
            name: String::new(),
            vertices: Vec::new(),
            texcoords: Vec::new(),
            normals: Vec::new(),
            faces: Vec::new(),
        };
        proof {
            assert(m@.faces =~= SpecMesh::empty().faces);
        }
        m
    }
}

} // verus!
