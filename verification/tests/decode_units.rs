use wavefront::decode::{decode_component, decode_index, parse_scalar, parse_u16, Scalar};
use wavefront::gl::{check_gl_error, GlStatus};
use wavefront::mesh::{Face, Mesh, Vector2, Vector3, Vertex};

fn strings(ls: &[&str]) -> Vec<String> {
    ls.iter().map(|s| s.to_string()).collect()
}

fn scalar(mantissa: i64, scale: usize) -> Scalar {
    Scalar { mantissa, scale }
}

#[test]
fn parse_u16_accepts_plain_decimals() {
    assert_eq!(parse_u16("0"), Some(0));
    assert_eq!(parse_u16("7"), Some(7));
    assert_eq!(parse_u16("042"), Some(42));
    assert_eq!(parse_u16("65535"), Some(65535));
}

#[test]
fn parse_u16_rejects_everything_else() {
    assert_eq!(parse_u16(""), None);
    assert_eq!(parse_u16("65536"), None);
    assert_eq!(parse_u16("99999999999999999999"), None);
    assert_eq!(parse_u16("12a"), None);
    assert_eq!(parse_u16("-1"), None);
    assert_eq!(parse_u16("+1"), None);
    assert_eq!(parse_u16("1 "), None);
}

#[test]
fn decode_index_offsets_and_substitutes() {
    assert_eq!(decode_index("1"), 0);
    assert_eq!(decode_index("7"), 6);
    assert_eq!(decode_index("0"), 0);
    assert_eq!(decode_index("abc"), 0);
    assert_eq!(decode_index(""), 0);
}

#[test]
fn parse_scalar_accepts_signed_decimals() {
    assert_eq!(parse_scalar("1.0"), Some(scalar(10, 1)));
    assert_eq!(parse_scalar("1.00"), Some(scalar(100, 2)));
    assert_eq!(parse_scalar("-0.5"), Some(scalar(-5, 1)));
    assert_eq!(parse_scalar("+2"), Some(scalar(2, 0)));
    assert_eq!(parse_scalar("5."), Some(scalar(5, 0)));
    assert_eq!(parse_scalar(".5"), Some(scalar(5, 1)));
    assert_eq!(parse_scalar("0"), Some(scalar(0, 0)));
    assert_eq!(parse_scalar("-0.0"), Some(scalar(0, 1)));
    assert_eq!(
        parse_scalar("9223372036854775807"),
        Some(scalar(9223372036854775807, 0))
    );
}

#[test]
fn parse_scalar_rejects_malformed_numerals() {
    assert_eq!(parse_scalar(""), None);
    assert_eq!(parse_scalar("-"), None);
    assert_eq!(parse_scalar("+"), None);
    assert_eq!(parse_scalar("."), None);
    assert_eq!(parse_scalar("-."), None);
    assert_eq!(parse_scalar("1.2.3"), None);
    assert_eq!(parse_scalar("abc"), None);
    assert_eq!(parse_scalar("1e5"), None);
    assert_eq!(parse_scalar("--1"), None);
    assert_eq!(parse_scalar("9223372036854775808"), None);
}

#[test]
fn decode_component_substitutes_zero() {
    assert_eq!(decode_component("2.5"), scalar(25, 1));
    assert_eq!(decode_component("xyz"), scalar(0, 0));
    assert_eq!(decode_component(""), scalar(0, 0));
}

#[test]
fn vector_constructors_enforce_arity() {
    assert_eq!(
        Vector3::from_vec(&vec![scalar(1, 0), scalar(2, 0), scalar(3, 0)]),
        Some(Vector3 { x: scalar(1, 0), y: scalar(2, 0), z: scalar(3, 0) })
    );
    assert_eq!(Vector3::from_vec(&vec![scalar(1, 0), scalar(2, 0)]), None);
    assert_eq!(
        Vector2::from_vec(&vec![scalar(1, 0), scalar(2, 0)]),
        Some(Vector2 { x: scalar(1, 0), y: scalar(2, 0) })
    );
    assert_eq!(Vector2::from_vec(&vec![]), None);
}

#[test]
fn vector_from_str_vec_decodes_each_token() {
    let v = Vector3::from_str_vec(&strings(&["1.5", "junk", "-2"])).unwrap();
    assert_eq!(v.x, scalar(15, 1));
    assert_eq!(v.y, scalar(0, 0));
    assert_eq!(v.z, scalar(-2, 0));
    assert_eq!(Vector3::from_str_vec(&strings(&["1", "2"])), None);
    let t = Vector2::from_str_vec(&strings(&["0.5", "0.25"])).unwrap();
    assert_eq!(t.x, scalar(5, 1));
    assert_eq!(t.y, scalar(25, 2));
    assert_eq!(Vector2::from_str_vec(&strings(&["0.5"])), None);
}

#[test]
fn vertex_from_vec_enforces_arity() {
    assert_eq!(
        Vertex::from_vec(&vec![1, 2, 3]),
        Some(Vertex { position: 1, texcoord: 2, normal: 3 })
    );
    assert_eq!(Vertex::from_vec(&vec![1, 2]), None);
    assert_eq!(Vertex::from_vec(&vec![1, 2, 3, 4]), None);
}

#[test]
fn vertex_from_str_decodes_each_part() {
    assert_eq!(
        Vertex::from_str("1/2/3"),
        Some(Vertex { position: 0, texcoord: 1, normal: 2 })
    );
    assert_eq!(
        Vertex::from_str("1//2"),
        Some(Vertex { position: 0, texcoord: 0, normal: 1 })
    );
    assert_eq!(Vertex::from_str("1/2"), None);
    assert_eq!(Vertex::from_str("1/2/3/4"), None);
    assert_eq!(Vertex::from_str(""), None);
}

#[test]
fn face_constructors_enforce_arity() {
    let a = Vertex { position: 0, texcoord: 0, normal: 0 };
    let f = Face::from_vec(&vec![a, a, a]).unwrap();
    assert_eq!(f.vertices, [a, a, a]);
    assert_eq!(Face::from_vec(&vec![a, a]), None);
    let g = Face::from_str_vec(&strings(&["1/1/1", "2/2/2", "3/3/3"])).unwrap();
    assert_eq!(g.vertices[1], Vertex { position: 1, texcoord: 1, normal: 1 });
    assert_eq!(Face::from_str_vec(&strings(&["1/1/1", "2/2/2"])), None);
    assert_eq!(Face::from_str_vec(&strings(&["1/1/1", "2/2/2", "3/3"])), None);
}

#[test]
fn new_mesh_is_nameless_and_empty() {
    let m = Mesh::new();
    assert_eq!(m.name, "");
    assert!(m.vertices.is_empty());
    assert!(m.texcoords.is_empty());
    assert!(m.normals.is_empty());
    assert!(m.faces.is_empty());
}

#[test]
fn gl_error_names_match_their_codes() {
    assert_eq!(check_gl_error(0), GlStatus::NoError);
    assert_eq!(check_gl_error(0x0500), GlStatus::Named("INVALID_ENUM".to_string()));
    assert_eq!(check_gl_error(0x0501), GlStatus::Named("INVALID_VALUE".to_string()));
    assert_eq!(check_gl_error(0x0502), GlStatus::Named("INVALID_OPERATION".to_string()));
    assert_eq!(check_gl_error(0x0503), GlStatus::Named("STACK_OVERFLOW".to_string()));
    assert_eq!(check_gl_error(0x0504), GlStatus::Named("STACK_UNDERFLOW".to_string()));
    assert_eq!(check_gl_error(0x0505), GlStatus::Named("OUT_OF_MEMORY".to_string()));
    assert_eq!(
        check_gl_error(0x0506),
        GlStatus::Named("INVALID_FRAMEBUFFER_OPERATION".to_string())
    );
    assert_eq!(check_gl_error(0x1234), GlStatus::Unknown(0x1234));
}
