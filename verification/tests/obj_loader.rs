use three_rs::obj_loader::{ObjLoader, ObjMesh, ObjVertex};

fn word(w: &Vec<char>) -> String {
    w.iter().collect()
}

fn words(ws: &Vec<Vec<char>>) -> Vec<String> {
    ws.iter().map(word).collect()
}

fn vertex(position: Option<usize>, uv: Option<usize>, normal: Option<usize>) -> ObjVertex {
    ObjVertex { position, uv, normal }
}

fn triangles(m: &ObjMesh) -> Vec<[usize; 3]> {
    m.triangles.iter().map(|t| t.indices).collect()
}

#[test]
fn loads_a_single_triangle() {
    let m = ObjLoader::load("v 0 0 0\nv 1 0 0\nv 0 1 0\nf 1 2 3\n");
    assert_eq!(m.positions.len(), 3);
    assert_eq!(words(&m.positions[1]), vec!["1", "0", "0"]);
    assert_eq!(
        m.vertices,
        vec![
            vertex(Some(0), None, None),
            vertex(Some(1), None, None),
            vertex(Some(2), None, None),
        ]
    );
    assert_eq!(triangles(&m), vec![[0, 1, 2]]);
}

#[test]
fn each_face_corner_is_a_vertex_of_its_own() {
    let text = "v 0 0 0\nv 1 0 0\nv 0 1 0\nv 1 1 0\nf 1 2 3\nf 2 4 3\n";
    let m = ObjLoader::load(text);
    assert_eq!(m.vertices.len(), 6);
    assert_eq!(triangles(&m), vec![[0, 1, 2], [3, 4, 5]]);
    assert_eq!(m.vertices[3], vertex(Some(1), None, None));
    assert_eq!(m.vertices[4], vertex(Some(3), None, None));
}

#[test]
fn reads_texture_coordinates_and_normals() {
    let text = "v 0 0 0\nv 1 0 0\nv 0 1 0\nvt 0.5 0.25\nvt 1 1\nvn 0 0 1\nf 1/2/1 2/1/1 3//1\n";
    let m = ObjLoader::load(text);
    assert_eq!(words(&m.texcoords[0]), vec!["0.5", "0.25"]);
    assert_eq!(words(&m.normals[0]), vec!["0", "0", "1"]);
    assert_eq!(
        m.vertices,
        vec![
            vertex(Some(0), Some(1), Some(0)),
            vertex(Some(1), Some(0), Some(0)),
            vertex(Some(2), Some(0), Some(0)),
        ]
    );
}

#[test]
fn a_missing_texture_index_takes_the_first_one() {
    let m = ObjLoader::load("vt 0.1 0.2\nvn 1 0 0\nv 1 2 3\nf 1 1 1\n");
    assert_eq!(m.vertices[0], vertex(Some(0), Some(0), Some(0)));
}

#[test]
fn a_face_cannot_use_what_is_declared_after_it() {
    let m = ObjLoader::load("f 1 2 3\nv 0 0 0\nv 1 0 0\nv 0 1 0\n");
    assert_eq!(m.positions.len(), 3);
    assert_eq!(m.vertices, vec![vertex(None, None, None); 3]);
    assert_eq!(triangles(&m), vec![[0, 1, 2]]);
}

#[test]
fn out_of_range_and_unreadable_indices() {
    let text = "v 0 0 0\nv 1 0 0\nf 9 -1 abc\nf 0 +2 99999999999999999999999999\n";
    let m = ObjLoader::load(text);
    assert_eq!(
        m.vertices,
        vec![
            vertex(None, None, None),
            vertex(Some(0), None, None),
            vertex(Some(0), None, None),
            vertex(Some(0), None, None),
            vertex(Some(1), None, None),
            vertex(Some(0), None, None),
        ]
    );
}

#[test]
fn short_and_unknown_lines_are_skipped() {
    let text = "# comment\n\nv 1 2\nvt 1\nvn 1 2\nf 1 2\no name\ns off\nusemtl x\n";
    let m = ObjLoader::load(text);
    assert!(m.positions.is_empty());
    assert!(m.texcoords.is_empty());
    assert!(m.normals.is_empty());
    assert!(m.vertices.is_empty());
    assert!(m.triangles.is_empty());
}

#[test]
fn extra_words_and_quads() {
    let m = ObjLoader::load("v 1 2 3 4\nv 0 0 0\nv 0 0 1\nv 0 1 0\nf 1 2 3 4\n");
    assert_eq!(words(&m.positions[0]), vec!["1", "2", "3"]);
    assert_eq!(m.vertices.len(), 3);
    assert_eq!(triangles(&m), vec![[0, 1, 2]]);
}

#[test]
fn white_space_of_all_kinds() {
    let m = ObjLoader::load("  v\t1  2\u{3000}3\r\nv 4 5 6\r\nv 7 8 9");
    assert_eq!(m.positions.len(), 3);
    assert_eq!(words(&m.positions[0]), vec!["1", "2", "3"]);
    assert_eq!(words(&m.positions[2]), vec!["7", "8", "9"]);
}

#[test]
fn keywords_must_stand_alone() {
    let m = ObjLoader::load("vx 1 2 3\nV 1 2 3\nvtt 1 2\nff 1 2 3\n");
    assert!(m.positions.is_empty());
    assert!(m.texcoords.is_empty());
    assert!(m.vertices.is_empty());
}

#[test]
fn empty_text() {
    let m = ObjLoader::load("");
    assert!(m.positions.is_empty());
    assert!(m.triangles.is_empty());
}

#[test]
fn every_triangle_names_its_own_three_vertices() {
    let mut text = String::new();
    for _ in 0..4 {
        text.push_str("v 0 0 0\n");
    }
    for _ in 0..5 {
        text.push_str("f 1 2 3\n");
    }
    let m = ObjLoader::load(&text);
    assert_eq!(m.vertices.len(), 3 * m.triangles.len());
    for (k, t) in m.triangles.iter().enumerate() {
        assert_eq!(t.indices, [3 * k, 3 * k + 1, 3 * k + 2]);
        for i in t.indices {
            assert!(i < m.vertices.len());
        }
    }
}

#[test]
fn read_line_one_at_a_time() {
    let mut m = ObjMesh::new();
    m.read_line(&"v 1 2 3".chars().collect());
    m.read_line(&"vn 0 1 0".chars().collect());
    m.read_line(&"f 1//1 1//1 1//1".chars().collect());
    assert_eq!(m.vertices, vec![vertex(Some(0), None, Some(0)); 3]);
    assert_eq!(triangles(&m), vec![[0, 1, 2]]);
}
