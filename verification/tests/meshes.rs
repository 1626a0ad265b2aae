use galaxy_engine::maths::{div_ceil, grid_size_for_count, grid_size_table, single_root};
use galaxy_engine::meshes::adjacency::{alignment_order, build_adjacency, pack_w};
use galaxy_engine::meshes::buffer::{layout_after_indices, MeshBuffer};
use galaxy_engine::meshes::indexing::{
    element_index_ranges, sort_triangles, AttributeCounts, MeshFault, Polygon, PolygonGroup,
    Triangle,
};
use galaxy_engine::meshes::load::{
    flatten_triangles, index_model, load_model, ElementOrders, ObjFault,
};
use galaxy_engine::meshes::mesh_manager::{
    copy_dispatch, megabuffer_bindings, LoadingMeshManager, MeshManager, MegabufferBinding,
};
use galaxy_engine::meshes::model::{load_obj, LoadFault};
use galaxy_engine::meshes::statements::{split_words, supports_obj};
use galaxy_engine::meshes::optimise::{
    optimise_element, optimise_mesh, split_element, MeshElementOffset, VertexBits,
    OVERDRAW_THRESHOLD,
};
use galaxy_engine::meshes::vertex::{pack_vertex, RawMeshVertices};
use galaxy_engine::resource_paths::ResourcePath;
use galaxy_engine::vk::IndexType;
use std::collections::HashSet;

const CUBE: &str = "v 0 0 0\nv 1 0 0\nv 1 1 0\nv 0 1 0\nvt 0 0\nvt 1 1\nvn 0 0 1\n\
usemtl stone\nf 1/1/1 2/1/1 3/2/1\nusemtl wood\nf 1/1/1 3/2/1 4/1/1\n";

#[test]
fn libraries_order_elements() {
    let text = "# comment\nnewmtl wood\nKd 1 0 0\n  newmtl   stone  \nnewmtl glass";
    let elements = ElementOrders::parse_mtl(text).unwrap();
    assert_eq!(elements.num_elements(), 3);
    assert_eq!(elements.element_index("wood"), 0);
    assert_eq!(elements.element_index("stone"), 1);
    assert_eq!(elements.element_index("glass"), 2);
    assert_eq!(elements.element_index("unknown"), 0);
    assert!(ElementOrders::parse_mtl("newmtl ").is_none());
    assert_eq!(ElementOrders::none().num_elements(), 1);
}

#[test]
fn models_are_indexed() {
    let model = match load_model(CUBE) {
        Ok(model) => model,
        Err(_) => panic!("not loaded"),
    };
    let counts = AttributeCounts { positions: 4, tex_coords: 2, normals: 1 };
    assert_eq!(model.counts(), counts);
    let one = 1f32.to_bits();
    assert_eq!(model.positions, vec![[0, 0, 0], [one, 0, 0], [one, one, 0], [0, one, 0]]);
    assert_eq!(model.tex_coords, vec![[0, 0], [one, one]]);
    assert_eq!(model.normals, vec![[0, 0, one]]);
    assert_eq!(model.polygons.len(), 2);
    let elements = ElementOrders::parse_mtl("newmtl wood\nnewmtl stone").unwrap();
    let mesh = index_model(&model.polygons, &model.groups, model.counts(), &elements).unwrap();
    assert_eq!(mesh.triangles.len(), 2);
    assert_eq!(mesh.triangles[0].element, 0);
    assert_eq!(mesh.triangles[1].element, 1);
    // Corners that are the same share a vertex.
    assert_eq!(mesh.vertices.len(), 4);
    let corners = |t: &Triangle| {
        [mesh.vertices[t.a as usize], mesh.vertices[t.b as usize], mesh.vertices[t.c as usize]]
    };
    assert_eq!(corners(&mesh.triangles[0]), [(0, 0, 0), (2, 0, 1), (3, 0, 0)]);
    assert_eq!(corners(&mesh.triangles[1]), [(0, 0, 0), (1, 0, 0), (2, 0, 1)]);
    assert_eq!(flatten_triangles(&mesh.triangles).len(), 6);
    assert_eq!(element_index_ranges(&mesh.triangles, 2), Some(vec![(0, 3), (3, 6)]));
}

fn fault(faces: &str) -> MeshFault {
    let text = format!("v 0 0 0\nv 1 0 0\nv 1 1 0\nv 0 1 0\nvt 0 0\nvn 0 0 1\n{faces}\n");
    let model = match load_model(&text) {
        Ok(model) => model,
        Err(_) => panic!("not loaded"),
    };
    let elements = ElementOrders::none();
    match index_model(&model.polygons, &model.groups, model.counts(), &elements) {
        Err(fault) => fault,
        Ok(_) => panic!("no fault"),
    }
}

#[test]
fn faults_of_models_are_found() {
    assert_eq!(fault("f 1 2 3"), MeshFault::NoNormalsNoTexCoords);
    assert_eq!(fault("f 1/1 2/1 3/1"), MeshFault::NoNormals);
    assert_eq!(fault("f 1//1 2//1 3//1"), MeshFault::NoTexCoords);
    assert_eq!(fault("f 1/1/1 2/1/1 3/1/1 4/1/1"), MeshFault::NotTriangulated);
    assert!(matches!(load_model("v 0 0 0\nf 1 1 2\n"), Err(ObjFault::Invalid(_))));
    let polygons = vec![Polygon::PTN(vec![(0, 0, 0), (1, 0, 0), (2, 0, 0)])];
    let groups = vec![PolygonGroup { material: "m".to_string(), ranges: vec![(0, 1)] }];
    let index = |(positions, tex_coords, normals): (usize, usize, usize)| {
        let counts = AttributeCounts { positions, tex_coords, normals };
        match index_model(&polygons, &groups, counts, &ElementOrders::none()) {
            Ok(mesh) => mesh.vertices.len(),
            Err(fault) => {
                assert_eq!(fault, MeshFault::IndexOutOfRange);
                0
            }
        }
    };
    assert_eq!(index((3, 1, 1)), 3);
    assert_eq!(index((2, 1, 1)), 0);
    assert_eq!(index((3, 0, 1)), 0);
    assert_eq!(index((3, 1, 0)), 0);
}

#[test]
fn unsupported_statements_are_found() {
    assert!(supports_obj(CUBE));
    assert!(!supports_obj("v 0 0 0\ncurv2 1 2\n"));
    assert!(matches!(load_model("v 0 0 0\ncurv2 1 2\n"), Err(ObjFault::Unsupported)));
    assert!(matches!(load_model("v 1 2\nv x y z\n"), Err(ObjFault::Invalid(_))));
}

#[test]
fn first_fault_of_a_model_file_counts() {
    let unsupported = |text: &str| match load_model(text) {
        Err(ObjFault::Unsupported) => true,
        Err(ObjFault::Invalid(_)) => false,
        Ok(_) => panic!("loaded"),
    };
    assert!(unsupported("v 0 0 0\nend\nv x\n"));
    assert!(!unsupported("v x\nend\n"));
    assert!(unsupported("cstype bezier\n") && unsupported("cstype rat taylor"));
    assert!(!unsupported("cstype\n") && !unsupported("cstype circle\n"));
    assert!(!unsupported("cstype bezier rat\n"));
    assert!(unsupported("deg 3\n") && unsupported("deg 3 2\n") && unsupported("deg \\\n 3\n"));
    assert!(!unsupported("deg\n") && !unsupported("deg 1 2 3\n") && !unsupported("deg a\n"));
    assert!(!unsupported("deg 1 b\n"));
    // The file ends where the statement should go on.
    assert!(!unsupported("end \\\n"));
    assert!(unsupported("\\\nend # of it\r\n"));
    let words = split_words(&" a\tb  c ".chars().collect());
    assert_eq!(words, vec!["a", "b", "c"]);
    assert!(supports_obj("# end\nv 0 0 0 \\\nend"));
}

#[test]
fn triangles_are_sorted_by_element() {
    let triangle = |a: u32, element: u32| Triangle { a, b: a, c: a, element };
    let sorted = sort_triangles(&vec![triangle(1, 2), triangle(2, 0), triangle(3, 2), triangle(4, 0)]);
    let order: Vec<u32> = sorted.iter().map(|t| t.a).collect();
    assert_eq!(order, vec![2, 4, 1, 3]);
    assert_eq!(element_index_ranges(&sorted, 3), None);
    let sorted = vec![triangle(1, 0), triangle(2, 0), triangle(3, 1), triangle(4, 2)];
    assert_eq!(element_index_ranges(&sorted, 3), Some(vec![(0, 6), (6, 9), (9, 12)]));
}

fn vertex(n: u32) -> VertexBits {
    [n, 0, 0, 0, 0, 0, 0, 0, 0, 0, 0, n + 100]
}

/// The triangles that are drawn, each from its least corner on.
fn drawn(vertices: &[VertexBits], indices: &[u32]) -> Vec<Vec<u32>> {
    let mut triangles: Vec<Vec<u32>> = indices
        .chunks(3)
        .map(|t| {
            let corners: Vec<u32> = t.iter().map(|&i| vertices[i as usize][0]).collect();
            let start = (0..3).min_by_key(|&s| corners[s]).unwrap();
            (0..3).map(|k| corners[(start + k) % 3]).collect()
        })
        .collect();
    triangles.sort();
    triangles
}

#[test]
fn elements_keep_their_geometry() {
    // Vertices 0 and 3 are the same, and vertex 4 is not used.
    let vertices = vec![vertex(7), vertex(8), vertex(9), vertex(7), vertex(5), vertex(6)];
    let indices = vec![0, 1, 2, 3, 2, 5];
    let element = split_element(&vertices, &indices);
    assert_eq!(element.vertices, vec![vertex(7), vertex(8), vertex(9), vertex(6)]);
    assert_eq!(drawn(&element.vertices, &element.indices), drawn(&vertices, &indices));
    let element = optimise_element(&vertices, &indices);
    assert_eq!(element.vertices.len(), 4);
    assert_eq!(drawn(&element.vertices, &element.indices), drawn(&vertices, &indices));
}

#[test]
fn optimised_elements_stand_in_their_ranges() {
    let vertices: Vec<VertexBits> = (0..200).map(|n| vertex(n % 150)).collect();
    let indices: Vec<u32> = (0..600).map(|i| (i * 7919 + i / 3) % 200).collect();
    let ranges = vec![(0, 300), (300, 300), (300, 600)];
    let assembly = optimise_mesh(&vertices, &indices, &ranges);
    assert_eq!(assembly.elements.len(), 3);
    let mut next = 0;
    for (element, (start, end)) in assembly.elements.iter().zip(ranges) {
        assert_eq!(element.vertex_offset, next);
        next += element.vertex_count;
        assert_eq!((element.index_offset, element.index_count), (start as u32, (end - start) as u32));
        let own = &assembly.vertices[element.vertex_offset as usize..next as usize];
        let own_indices = &assembly.indices[start..end];
        assert_eq!(drawn(own, own_indices), drawn(&vertices, &indices[start..end]));
        // The vertices come in the order in which the indices name them.
        let mut seen: Vec<u32> = Vec::new();
        for index in own_indices {
            if !seen.contains(index) {
                assert_eq!(*index as usize, seen.len());
                seen.push(*index);
            }
        }
        assert_eq!(seen.len(), element.vertex_count as usize);
    }
    assert_eq!(assembly.vertices.len(), next as usize);
    assert_ne!(assembly.indices, indices);
    assert_eq!(OVERDRAW_THRESHOLD, 1.05f32.to_bits());
}

#[test]
fn elements_follow_the_material_library() {
    let obj = "v 0 0 0\nv 1 0 0\nv 1 1 0\nv 0 1 0\nvt 0 0\nvt 1 0\nvt 1 1\nvt 0 1\nvn 0 0 1\n\
        usemtl b\nf 4/4/1 1/1/1 2/2/1\nf 4/4/1 2/2/1 3/3/1\nusemtl a\nf 1/1/1 2/2/1 3/3/1\n";
    let mesh = match load_obj(obj, Some("newmtl a\nnewmtl b\n")) {
        Ok(mesh) => mesh,
        Err(_) => panic!("not loaded"),
    };
    let vertices: Vec<VertexBits> = mesh
        .vertices
        .iter()
        .map(|v| {
            let (p, n, t) = (v.position, v.normal, v.tex_coord);
            [p[0], p[1], p[2], n[0], n[1], n[2], t[0], t[1], 0, 0, 0, 0]
        })
        .collect();
    let assembly = optimise_mesh(&vertices, &mesh.indices, &mesh.ranges);
    let counts: Vec<(u32, u32)> =
        assembly.elements.iter().map(|e| (e.vertex_count, e.index_count)).collect();
    assert_eq!(counts, vec![(3, 3), (4, 6)]);
    let offsets: Vec<(u32, u32)> =
        assembly.elements.iter().map(|e| (e.vertex_offset, e.index_offset)).collect();
    assert_eq!(offsets, vec![(0, 0), (3, 3)]);
    assert_eq!((assembly.vertices.len(), assembly.indices.len()), (7, 9));
    assert_eq!(assembly.indices[0..3], [0, 1, 2]);
    assert!(assembly.indices[3..9].iter().all(|&index| index < 4));
}

#[test]
fn model_files_are_loaded() {
    let mtl = "newmtl wood\nnewmtl stone";
    let mesh = match load_obj(CUBE, Some(mtl)) {
        Ok(mesh) => mesh,
        Err(_) => panic!("not loaded"),
    };
    assert_eq!(mesh.ranges, vec![(0, 3), (3, 6)]);
    assert_eq!((mesh.vertices.len(), mesh.indices.len()), (4, 6));
    let one = 1f32.to_bits();
    let corner = |i: usize| {
        let vertex = mesh.vertices[mesh.indices[i] as usize];
        assert_eq!(vertex.normal, [0, 0, one]);
        (vertex.position, vertex.tex_coord)
    };
    let far = ([one, one, 0], [one, one]);
    assert_eq!([corner(0), corner(1), corner(2)], [([0; 3], [0; 2]), far, ([0, one, 0], [0; 2])]);
    assert_eq!([corner(3), corner(4), corner(5)], [([0; 3], [0; 2]), ([one, 0, 0], [0; 2]), far]);
    // Without a library, all triangles belong to one element.
    match load_obj(CUBE, None) {
        Ok(mesh) => assert_eq!(mesh.ranges, vec![(0, 6)]),
        Err(_) => panic!("not loaded"),
    }
}

#[test]
fn model_files_may_be_faulty() {
    assert!(matches!(load_obj("curv2 1 2\n", None), Err(LoadFault::Obj(ObjFault::Unsupported))));
    assert!(matches!(load_obj("v x\n", None), Err(LoadFault::Obj(ObjFault::Invalid(_)))));
    assert!(matches!(load_obj(CUBE, Some("newmtl")), Err(LoadFault::UnnamedMaterial)));
    assert!(matches!(
        load_obj("v 0 0 0\nf 1 1 1\n", None),
        Err(LoadFault::Mesh(MeshFault::NoNormalsNoTexCoords))
    ));
    let mtl = "newmtl wood\nnewmtl glass\nnewmtl stone";
    assert!(matches!(load_obj(CUBE, Some(mtl)), Err(LoadFault::EmptyElement)));
}

#[test]
fn neighbours_are_aligned_along_a_tree() {
    // Two triangles that share an edge, and one apart.
    let indices = vec![0, 1, 2, 2, 1, 3, 4, 5, 6];
    let lists = build_adjacency(&indices);
    assert_eq!(lists.len(), 9);
    let edges = alignment_order(&lists, 7);
    // Every vertex is reached from an earlier one, but for the first of each part.
    assert_eq!(edges.len(), 5);
    let reached: HashSet<u32> = edges.iter().map(|e| e.1).collect();
    assert_eq!(reached.len(), 5);
    assert!(!reached.contains(&0) && !reached.contains(&4));
}

#[test]
fn handedness_is_packed() {
    for quantised in 0..=255u8 {
        assert_eq!(pack_w(quantised, true), 128 + quantised / 2);
        assert_eq!(pack_w(quantised, false), quantised / 2);
    }
}

#[test]
fn corners_are_read_and_written() {
    let mut raw = RawMeshVertices {
        vertices: vec![[1, 2, 3, 4, 5, 6, 7, 8, 9, 10, 11, 12], [0; 12]],
        indices: vec![1, 0, 1],
    };
    assert_eq!(raw.num_faces(), 1);
    assert_eq!(raw.num_vertices_of_face(0), 3);
    assert_eq!(raw.index_for_face_vertex(0, 1), 0);
    assert_eq!(raw.position(0, 1), [1, 2, 3]);
    assert_eq!(raw.normal(0, 1), [4, 5, 6]);
    assert_eq!(raw.tex_coord(0, 1), [7, 8]);
    raw.set_tangent([20, 21, 22], 23, 0, 0);
    assert_eq!(raw.vertices[1][8..], [20, 21, 22, 23]);
    let packed = pack_vertex(&raw.vertices[0], [1, 2, 3, 4]);
    assert_eq!(packed.position, [1, 2, 3]);
    assert_eq!(packed.tex_coord, [7, 8]);
    assert_eq!(packed.qtangent[..3], [1, 2, 3]);
}

#[test]
fn indices_follow_vertices_in_buffers() {
    assert_eq!(MeshBuffer::pad_vertices_size::<u32>(21), 24);
    assert_eq!(MeshBuffer::pad_vertices_size::<u16>(21), 22);
    assert_eq!(MeshBuffer::buffer_layout::<u32>(21, 3), (24, 36));
    let buffer = MeshBuffer::new::<u16>(1000, 21, 1, 3);
    assert_eq!((buffer.vertices_addr(), buffer.indices_addr()), (1000, 1022));
    assert_eq!((buffer.num_vertices(), buffer.num_indices(), buffer.size()), (1, 3, 28));
    assert!(matches!(buffer.bind(), (0, 22, IndexType::Uint16)));
    assert_eq!(layout_after_indices(6, 2, 40, 4), (8, 48));
}

fn element(vertex_count: u32, index_count: u32) -> MeshElementOffset {
    MeshElementOffset { vertex_offset: 0, vertex_count, index_offset: 0, index_count }
}

#[test]
fn meshes_share_a_megabuffer() {
    let mut loading = LoadingMeshManager::new();
    let (a, b) = (
        ResourcePath::new("/game/a", None).unwrap(),
        ResourcePath::new("/game/b", None).unwrap(),
    );
    assert_eq!(loading.find_mesh(&a), None);
    let first = MeshBuffer::new::<u32>(100, 140, 7, 9);
    assert_eq!(loading.add_mesh(&a, first, vec![element(4, 6), element(3, 3)]), 0);
    let second = MeshBuffer::new::<u32>(1000, 100, 5, 12);
    assert_eq!(loading.add_mesh(&b, second, vec![element(5, 12)]), 1);
    assert_eq!(loading.find_mesh(&b), Some(1));
    assert_eq!(loading.mesh(1).level_element_range(), (2, 3));
    let manager = MeshManager::new(loading.finalise_loading());
    assert_eq!((manager.num_vertices(), manager.num_indices()), (12, 21));
    assert_eq!(manager.megabuffer_sizes(), (240, 84));
    // Every vertex and index knows its buffer and where that starts.
    let offsets: Vec<(u32, u32)> =
        manager.vertex_offsets().iter().map(|o| (o.buffer_index, o.offset)).collect();
    assert_eq!(offsets, [vec![(0, 0); 7], vec![(1, 7); 5]].concat());
    let offsets: Vec<u32> = manager.index_offsets().iter().map(|o| o.offset).collect();
    assert_eq!(offsets, [vec![0; 9], vec![9; 12]].concat());
    assert_eq!(manager.buffer_addresses().0, vec![100, 1000]);
    let mesh = &manager.meshes()[0];
    let data = manager.get_element_draw_data_for_mesh(mesh);
    let ranges: Vec<(i32, u32, u32)> =
        data.iter().map(|d| (d.vertex_offset, d.first_index, d.index_count)).collect();
    assert_eq!(ranges, vec![(0, 0, 6), (4, 6, 3)]);
    let data = manager.get_element_draw_data_for_mesh(&manager.meshes()[1]);
    assert_eq!((data[0].vertex_offset, data[0].first_index), (7, 9));
}

#[test]
fn copies_are_dispatched_in_grids() {
    assert_eq!(copy_dispatch(100, 64), Some((2, 1)));
    assert_eq!(copy_dispatch(64, 64), Some((1, 1)));
    let bindings = megabuffer_bindings();
    let distinct: Vec<&MegabufferBinding> = bindings.iter().collect();
    assert_eq!(distinct.len(), 6);
}

#[test]
fn grids_are_nearly_square() {
    assert_eq!(grid_size_for_count(10, 5, 100), Some((10, 1)));
    assert_eq!(grid_size_for_count(100, 5, 11), Some((10, 10)));
    assert_eq!(grid_size_for_count(121, 5, 11), None);
    assert_eq!(grid_size_for_count(12, 0, 5), Some((3, 4)));
    assert_eq!(grid_size_for_count(13, 0, 5), Some((1, 13)));
    assert_eq!(div_ceil(7, 2), 4);
}

#[test]
fn grids_agree_with_floats() {
    for count in (100..200_000u32).step_by(37) {
        let mut root = (count as f32).sqrt().floor() as u32;
        loop {
            let diff = (root * count.div_ceil(root)) as i32 - count as i32;
            if diff >= 0 && diff <= 5 {
                break;
            }
            root -= 1;
        }
        assert_eq!(grid_size_for_count(count, 5, 99.max(0) + 400), {
            if count <= 499 {
                Some((count, 1))
            } else {
                Some((root, count.div_ceil(root)))
            }
        });
    }
}

#[test]
fn roots_agree_with_floats() {
    for k in 0..65_535u32 {
        for n in [k * k, (k * k).saturating_sub(1), k * k + k] {
            assert_eq!(single_root(n), (n as f32).sqrt().floor() as u32, "{n}");
        }
    }
    for n in [16_777_215, 16_777_216, 16_777_217, u32::MAX, u32::MAX - 200, 4_294_836_225] {
        assert_eq!(single_root(n), (n as f32).sqrt().floor() as u32, "{n}");
    }
}

#[test]
fn grid_tables_list_the_unused() {
    let table = grid_size_table(30, 5, 20);
    assert_eq!(table.len(), 29);
    assert_eq!(table[0], (1, 1, 1, 0));
    assert_eq!(table[22], (23, 4, 6, 1));
    assert!(grid_size_table(0, 5, 20).is_empty());
}
