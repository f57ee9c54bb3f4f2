use engine_core::gltf::{
    Accessor, BufferView, Document, GltfLoader, Mesh, MeshError, Primitive, Semantic,
};

fn packed_view(buffer: usize, offset: usize, length: usize) -> BufferView {
    BufferView { buffer, offset, length, stride: None }
}

fn accessor(view: BufferView, offset: usize, size: usize, count: usize) -> Accessor {
    Accessor { view: Some(view), offset, size, count }
}

fn counting_bytes(n: usize) -> Vec<u8> {
    (0..n).map(|i| i as u8).collect()
}

fn document(accessors: Vec<Accessor>, primitives: Vec<Primitive>) -> Document {
    Document { accessors, primitives }
}

#[test]
fn packed_positions_are_twelve_bytes_per_vertex() {
    let n = 5;
    let buffers = vec![counting_bytes(n * 12)];
    let doc = document(vec![accessor(packed_view(0, 0, n * 12), 0, 12, n)], vec![]);
    let data = GltfLoader::get_accessor_data(&doc, 0, &buffers).unwrap();
    assert_eq!(data.len(), n * 12);
    assert_eq!(data, buffers[0]);
}

#[test]
fn accessor_reads_at_view_and_accessor_offsets() {
    let buffers = vec![vec![9u8; 3], counting_bytes(40)];
    let doc = document(vec![accessor(packed_view(1, 10, 20), 4, 2, 3)], vec![]);
    let data = GltfLoader::get_accessor_data(&doc, 0, &buffers).unwrap();
    assert_eq!(data, vec![14, 15, 16, 17, 18, 19]);
}

#[test]
fn sparse_accessor_is_refused() {
    let buffers = vec![counting_bytes(36)];
    let doc = document(vec![Accessor { view: None, offset: 0, size: 12, count: 3 }], vec![]);
    assert_eq!(
        GltfLoader::get_accessor_data(&doc, 0, &buffers),
        Err(MeshError::SparseAccessor)
    );
}

#[test]
fn accessor_index_out_of_range() {
    let buffers = vec![counting_bytes(12)];
    let doc = document(vec![accessor(packed_view(0, 0, 12), 0, 12, 1)], vec![]);
    assert_eq!(
        GltfLoader::get_accessor_data(&doc, 1, &buffers),
        Err(MeshError::AccessorOutOfRange)
    );
}

#[test]
fn missing_buffer() {
    let buffers = vec![counting_bytes(12)];
    let doc = document(vec![accessor(packed_view(1, 0, 12), 0, 12, 1)], vec![]);
    assert_eq!(
        GltfLoader::get_accessor_data(&doc, 0, &buffers),
        Err(MeshError::BufferOutOfRange)
    );
}

#[test]
fn interleaved_view_is_refused() {
    let buffers = vec![counting_bytes(48)];
    let view = BufferView { buffer: 0, offset: 0, length: 48, stride: Some(24) };
    let doc = document(vec![accessor(view, 0, 12, 2)], vec![]);
    assert_eq!(
        GltfLoader::get_accessor_data(&doc, 0, &buffers),
        Err(MeshError::StridedView)
    );
}

#[test]
fn view_past_end_of_buffer() {
    let buffers = vec![counting_bytes(20)];
    let doc = document(vec![accessor(packed_view(0, 10, 11), 0, 1, 1)], vec![]);
    assert_eq!(
        GltfLoader::get_accessor_data(&doc, 0, &buffers),
        Err(MeshError::ViewOutOfBounds)
    );
    let doc = document(vec![accessor(packed_view(0, usize::MAX, 2), 0, 1, 1)], vec![]);
    assert_eq!(
        GltfLoader::get_accessor_data(&doc, 0, &buffers),
        Err(MeshError::ViewOutOfBounds)
    );
}

#[test]
fn accessor_past_end_of_view() {
    let buffers = vec![counting_bytes(40)];
    let doc = document(vec![accessor(packed_view(0, 0, 24), 4, 12, 2)], vec![]);
    assert_eq!(
        GltfLoader::get_accessor_data(&doc, 0, &buffers),
        Err(MeshError::AccessorOutOfBounds)
    );
    let doc = document(vec![accessor(packed_view(0, 0, 24), 0, usize::MAX, 2)], vec![]);
    assert_eq!(
        GltfLoader::get_accessor_data(&doc, 0, &buffers),
        Err(MeshError::AccessorOutOfBounds)
    );
}

#[test]
fn empty_accessor_reads_nothing() {
    let buffers = vec![counting_bytes(8)];
    let doc = document(vec![accessor(packed_view(0, 8, 0), 0, 12, 0)], vec![]);
    assert_eq!(GltfLoader::get_accessor_data(&doc, 0, &buffers), Ok(vec![]));
}

fn two_primitive_document() -> (Document, Vec<Vec<u8>>) {
    let buffers = vec![counting_bytes(64)];
    let accessors = vec![
        accessor(packed_view(0, 0, 24), 0, 12, 2),  // positions
        accessor(packed_view(0, 24, 8), 0, 2, 4),   // indices
        accessor(packed_view(0, 32, 8), 0, 4, 2),   // normals
        accessor(packed_view(0, 40, 8), 0, 8, 1),   // first texture coordinates
        accessor(packed_view(0, 48, 16), 8, 8, 1),  // second texture coordinates
    ];
    let primitives = vec![
        Primitive {
            attributes: vec![
                (Semantic::Positions, 0),
                (Semantic::Tangents, 4),
                (Semantic::Normals, 2),
                (Semantic::TexCoords(0), 3),
                (Semantic::TexCoords(1), 4),
            ],
            indices: Some(1),
        },
        Primitive { attributes: vec![(Semantic::Colors(0), 3)], indices: Some(1) },
    ];
    (document(accessors, primitives), buffers)
}

#[test]
fn load_reads_each_primitive() {
    let (doc, buffers) = two_primitive_document();
    let meshes = GltfLoader::load(&doc, &buffers).unwrap();
    assert_eq!(meshes.len(), 2);
    assert_eq!(meshes[0].positions, counting_bytes(24));
    assert_eq!(meshes[0].indices, (24u8..32).collect::<Vec<u8>>());
    assert_eq!(meshes[0].normals, (32u8..40).collect::<Vec<u8>>());
    assert_eq!(meshes[0].texture_coordinates, (56u8..64).collect::<Vec<u8>>());
    let mut second = Mesh::new();
    second.indices = (24u8..32).collect();
    assert_eq!(meshes[1], second);
}

#[test]
fn load_refuses_primitive_without_indices() {
    let (mut doc, buffers) = two_primitive_document();
    doc.primitives[1].indices = None;
    assert_eq!(GltfLoader::load(&doc, &buffers), Err(MeshError::MissingIndices));
    assert!(GltfLoader::load_primitive(&doc, &doc.primitives[0], &buffers).is_ok());
}

#[test]
fn load_reports_first_failing_attribute() {
    let (mut doc, buffers) = two_primitive_document();
    doc.accessors[2].view = None;
    doc.primitives[0].indices = None;
    assert_eq!(GltfLoader::load(&doc, &buffers), Err(MeshError::SparseAccessor));
}

#[test]
fn load_of_no_primitives_is_empty() {
    let doc = document(vec![], vec![]);
    assert_eq!(GltfLoader::load(&doc, &vec![]), Ok(vec![]));
}
