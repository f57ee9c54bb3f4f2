//! Mesh data out of a glTF document: the bytes that each accessor of a
//! primitive points at, through its buffer view, in the document's buffers.
use vstd::prelude::*;

verus! {

/// A buffer view: a range of bytes of one buffer.
#[derive(Clone, Copy, Debug, PartialEq, Eq, Structural)]
pub struct BufferView {
    /// Index of the buffer the view reads from.
    pub buffer: usize,
    /// Where the range starts in the buffer.
    pub offset: usize,
    /// How many bytes the range holds.
    pub length: usize,
    /// The distance between elements where they are interleaved; `None` where
    /// they are tightly packed.
    pub stride: Option<usize>,
}

/// An accessor: a run of elements in a buffer view.
#[derive(Clone, Copy, Debug, PartialEq, Eq, Structural)]
pub struct Accessor {
    /// The view it reads from; `None` for a sparse accessor.
    pub view: Option<BufferView>,
    /// Where the run starts in the view.
    pub offset: usize,
    /// The size of one element in bytes.
    pub size: usize,
    /// How many elements the run holds.
    pub count: usize,
}

/// What a primitive's attribute holds.
#[derive(Clone, Copy, Debug, PartialEq, Eq, Structural)]
pub enum Semantic {
    Positions,
    Normals,
    Tangents,
    Colors(u32),
    TexCoords(u32),
    Joints(u32),
    Weights(u32),
}

/// A primitive: its attributes, each with the index of its accessor, and the
/// index of the accessor of its indices.
#[derive(Debug)]
pub struct Primitive {
    pub attributes: Vec<(Semantic, usize)>,
    pub indices: Option<usize>,
}

/// The parts of a glTF document that mesh extraction reads: all accessors,
/// and the primitives of all meshes, mesh after mesh.
#[derive(Debug)]
pub struct Document {
    pub accessors: Vec<Accessor>,
    pub primitives: Vec<Primitive>,
}

/// Why mesh data could not be read.
#[derive(Clone, Copy, Debug, PartialEq, Eq, Structural)]
pub enum MeshError {
    /// The accessor index is not in the document.
    AccessorOutOfRange,
    /// The accessor is sparse: it has no buffer view. Not supported.
    SparseAccessor,
    /// The buffer view names a buffer that was not given.
    BufferOutOfRange,
    /// The buffer view interleaves its elements. Not supported.
    StridedView,
    /// The buffer view reaches past the end of its buffer.
    ViewOutOfBounds,
    /// The accessor reaches past the end of its buffer view.
    AccessorOutOfBounds,
    /// The primitive has no index buffer.
    MissingIndices,
}

/// The bytes that accessor `index` of `doc` points at in `buffers`, or why
/// they cannot be read.
pub open spec fn accessor_data(doc: Document, index: int, buffers: Seq<Vec<u8>>) -> Result<
    Seq<u8>,
    MeshError,
> {
    if !(0 <= index < doc.accessors@.len()) {
        Err(MeshError::AccessorOutOfRange)
    } else {
        let a = doc.accessors@[index];
        match a.view {
            None => Err(MeshError::SparseAccessor),
            Some(v) => {
                if v.buffer >= buffers.len() {
                    Err(MeshError::BufferOutOfRange)
                } else if v.stride.is_some() {
                    Err(MeshError::StridedView)
                } else if v.offset + v.length > buffers[v.buffer as int]@.len() {
                    Err(MeshError::ViewOutOfBounds)
                } else if a.offset + a.size * a.count > v.length {
                    Err(MeshError::AccessorOutOfBounds)
                } else {
                    Ok(
                        buffers[v.buffer as int]@.subrange(
                            v.offset + a.offset,
                            v.offset + a.offset + a.size * a.count,
                        ),
                    )
                }
            },
        }
    }
}

/// The bytes of `bytes` from `start` up to `end`.
fn copy_range(bytes: &Vec<u8>, start: usize, end: usize) -> (r: Vec<u8>)
    requires
        start <= end <= bytes@.len(),
    ensures
        r@ == bytes@.subrange(start as int, end as int),
{
    let mut r: Vec<u8> = Vec::new();
    let mut i: usize = start;
    while i < end
        invariant
            start <= i <= end,
            end <= bytes@.len(),
            r@ == bytes@.subrange(start as int, i as int),
        decreases end - i,
    {
        r.push(bytes[i]);
        i = i + 1;
        assert(r@ =~= bytes@.subrange(start as int, i as int));
    }
    r
}

/// The mesh data of one primitive, as byte sequences.
pub struct MeshData {
    pub positions: Seq<u8>,
    pub indices: Seq<u8>,
    pub normals: Seq<u8>,
    pub texture_coordinates: Seq<u8>,
}

/// The mesh data of one primitive, as raw bytes in the layout of its
/// accessors.
#[derive(Debug, PartialEq, Eq)]
pub struct Mesh {
    pub positions: Vec<u8>,
    pub indices: Vec<u8>,
    pub normals: Vec<u8>,
    pub texture_coordinates: Vec<u8>,
}

impl View for Mesh {
    type V = MeshData;

    open spec fn view(&self) -> MeshData {
        MeshData {
            positions: self.positions@,
            indices: self.indices@,
            normals: self.normals@,
            texture_coordinates: self.texture_coordinates@,
        }
    }
}

/// A mesh with no data.
pub open spec fn empty_mesh() -> MeshData {
    MeshData {
        positions: Seq::empty(),
        indices: Seq::empty(),
        normals: Seq::empty(),
        texture_coordinates: Seq::empty(),
    }
}

impl Mesh {
    /// A mesh with no data.
    pub fn new() -> (r: Self)
        ensures
            r@ == empty_mesh(),
    {
        Mesh {
            positions: Vec::new(),
            indices: Vec::new(),
            normals: Vec::new(),
            texture_coordinates: Vec::new(),
        }
    }
}

/// The mesh data after the attributes `attributes` were read in turn into
/// `start`: positions, normals and texture coordinates are kept, a later
/// attribute of one kind in place of an earlier one, and the other kinds are
/// skipped. The first accessor that cannot be read decides the error.
pub open spec fn read_attributes(
    doc: Document,
    attributes: Seq<(Semantic, usize)>,
    buffers: Seq<Vec<u8>>,
    start: MeshData,
) -> Result<MeshData, MeshError>
    decreases attributes.len(),
{
    if attributes.len() == 0 {
        Ok(start)
    } else {
        match read_attributes(doc, attributes.drop_last(), buffers, start) {
            Err(e) => Err(e),
            Ok(m) => {
                let (semantic, accessor) = attributes.last();
                match semantic {
                    Semantic::Positions => match accessor_data(doc, accessor as int, buffers) {
                        Err(e) => Err(e),
                        Ok(d) => Ok(MeshData { positions: d, ..m }),
                    },
                    Semantic::Normals => match accessor_data(doc, accessor as int, buffers) {
                        Err(e) => Err(e),
                        Ok(d) => Ok(MeshData { normals: d, ..m }),
                    },
                    Semantic::TexCoords(_) => match accessor_data(doc, accessor as int, buffers) {
                        Err(e) => Err(e),
                        Ok(d) => Ok(MeshData { texture_coordinates: d, ..m }),
                    },
                    _ => Ok(m),
                }
            },
        }
    }
}

/// The mesh data of primitive `p`: its attributes, then its indices, which
/// it must have.
pub open spec fn primitive_mesh(doc: Document, p: Primitive, buffers: Seq<Vec<u8>>) -> Result<
    MeshData,
    MeshError,
> {
    match read_attributes(doc, p.attributes@, buffers, empty_mesh()) {
        Err(e) => Err(e),
        Ok(m) => match p.indices {
            None => Err(MeshError::MissingIndices),
            Some(i) => match accessor_data(doc, i as int, buffers) {
                Err(e) => Err(e),
                Ok(d) => Ok(MeshData { indices: d, ..m }),
            },
        },
    }
}

/// The mesh data of each primitive of `primitives` in turn; the first
/// primitive that fails decides the error.
pub open spec fn primitive_meshes(
    doc: Document,
    primitives: Seq<Primitive>,
    buffers: Seq<Vec<u8>>,
) -> Result<Seq<MeshData>, MeshError>
    decreases primitives.len(),
{
    if primitives.len() == 0 {
        Ok(Seq::empty())
    } else {
        match primitive_meshes(doc, primitives.drop_last(), buffers) {
            Err(e) => Err(e),
            Ok(ms) => match primitive_mesh(doc, primitives.last(), buffers) {
                Err(e) => Err(e),
                Ok(m) => Ok(ms.push(m)),
            },
        }
    }
}

/// Once a prefix of the attributes fails, all of them fail the same way.
proof fn lemma_attribute_error_stays(
    doc: Document,
    attributes: Seq<(Semantic, usize)>,
    buffers: Seq<Vec<u8>>,
    start: MeshData,
    k: int,
)
    requires
        0 <= k <= attributes.len(),
        read_attributes(doc, attributes.take(k), buffers, start).is_err(),
    ensures
        read_attributes(doc, attributes, buffers, start) == read_attributes(
            doc,
            attributes.take(k),
            buffers,
            start,
        ),
    decreases attributes.len(),
{
    if k == attributes.len() {
        assert(attributes.take(k) =~= attributes);
    } else {
        let shorter = attributes.drop_last();
        assert(shorter.take(k) =~= attributes.take(k));
        lemma_attribute_error_stays(doc, shorter, buffers, start, k);
    }
}

/// Once a prefix of the primitives fails, all of them fail the same way.
proof fn lemma_primitive_error_stays(
    doc: Document,
    primitives: Seq<Primitive>,
    buffers: Seq<Vec<u8>>,
    k: int,
)
    requires
        0 <= k <= primitives.len(),
        primitive_meshes(doc, primitives.take(k), buffers).is_err(),
    ensures
        primitive_meshes(doc, primitives, buffers) == primitive_meshes(doc, primitives.take(k), buffers),
    decreases primitives.len(),
{
    if k == primitives.len() {
        assert(primitives.take(k) =~= primitives);
    } else {
        let shorter = primitives.drop_last();
        assert(shorter.take(k) =~= primitives.take(k));
        lemma_primitive_error_stays(doc, shorter, buffers, k);
    }
}

/// Reads meshes out of a glTF document whose buffers are loaded.
pub struct GltfLoader {}

impl GltfLoader {
    /// The bytes that accessor `accessor_index` of `schema` points at in
    /// `buffers`. Sparse accessors and interleaved buffer views are refused.
    pub fn get_accessor_data(
        schema: &Document,
        accessor_index: usize,
        buffers: &Vec<Vec<u8>>,
    ) -> (r: Result<Vec<u8>, MeshError>)
        ensures
            match r {
                Ok(d) => accessor_data(*schema, accessor_index as int, buffers@) == Ok::<
                    Seq<u8>,
                    MeshError,
                >(d@),
                Err(e) => accessor_data(*schema, accessor_index as int, buffers@) == Err::<
                    Seq<u8>,
                    MeshError,
                >(e),
            },
    {
        if accessor_index >= schema.accessors.len() {
            return Err(MeshError::AccessorOutOfRange);
        }
        let accessor = schema.accessors[accessor_index];
        let buffer_view = match accessor.view {
            None => {
                return Err(MeshError::SparseAccessor);
            },
            Some(v) => v,
        };
        if buffer_view.buffer >= buffers.len() {
            return Err(MeshError::BufferOutOfRange);
        }
        if buffer_view.stride.is_some() {
            return Err(MeshError::StridedView);
        }
        let buffer_all_data = &buffers[buffer_view.buffer];
        let buffer_length = buffer_all_data.len();
        let view_end = match buffer_view.offset.checked_add(buffer_view.length) {
            Some(end) => end,
            None => {
                return Err(MeshError::ViewOutOfBounds);
            },
        };
        if view_end > buffer_length {
            return Err(MeshError::ViewOutOfBounds);
        }
        let accessor_length = match accessor.size.checked_mul(accessor.count) {
            Some(n) => n,
            None => {
                proof {
                    assert(accessor.size * accessor.count > buffer_view.length);
                }
                return Err(MeshError::AccessorOutOfBounds);
            },
        };
        let accessor_end = match accessor.offset.checked_add(accessor_length) {
            Some(end) => end,
            None => {
                return Err(MeshError::AccessorOutOfBounds);
            },
        };
        if accessor_end > buffer_view.length {
            return Err(MeshError::AccessorOutOfBounds);
        }
        let start = buffer_view.offset + accessor.offset;
        let end = buffer_view.offset + accessor_end;
        Ok(copy_range(buffer_all_data, start, end))
    }
    /// The mesh data of one primitive: its positions, normals and texture
    /// coordinates, and its indices, which it must have.
    pub fn load_primitive(schema: &Document, primitive: &Primitive, buffers: &Vec<Vec<u8>>) -> (r:
        Result<Mesh, MeshError>)
        ensures
            match r {
                Ok(m) => primitive_mesh(*schema, *primitive, buffers@) == Ok::<MeshData, MeshError>(
                    m@,
                ),
                Err(e) => primitive_mesh(*schema, *primitive, buffers@) == Err::<
                    MeshData,
                    MeshError,
                >(e),
            },
    {
        let ghost attributes = primitive.attributes@;
        let mut mesh = Mesh::new();
        let mut k: usize = 0;
        proof {
            assert(attributes.take(0) =~= Seq::<(Semantic, usize)>::empty());
        }
        while k < primitive.attributes.len()
            invariant
                k <= attributes.len(),
                attributes == primitive.attributes@,
                read_attributes(*schema, attributes.take(k as int), buffers@, empty_mesh()) == Ok::<
                    MeshData,
                    MeshError,
                >(mesh@),
            decreases attributes.len() - k,
        {
            let (semantic, accessor) = primitive.attributes[k];
            proof {
                assert(attributes.take(k + 1).drop_last() =~= attributes.take(k as int));
                assert(attributes.take(k + 1).last() == attributes[k as int]);
            }
            match semantic {
                Semantic::Positions => match GltfLoader::get_accessor_data(schema, accessor, buffers) {
                    Ok(d) => {
                        mesh.positions = d;
                    },
                    Err(e) => {
                        proof {
                            lemma_attribute_error_stays(*schema, attributes, buffers@, empty_mesh(), k + 1);
                        }
                        return Err(e);
                    },
                },
                Semantic::Normals => match GltfLoader::get_accessor_data(schema, accessor, buffers) {
                    Ok(d) => {
                        mesh.normals = d;
                    },
                    Err(e) => {
                        proof {
                            lemma_attribute_error_stays(*schema, attributes, buffers@, empty_mesh(), k + 1);
                        }
                        return Err(e);
                    },
                },
                Semantic::TexCoords(_) => match GltfLoader::get_accessor_data(schema, accessor, buffers) {
                    Ok(d) => {
                        mesh.texture_coordinates = d;
                    },
                    Err(e) => {
                        proof {
                            lemma_attribute_error_stays(*schema, attributes, buffers@, empty_mesh(), k + 1);
                        }
                        return Err(e);
                    },
                },
                _ => {},
            }
            k = k + 1;
        }
        proof {
            assert(attributes.take(k as int) =~= attributes);
        }
        match primitive.indices {
            None => Err(MeshError::MissingIndices),
            Some(i) => match GltfLoader::get_accessor_data(schema, i, buffers) {
                Ok(d) => {
                    mesh.indices = d;
                    Ok(mesh)
                },
                Err(e) => Err(e),
            },
        }
    }

    /// The mesh data of every primitive of `schema`, in order. The first
    /// primitive that cannot be read decides the error.
    pub fn load(schema: &Document, buffers: &Vec<Vec<u8>>) -> (r: Result<Vec<Mesh>, MeshError>)
        ensures
            match r {
                Ok(ms) => primitive_meshes(*schema, schema.primitives@, buffers@) == Ok::<
                    Seq<MeshData>,
                    MeshError,
                >(ms@.map_values(|m: Mesh| m@)),
                Err(e) => primitive_meshes(*schema, schema.primitives@, buffers@) == Err::<
                    Seq<MeshData>,
                    MeshError,
                >(e),
            },
    {
        let ghost primitives = schema.primitives@;
        let mut meshes: Vec<Mesh> = Vec::new();
        let mut k: usize = 0;
        proof {
            assert(primitives.take(0) =~= Seq::<Primitive>::empty());
            assert(meshes@.map_values(|m: Mesh| m@) =~= Seq::<MeshData>::empty());
        }
        while k < schema.primitives.len()
            invariant
                k <= primitives.len(),
                primitives == schema.primitives@,
                primitive_meshes(*schema, primitives.take(k as int), buffers@) == Ok::<
                    Seq<MeshData>,
                    MeshError,
                >(meshes@.map_values(|m: Mesh| m@)),
            decreases primitives.len() - k,
        {
            proof {
                assert(primitives.take(k + 1).drop_last() =~= primitives.take(k as int));
                assert(primitives.take(k + 1).last() == primitives[k as int]);
            }
            match GltfLoader::load_primitive(schema, &schema.primitives[k], buffers) {
                Ok(mesh) => {
                    let ghost before = meshes@;
                    meshes.push(mesh);
                    proof {
                        assert(meshes@.map_values(|m: Mesh| m@) =~= before.map_values(
                            |m: Mesh| m@,
                        ).push(mesh@));
                    }
                },
                Err(e) => {
                    proof {
                        lemma_primitive_error_stays(*schema, primitives, buffers@, k + 1);
                    }
                    return Err(e);
                },
            }
            k = k + 1;
        }
        proof {
            assert(primitives.take(k as int) =~= primitives);
        }
        Ok(meshes)
    }
}

} // verus!
