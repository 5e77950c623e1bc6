//! How the fields of a vertex are laid out for the GPU.

use vstd::prelude::*;

verus! {

/// One attribute of a vertex: the shader location it is bound to, and
/// where its bytes lie in a vertex that is `stride` bytes long.
#[derive(Clone, Copy, Debug, PartialEq, Eq, Structural)]
pub struct Attribute {
    pub location: usize,
    pub stride: usize,
    pub offset: usize,
}

/// The bytes that the first `count` fields take.
pub open spec fn size_of_fields(fields: Seq<(usize, usize)>, count: int) -> int
    decreases count,
{
    if count <= 0 {
        0
    } else {
        size_of_fields(fields, count - 1) + fields[count - 1].1
    }
}

/// The attributes of a packed vertex whose fields are given in order, each
/// as its shader location and its size in bytes: every field starts where
/// the one before it ends, and the stride is the size of all of them.
pub fn vertex_attrib_pointers(fields: &Vec<(usize, usize)>) -> (attributes: Vec<Attribute>)
    requires
        size_of_fields(fields@, fields@.len() as int) <= usize::MAX,
    ensures
        attributes@.len() == fields@.len(),
        forall|i: int|
            0 <= i < fields@.len() ==> (#[trigger] attributes@[i]) == (Attribute {
                location: fields@[i].0,
                stride: size_of_fields(fields@, fields@.len() as int) as usize,
                offset: size_of_fields(fields@, i) as usize,
            }),
{
    let mut stride: usize = 0;
    let mut measured: usize = 0;
    proof {
        lemma_sizes_grow(fields@, 0, fields@.len() as int);
    }
    while measured < fields.len()
        invariant
            measured <= fields@.len(),
            stride == size_of_fields(fields@, measured as int),
            size_of_fields(fields@, fields@.len() as int) <= usize::MAX,
        decreases fields@.len() - measured,
    {
        proof {
            lemma_sizes_grow(fields@, measured as int + 1, fields@.len() as int);
        }
        stride = stride + fields[measured].1;
        measured = measured + 1;
    }
    let mut attributes: Vec<Attribute> = Vec::new();
    let mut offset: usize = 0;
    let mut placed: usize = 0;
    while placed < fields.len()
        invariant
            placed <= fields@.len(),
            stride == size_of_fields(fields@, fields@.len() as int),
            offset == size_of_fields(fields@, placed as int),
            attributes@.len() == placed,
            forall|i: int|
                0 <= i < placed ==> (#[trigger] attributes@[i]) == (Attribute {
                    location: fields@[i].0,
                    stride,
                    offset: size_of_fields(fields@, i) as usize,
                }),
        decreases fields@.len() - placed,
    {
        proof {
            lemma_sizes_grow(fields@, placed as int + 1, fields@.len() as int);
            lemma_sizes_grow(fields@, 0, placed as int);
        }
        attributes.push(Attribute { location: fields[placed].0, stride, offset });
        offset = offset + fields[placed].1;
        placed = placed + 1;
    }
    attributes
}

/// More fields take no fewer bytes.
proof fn lemma_sizes_grow(fields: Seq<(usize, usize)>, fewer: int, more: int)
    requires
        0 <= fewer <= more,
    ensures
        0 <= size_of_fields(fields, fewer) <= size_of_fields(fields, more),
    decreases more,
{
    if fewer < more {
        lemma_sizes_grow(fields, fewer, more - 1);
    } else if more > 0 {
        lemma_sizes_grow(fields, fewer - 1, more - 1);
    }
}

} // verus!
