//! Basic structures of the render plugin: vertices, meshes, the active-mesh
//! selection, and the push-constant block handed to the vertex shader.
//!
//! The GPU reads 32-bit floating-point lanes; here every such lane is carried
//! as the `u32` bit pattern of the value the shader receives. The plugin
//! never computes on these lanes — it only stores, concatenates and hands
//! them on — so the bit patterns travel through unchanged.

use vstd::prelude::*;

verus! {

/// Index into a mesh's own vertex list, zero-based.
pub type IndexType = u16;

/// Bit pattern of the 32-bit floating-point value one.
pub const ONE_BITS: u32 = 0x3F80_0000;

/// Vertex of a tessellated shape: a 2D position and an RGBA colour, each
/// component the bit pattern of the 32-bit lane the GPU reads.
#[derive(Clone, Copy, Debug, PartialEq)]
pub struct VertexType {
    /// 2D position of the vertex.
    pub position: [u32; 2],
    /// Colour of the vertex, as red, green, blue, alpha.
    pub colour: [u32; 4],
}

/// Vertex arguments in the layout the pipeline's vertex format declares:
/// position first, colour second.
#[derive(Clone, Copy, Debug, PartialEq)]
pub struct CustomArgs {
    /// Position lanes.
    pub pos: [u32; 2],
    /// Colour lanes.
    pub color: [u32; 4],
}

/// The shader-facing arguments that one vertex contributes.
pub open spec fn vertex_args(v: VertexType) -> CustomArgs {
    CustomArgs { pos: v.position, color: v.colour }
}

/// The shader-facing argument list of a whole vertex list, in order.
pub open spec fn args_of(vs: Seq<VertexType>) -> Seq<CustomArgs>
    decreases vs.len(),
{
    if vs.len() == 0 {
        Seq::empty()
    } else {
        args_of(vs.drop_last()).push(vertex_args(vs.last()))
    }
}

/// Every vertex maps to exactly one argument entry, at the same place,
/// position for position and colour for colour.
pub proof fn lemma_args_of(vs: Seq<VertexType>)
    ensures
        args_of(vs).len() == vs.len(),
        forall|i: int| 0 <= i < vs.len() ==> args_of(vs)[i] == vertex_args(vs[i]),
    decreases vs.len(),
{
    if vs.len() > 0 {
        lemma_args_of(vs.drop_last());
    }
}

/// Component for the triangles to be drawn to the screen: a self-contained
/// triangle mesh. Indices refer to this mesh's own vertex list, zero-based;
/// consolidation never rebases them.
#[derive(Debug)]
pub struct Mesh {
    /// List of vertices contained within the mesh.
    pub vertices: Vec<VertexType>,
    /// Indices for the vertices of each triangle in the mesh.
    pub indices: Vec<IndexType>,
}

impl Mesh {
    /// Returns the vertex arguments expected by the vertex shader, one per
    /// vertex, in vertex order.
    pub fn get_args(&self) -> (r: Vec<CustomArgs>)
        ensures
            r@ == args_of(self.vertices@),
    {
        let mut r: Vec<CustomArgs> = Vec::new();
        let mut i: usize = 0;
        proof {
            assert(r@ =~= args_of(self.vertices@.take(0)));
        }
        while i < self.vertices.len()
            invariant
                i <= self.vertices.len(),
                r@ == args_of(self.vertices@.take(i as int)),
            decreases self.vertices.len() - i,
        {
            let v = self.vertices[i];
            r.push(CustomArgs { pos: v.position, color: v.colour });
            proof {
                let post = self.vertices@.take(i as int + 1);
                assert(post.drop_last() =~= self.vertices@.take(i as int));
                assert(post.last() == self.vertices@[i as int]);
            }
            i = i + 1;
        }
        proof {
            assert(self.vertices@.take(self.vertices@.len() as int) =~= self.vertices@);
        }
        r
    }
}

impl Default for Mesh {
    /// An empty mesh: no vertices, no indices.
    fn default() -> (r: Self)
        ensures
            r.vertices@ == Seq::<VertexType>::empty(),
            r.indices@ == Seq::<IndexType>::empty(),
    {
        Mesh { vertices: Vec::new(), indices: Vec::new() }
    }
}

/// Active mesh resource, used by the renderer to choose which mesh to
/// render. If no active mesh is set, or the named entity owns no mesh,
/// all meshes are rendered.
#[derive(Clone, Copy, Debug, PartialEq)]
pub struct ActiveMesh {
    /// Identifier of the entity whose mesh is to be rendered.
    pub entity: Option<u64>,
}

impl Default for ActiveMesh {
    /// No selection: every mesh takes part in the frame.
    fn default() -> (r: Self)
        ensures
            r.entity is None,
    {
        ActiveMesh { entity: None }
    }
}

/// The push-constant block of the vertex shader: scale in x and y, then
/// translation in x and y, each lane the bit pattern of the 32-bit value
/// the shader reads.
#[derive(Clone, Copy, Debug, PartialEq)]
pub struct PushConstant {
    /// Scale along x.
    pub scale_x: u32,
    /// Scale along y.
    pub scale_y: u32,
    /// Translation along x.
    pub trans_x: u32,
    /// Translation along y.
    pub trans_y: u32,
}

impl PushConstant {
    /// A push constant holding the given scale and translation lanes.
    pub fn new(scale_x: u32, scale_y: u32, trans_x: u32, trans_y: u32) -> (r: Self)
        ensures
            r == (PushConstant { scale_x, scale_y, trans_x, trans_y }),
    {
        PushConstant { scale_x, scale_y, trans_x, trans_y }
    }

    /// The four lanes in the order the shader receives them: scale x,
    /// scale y, translation x, translation y.
    pub fn raw(&self) -> (r: [u32; 4])
        ensures
            r@ == seq![self.scale_x, self.scale_y, self.trans_x, self.trans_y],
    {
        let r: [u32; 4] = [self.scale_x, self.scale_y, self.trans_x, self.trans_y];
        proof {
            assert(r@ =~= seq![self.scale_x, self.scale_y, self.trans_x, self.trans_y]);
        }
        r
    }

    /// The two scale lanes.
    pub fn scale(&self) -> (r: (u32, u32))
        ensures
            r.0 == self.scale_x,
            r.1 == self.scale_y,
    {
        (self.scale_x, self.scale_y)
    }

    /// The two translation lanes.
    pub fn translation(&self) -> (r: (u32, u32))
        ensures
            r.0 == self.trans_x,
            r.1 == self.trans_y,
    {
        (self.trans_x, self.trans_y)
    }

    /// Replace the scale lanes, leaving the translation untouched.
    pub fn set_scale(&mut self, scale: (u32, u32))
        ensures
            final(self).scale_x == scale.0,
            final(self).scale_y == scale.1,
            final(self).trans_x == old(self).trans_x,
            final(self).trans_y == old(self).trans_y,
    {
        self.scale_x = scale.0;
        self.scale_y = scale.1;
    }

    /// Replace the translation lanes, leaving the scale untouched.
    pub fn set_translation(&mut self, translation: (u32, u32))
        ensures
            final(self).trans_x == translation.0,
            final(self).trans_y == translation.1,
            final(self).scale_x == old(self).scale_x,
            final(self).scale_y == old(self).scale_y,
    {
        self.trans_x = translation.0;
        self.trans_y = translation.1;
    }
}

impl Default for PushConstant {
    /// The identity transform: unit scale, zero translation.
    fn default() -> (r: Self)
        ensures
            r == (PushConstant { scale_x: ONE_BITS, scale_y: ONE_BITS, trans_x: 0u32, trans_y: 0u32 }),
    {
        PushConstant { scale_x: ONE_BITS, scale_y: ONE_BITS, trans_x: 0, trans_y: 0 }
    }
}

} // verus!
