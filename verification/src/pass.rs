//! The per-frame compositing pass: gather the live meshes, filter them by
//! the active-mesh selection, concatenate their vertices and indices into
//! one consolidated buffer each, record the sub-range every mesh occupies,
//! and derive the indexed draw calls.

use vstd::prelude::*;

use crate::utils::{args_of, ActiveMesh, CustomArgs, IndexType, Mesh, PushConstant};

verus! {

/// A mesh together with the entity that owns it, as handed over by the
/// host's storage iteration, in iteration order.
#[derive(Debug)]
pub struct MeshEntry {
    /// Identifier of the owning entity.
    pub entity: u64,
    /// The mesh itself.
    pub mesh: Mesh,
}

/// The half-open vertex and index sub-ranges that one mesh occupies in the
/// consolidated buffers.
#[derive(Clone, Copy, Debug, PartialEq, Eq, Structural)]
pub struct DrawCmdOps {
    /// First slot of the mesh's vertices in the consolidated vertex buffer.
    pub vertex_start: u32,
    /// One past the last slot of the mesh's vertices.
    pub vertex_end: u32,
    /// First slot of the mesh's indices in the consolidated index buffer.
    pub index_start: u32,
    /// One past the last slot of the mesh's indices.
    pub index_end: u32,
}

/// One indexed draw call: the index sub-range to draw and the base-vertex
/// offset that relocates the mesh-local index values into the consolidated
/// vertex buffer. Every call draws instance range zero to one.
#[derive(Clone, Copy, Debug, PartialEq, Eq, Structural)]
pub struct DrawCall {
    /// First index slot of the call.
    pub index_start: u32,
    /// One past the last index slot of the call.
    pub index_end: u32,
    /// Base-vertex offset added by the GPU to every index value.
    pub base_vertex: u32,
}

/// Whether some entry is owned by entity `e`.
pub open spec fn has_entity(ms: Seq<MeshEntry>, e: u64) -> bool {
    exists|i: int| 0 <= i < ms.len() && ms[i].entity == e
}

/// The entries owned by entity `e`, in order.
pub open spec fn only_entity(ms: Seq<MeshEntry>, e: u64) -> Seq<MeshEntry>
    decreases ms.len(),
{
    if ms.len() == 0 {
        Seq::empty()
    } else if ms.last().entity == e {
        only_entity(ms.drop_last(), e).push(ms.last())
    } else {
        only_entity(ms.drop_last(), e)
    }
}

/// The entries that take part in the frame: with a selection naming an
/// entity that owns a mesh, only that entity's entries; otherwise all of
/// them. A selection naming an entity that owns no mesh behaves exactly
/// like no selection.
pub open spec fn selected(ms: Seq<MeshEntry>, active: ActiveMesh) -> Seq<MeshEntry> {
    match active.entity {
        Option::Some(e) => if has_entity(ms, e) {
            only_entity(ms, e)
        } else {
            ms
        },
        Option::None => ms,
    }
}

/// Total number of vertices over a sequence of entries.
pub open spec fn total_vertices(ms: Seq<MeshEntry>) -> int
    decreases ms.len(),
{
    if ms.len() == 0 {
        0
    } else {
        total_vertices(ms.drop_last()) + ms.last().mesh.vertices@.len()
    }
}

/// Total number of indices over a sequence of entries.
pub open spec fn total_indices(ms: Seq<MeshEntry>) -> int
    decreases ms.len(),
{
    if ms.len() == 0 {
        0
    } else {
        total_indices(ms.drop_last()) + ms.last().mesh.indices@.len()
    }
}

/// The consolidated vertex buffer: every entry's shader arguments,
/// concatenated in entry order.
pub open spec fn all_args(ms: Seq<MeshEntry>) -> Seq<CustomArgs>
    decreases ms.len(),
{
    if ms.len() == 0 {
        Seq::empty()
    } else {
        all_args(ms.drop_last()) + args_of(ms.last().mesh.vertices@)
    }
}

/// The consolidated index buffer: every entry's mesh-local indices,
/// concatenated in entry order and never rebased.
pub open spec fn all_indices(ms: Seq<MeshEntry>) -> Seq<IndexType>
    decreases ms.len(),
{
    if ms.len() == 0 {
        Seq::empty()
    } else {
        all_indices(ms.drop_last()) + ms.last().mesh.indices@
    }
}

/// The draw ranges of a sequence of entries: entry `k` occupies the vertex
/// slots from the total vertex count before it up to the total including
/// it, and likewise for indices.
pub open spec fn ranges_of(ms: Seq<MeshEntry>) -> Seq<DrawCmdOps>
    decreases ms.len(),
{
    if ms.len() == 0 {
        Seq::empty()
    } else {
        ranges_of(ms.drop_last()).push(
            (DrawCmdOps {
                vertex_start: total_vertices(ms.drop_last()) as u32,
                vertex_end: total_vertices(ms) as u32,
                index_start: total_indices(ms.drop_last()) as u32,
                index_end: total_indices(ms) as u32,
            }),
        )
    }
}

/// The draw calls of a list of draw ranges: one indexed call per range,
/// drawing its index sub-range with its vertex-range start as base vertex.
pub open spec fn calls_of(cmds: Seq<DrawCmdOps>) -> Seq<DrawCall>
    decreases cmds.len(),
{
    if cmds.len() == 0 {
        Seq::empty()
    } else {
        calls_of(cmds.drop_last()).push(
            (DrawCall {
                index_start: cmds.last().index_start,
                index_end: cmds.last().index_end,
                base_vertex: cmds.last().vertex_start,
            }),
        )
    }
}

/// The consolidated buffers hold exactly the totals: as many shader
/// arguments as there are vertices, and as many index slots as there are
/// indices.
pub proof fn lemma_buffer_lengths(ms: Seq<MeshEntry>)
    ensures
        all_args(ms).len() == total_vertices(ms),
        all_indices(ms).len() == total_indices(ms),
    decreases ms.len(),
{
    if ms.len() > 0 {
        lemma_buffer_lengths(ms.drop_last());
        crate::utils::lemma_args_of(ms.last().mesh.vertices@);
    }
}

/// There is one draw range per composited entry.
pub proof fn lemma_one_range_per_entry(ms: Seq<MeshEntry>)
    ensures
        ranges_of(ms).len() == ms.len(),
    decreases ms.len(),
{
    if ms.len() > 0 {
        lemma_one_range_per_entry(ms.drop_last());
    }
}

/// There is one draw call per draw range.
pub proof fn lemma_one_call_per_range(cmds: Seq<DrawCmdOps>)
    ensures
        calls_of(cmds).len() == cmds.len(),
    decreases cmds.len(),
{
    if cmds.len() > 0 {
        lemma_one_call_per_range(cmds.drop_last());
    }
}

/// Totals are sums of lengths and never negative.
proof fn lemma_totals_nonneg(ms: Seq<MeshEntry>)
    ensures
        0 <= total_vertices(ms),
        0 <= total_indices(ms),
    decreases ms.len(),
{
    if ms.len() > 0 {
        lemma_totals_nonneg(ms.drop_last());
    }
}

/// Extending the processed prefix by entry `k` grows the totals by exactly
/// that entry's own counts.
proof fn lemma_take_succ_totals(ms: Seq<MeshEntry>, k: int)
    requires
        0 <= k < ms.len(),
    ensures
        total_vertices(ms.take(k + 1)) == total_vertices(ms.take(k))
            + ms[k].mesh.vertices@.len(),
        total_indices(ms.take(k + 1)) == total_indices(ms.take(k)) + ms[k].mesh.indices@.len(),
{
    assert(ms.take(k + 1).drop_last() =~= ms.take(k));
    assert(ms.take(k + 1).last() == ms[k]);
}

/// Draw range `k` records exactly the totals of the entries before `k` as
/// its starts, and the totals including `k` as its ends.
pub proof fn lemma_range_at(ms: Seq<MeshEntry>, k: int)
    requires
        0 <= k < ms.len(),
    ensures
        ranges_of(ms)[k] == (DrawCmdOps {
            vertex_start: total_vertices(ms.take(k)) as u32,
            vertex_end: total_vertices(ms.take(k + 1)) as u32,
            index_start: total_indices(ms.take(k)) as u32,
            index_end: total_indices(ms.take(k + 1)) as u32,
        }),
    decreases ms.len(),
{
    lemma_one_range_per_entry(ms.drop_last());
    if k == ms.len() - 1 {
        assert(ms.take(k) =~= ms.drop_last());
        assert(ms.take(k + 1) =~= ms);
    } else {
        lemma_range_at(ms.drop_last(), k);
        assert(ms.drop_last().take(k) =~= ms.take(k));
        assert(ms.drop_last().take(k + 1) =~= ms.take(k + 1));
    }
}

/// Draw call `k` draws exactly range `k`'s index sub-range, with that
/// range's vertex start as its base-vertex offset.
pub proof fn lemma_call_at(cmds: Seq<DrawCmdOps>, k: int)
    requires
        0 <= k < cmds.len(),
    ensures
        calls_of(cmds)[k] == (DrawCall {
            index_start: cmds[k].index_start,
            index_end: cmds[k].index_end,
            base_vertex: cmds[k].vertex_start,
        }),
    decreases cmds.len(),
{
    lemma_one_call_per_range(cmds.drop_last());
    if k < cmds.len() - 1 {
        lemma_call_at(cmds.drop_last(), k);
    }
}

/// The central addressing contract: the sub-ranges recorded for entry `k`
/// hold exactly entry `k`'s own shader arguments and its own, untouched,
/// mesh-local index values.
pub proof fn lemma_ranges_address_own_data(ms: Seq<MeshEntry>, k: int)
    requires
        0 <= k < ms.len(),
    ensures
        all_args(ms).subrange(
            total_vertices(ms.take(k)),
            total_vertices(ms.take(k + 1)),
        ) == args_of(ms[k].mesh.vertices@),
        all_indices(ms).subrange(
            total_indices(ms.take(k)),
            total_indices(ms.take(k + 1)),
        ) == ms[k].mesh.indices@,
    decreases ms.len(),
{
    lemma_totals_nonneg(ms.take(k));
    lemma_take_succ_totals(ms, k);
    lemma_buffer_lengths(ms.drop_last());
    if k == ms.len() - 1 {
        assert(ms.take(k) =~= ms.drop_last());
        assert(ms.take(k + 1) =~= ms);
        lemma_buffer_lengths(ms);
        assert(all_args(ms).subrange(
            total_vertices(ms.take(k)),
            total_vertices(ms.take(k + 1)),
        ) =~= args_of(ms[k].mesh.vertices@));
        assert(all_indices(ms).subrange(
            total_indices(ms.take(k)),
            total_indices(ms.take(k + 1)),
        ) =~= ms[k].mesh.indices@);
    } else {
        lemma_ranges_address_own_data(ms.drop_last(), k);
        assert(ms.drop_last().take(k) =~= ms.take(k));
        assert(ms.drop_last().take(k + 1) =~= ms.take(k + 1));
        lemma_total_take_le(ms.drop_last(), k + 1);
        assert(all_args(ms).subrange(
            total_vertices(ms.take(k)),
            total_vertices(ms.take(k + 1)),
        ) =~= all_args(ms.drop_last()).subrange(
            total_vertices(ms.take(k)),
            total_vertices(ms.take(k + 1)),
        ));
        assert(all_indices(ms).subrange(
            total_indices(ms.take(k)),
            total_indices(ms.take(k + 1)),
        ) =~= all_indices(ms.drop_last()).subrange(
            total_indices(ms.take(k)),
            total_indices(ms.take(k + 1)),
        ));
    }
}

/// With no mesh selected, every entry takes part, and the composited
/// buffers hold the sum of all input vertex counts and of all input index
/// counts, in input order.
pub proof fn lemma_all_records_composited(ms: Seq<MeshEntry>)
    ensures
        selected(ms, (ActiveMesh { entity: None })) == ms,
        all_args(ms).len() == total_vertices(ms),
        all_indices(ms).len() == total_indices(ms),
{
    lemma_buffer_lengths(ms);
}

/// A selection naming an entity that owns no mesh keeps every entry, the
/// same as no selection at all.
pub proof fn lemma_stale_selector_keeps_all(ms: Seq<MeshEntry>, e: u64)
    requires
        forall|i: int| 0 <= i < ms.len() ==> ms[i].entity != e,
    ensures
        selected(ms, (ActiveMesh { entity: Some(e) })) == selected(
            ms,
            (ActiveMesh { entity: None }),
        ),
{
}

/// No entry is owned by `e`: filtering by `e` leaves nothing.
proof fn lemma_only_entity_none(ms: Seq<MeshEntry>, e: u64)
    requires
        forall|i: int| 0 <= i < ms.len() ==> ms[i].entity != e,
    ensures
        only_entity(ms, e) == Seq::<MeshEntry>::empty(),
    decreases ms.len(),
{
    if ms.len() > 0 {
        lemma_only_entity_none(ms.drop_last(), e);
    }
}

/// When entity identifiers are distinct, a selection naming the owner of
/// entry `k` keeps exactly that entry, and its single draw range starts at
/// zero and spans that entry's own vertex and index counts.
pub proof fn lemma_selector_picks_single_record(ms: Seq<MeshEntry>, k: int)
    requires
        0 <= k < ms.len(),
        forall|i: int, j: int| 0 <= i < j < ms.len() ==> ms[i].entity != ms[j].entity,
    ensures
        selected(ms, (ActiveMesh { entity: Some(ms[k].entity) })) == seq![ms[k]],
        ranges_of(selected(ms, (ActiveMesh { entity: Some(ms[k].entity) }))) == seq![
            (DrawCmdOps {
                vertex_start: 0u32,
                vertex_end: ms[k].mesh.vertices@.len() as u32,
                index_start: 0u32,
                index_end: ms[k].mesh.indices@.len() as u32,
            }),
        ],
{
    let e = ms[k].entity;
    assert(has_entity(ms, e));
    lemma_only_entity_single(ms, e, k);
    let sel = seq![ms[k]];
    assert(only_entity(ms, e) =~= sel);
    assert(sel.drop_last() =~= Seq::<MeshEntry>::empty());
    assert(sel.last() == ms[k]);
    assert(total_vertices(sel.drop_last()) == 0);
    assert(total_indices(sel.drop_last()) == 0);
    assert(total_vertices(sel) == ms[k].mesh.vertices@.len());
    assert(total_indices(sel) == ms[k].mesh.indices@.len());
    assert(ranges_of(sel.drop_last()) =~= Seq::<DrawCmdOps>::empty());
    assert(ranges_of(sel) =~= seq![
        (DrawCmdOps {
            vertex_start: 0u32,
            vertex_end: ms[k].mesh.vertices@.len() as u32,
            index_start: 0u32,
            index_end: ms[k].mesh.indices@.len() as u32,
        }),
    ]);
}

/// Entry `k` is the only one owned by `e`: filtering by `e` yields exactly
/// that entry.
proof fn lemma_only_entity_single(ms: Seq<MeshEntry>, e: u64, k: int)
    requires
        0 <= k < ms.len(),
        ms[k].entity == e,
        forall|i: int| 0 <= i < ms.len() && i != k ==> ms[i].entity != e,
    ensures
        only_entity(ms, e) == seq![ms[k]],
    decreases ms.len(),
{
    if k == ms.len() - 1 {
        lemma_only_entity_none(ms.drop_last(), e);
        assert(only_entity(ms, e) =~= seq![ms[k]]);
    } else {
        lemma_only_entity_single(ms.drop_last(), e, k);
    }
}

/// A prefix never holds more vertices or indices than the whole sequence.
proof fn lemma_total_take_le(ms: Seq<MeshEntry>, j: int)
    requires
        0 <= j <= ms.len(),
    ensures
        total_vertices(ms.take(j)) <= total_vertices(ms),
        total_indices(ms.take(j)) <= total_indices(ms),
    decreases ms.len(),
{
    if j == ms.len() {
        assert(ms.take(j) =~= ms);
    } else {
        assert(ms.take(j) =~= ms.drop_last().take(j));
        lemma_total_take_le(ms.drop_last(), j);
    }
}

/// Filtering by an entity never raises the vertex or index totals.
proof fn lemma_only_entity_total_le(ms: Seq<MeshEntry>, e: u64)
    ensures
        total_vertices(only_entity(ms, e)) <= total_vertices(ms),
        total_indices(only_entity(ms, e)) <= total_indices(ms),
    decreases ms.len(),
{
    if ms.len() > 0 {
        lemma_only_entity_total_le(ms.drop_last(), e);
        if ms.last().entity == e {
            let x = only_entity(ms.drop_last(), e);
            assert(x.push(ms.last()).drop_last() =~= x);
        }
    }
}

/// Whether any entry of `meshes` is owned by entity `e`.
fn contains_entity(meshes: &Vec<MeshEntry>, e: u64) -> (r: bool)
    ensures
        r == has_entity(meshes@, e),
{
    let mut i: usize = 0;
    while i < meshes.len()
        invariant
            i <= meshes.len(),
            forall|m: int| 0 <= m < i ==> meshes@[m].entity != e,
        decreases meshes.len() - i,
    {
        if meshes[i].entity == e {
            return true;
        }
        i = i + 1;
    }
    false
}

/// Append every index of `src` to `dst`, in order, without rebasing.
fn extend_indices(dst: &mut Vec<IndexType>, src: &Vec<IndexType>)
    ensures
        final(dst)@ == old(dst)@ + src@,
{
    let mut i: usize = 0;
    proof {
        assert(dst@ =~= old(dst)@ + src@.take(0));
    }
    while i < src.len()
        invariant
            i <= src.len(),
            dst@ == old(dst)@ + src@.take(i as int),
        decreases src.len() - i,
    {
        dst.push(src[i]);
        proof {
            assert(old(dst)@ + src@.take(i as int + 1) =~= (old(dst)@ + src@.take(i as int)).push(
                src@[i as int],
            ));
        }
        i = i + 1;
    }
    proof {
        assert(src@.take(src@.len() as int) =~= src@);
    }
}

/// Per-frame state of the drawing pass: the totals of the previous frame,
/// kept only to derive the change flag, and the push constant handed to the
/// shader with every batch.
#[derive(Debug)]
pub struct DrawCustom {
    /// Total vertex count of the most recent frame.
    pub vertex_count: usize,
    /// Total index count of the most recent frame.
    pub index_count: usize,
    /// Screen-space transform handed to the vertex shader.
    pub constant: PushConstant,
}

impl DrawCustom {
    /// A fresh pass: zero totals and the identity transform.
    pub fn new() -> (r: Self)
        ensures
            r.vertex_count == 0,
            r.index_count == 0,
            r.constant == (PushConstant {
                scale_x: crate::utils::ONE_BITS,
                scale_y: crate::utils::ONE_BITS,
                trans_x: 0u32,
                trans_y: 0u32,
            }),
    {
        DrawCustom { vertex_count: 0, index_count: 0, constant: PushConstant::default() }
    }

    /// Composite one frame: filter the entries by the active-mesh
    /// selection, concatenate the surviving vertices and indices into one
    /// consolidated buffer each, and record the sub-ranges every mesh
    /// occupies. The change flag is true exactly when the total vertex
    /// count or the total index count differs from the previous frame; a
    /// frame with the same totals but different values reports no change.
    ///
    /// Meshes are read only; index values are never rebased.
    pub fn prepare(&mut self, meshes: &Vec<MeshEntry>, active: &ActiveMesh) -> (out: (
        Vec<CustomArgs>,
        Vec<IndexType>,
        Vec<DrawCmdOps>,
        bool,
    ))
        requires
            total_vertices(meshes@) <= u32::MAX as int,
            total_indices(meshes@) <= u32::MAX as int,
        ensures
            ({
                let sel = selected(meshes@, *active);
                &&& out.0@ == all_args(sel)
                &&& out.1@ == all_indices(sel)
                &&& out.2@ == ranges_of(sel)
                &&& out.3 == ((old(self).vertex_count != total_vertices(sel)) || (old(
                    self,
                ).index_count != total_indices(sel)))
                &&& final(self).vertex_count == total_vertices(sel)
                &&& final(self).index_count == total_indices(sel)
                &&& final(self).constant == old(self).constant
            }),
    {
        let ghost sel: Seq<MeshEntry> = selected(meshes@, *active);
        let (filtering, target): (bool, u64) = match active.entity {
            Some(e) => (contains_entity(meshes, e), e),
            None => (false, 0u64),
        };
        proof {
            if filtering {
                assert(sel == only_entity(meshes@, target));
            } else {
                assert(sel == meshes@);
            }
        }

        let mut vertices: Vec<CustomArgs> = Vec::new();
        let mut indices: Vec<IndexType> = Vec::new();
        let mut commands: Vec<DrawCmdOps> = Vec::new();
        let mut vcur: u32 = 0;
        let mut icur: u32 = 0;
        let ghost mut sel_pre: Seq<MeshEntry> = Seq::empty();
        let mut j: usize = 0;
        proof {
            if filtering {
                assert(sel_pre =~= only_entity(meshes@.take(0), target));
            } else {
                assert(sel_pre =~= meshes@.take(0));
            }
            assert(vertices@ =~= all_args(sel_pre));
            assert(indices@ =~= all_indices(sel_pre));
            assert(commands@ =~= ranges_of(sel_pre));
        }
        while j < meshes.len()
            invariant
                j <= meshes.len(),
                sel == selected(meshes@, *active),
                sel == (if filtering {
                    only_entity(meshes@, target)
                } else {
                    meshes@
                }),
                sel_pre == (if filtering {
                    only_entity(meshes@.take(j as int), target)
                } else {
                    meshes@.take(j as int)
                }),
                vertices@ == all_args(sel_pre),
                indices@ == all_indices(sel_pre),
                commands@ == ranges_of(sel_pre),
                vcur == total_vertices(sel_pre),
                icur == total_indices(sel_pre),
                total_vertices(meshes@) <= u32::MAX as int,
                total_indices(meshes@) <= u32::MAX as int,
            decreases meshes.len() - j,
        {
            let ghost pre = sel_pre;
            let keep = !filtering || meshes[j].entity == target;
            proof {
                let post = meshes@.take(j as int + 1);
                assert(post.drop_last() =~= meshes@.take(j as int));
                assert(post.last() == meshes@[j as int]);
                if keep {
                    sel_pre = pre.push(meshes@[j as int]);
                    assert(sel_pre.drop_last() =~= pre);
                    if filtering {
                        assert(sel_pre == only_entity(post, target));
                    } else {
                        assert(sel_pre == post);
                    }
                    // the totals of the processed prefix stay under the
                    // totals of the whole input
                    lemma_total_take_le(meshes@, j as int + 1);
                    if filtering {
                        lemma_only_entity_total_le(post, target);
                    }
                    assert(total_vertices(sel_pre) <= u32::MAX as int);
                    assert(total_indices(sel_pre) <= u32::MAX as int);
                } else {
                    if filtering {
                        assert(only_entity(post, target) == only_entity(
                            meshes@.take(j as int),
                            target,
                        ));
                        sel_pre = pre;
                    }
                }
            }
            if keep {
                let entry = &meshes[j];
                let vlen = entry.mesh.vertices.len();
                let ilen = entry.mesh.indices.len();
                proof {
                    lemma_buffer_lengths(pre);
                    crate::utils::lemma_args_of(meshes@[j as int].mesh.vertices@);
                }
                let vlen32 = vlen as u32;
                let ilen32 = ilen as u32;
                commands.push(DrawCmdOps {
                    vertex_start: vcur,
                    vertex_end: vcur + vlen32,
                    index_start: icur,
                    index_end: icur + ilen32,
                });
                let mut args = entry.mesh.get_args();
                vertices.append(&mut args);
                extend_indices(&mut indices, &entry.mesh.indices);
                vcur = vcur + vlen32;
                icur = icur + ilen32;
                proof {
                    assert(all_args(sel_pre) == all_args(pre) + args_of(
                        meshes@[j as int].mesh.vertices@,
                    ));
                    assert(all_indices(sel_pre) == all_indices(pre)
                        + meshes@[j as int].mesh.indices@);
                    assert(ranges_of(sel_pre) == ranges_of(pre).push(
                        (DrawCmdOps {
                            vertex_start: total_vertices(pre) as u32,
                            vertex_end: total_vertices(sel_pre) as u32,
                            index_start: total_indices(pre) as u32,
                            index_end: total_indices(sel_pre) as u32,
                        }),
                    ));
                }
            }
            j = j + 1;
        }
        proof {
            assert(meshes@.take(meshes@.len() as int) =~= meshes@);
            assert(sel_pre == sel);
            lemma_buffer_lengths(sel);
        }
        let new_vertex_count = vertices.len();
        let new_index_count = indices.len();
        let changed = self.vertex_count != new_vertex_count || self.index_count
            != new_index_count;
        self.vertex_count = new_vertex_count;
        self.index_count = new_index_count;
        (vertices, indices, commands, changed)
    }

    /// The indexed draw calls of one frame: none at all when the frame has
    /// zero vertices, otherwise one call per draw range, drawing its index
    /// sub-range with its vertex-range start as the base-vertex offset.
    pub fn draw_calls(&self, commands: &Vec<DrawCmdOps>) -> (calls: Vec<DrawCall>)
        ensures
            self.vertex_count == 0 ==> calls@ == Seq::<DrawCall>::empty(),
            self.vertex_count != 0 ==> calls@ == calls_of(commands@),
    {
        let mut calls: Vec<DrawCall> = Vec::new();
        if self.vertex_count == 0 {
            proof {
                assert(calls@ =~= Seq::<DrawCall>::empty());
            }
            return calls;
        }
        let mut k: usize = 0;
        proof {
            assert(calls@ =~= calls_of(commands@.take(0)));
        }
        while k < commands.len()
            invariant
                k <= commands.len(),
                calls@ == calls_of(commands@.take(k as int)),
            decreases commands.len() - k,
        {
            let c = commands[k];
            calls.push(DrawCall {
                index_start: c.index_start,
                index_end: c.index_end,
                base_vertex: c.vertex_start,
            });
            proof {
                let post = commands@.take(k as int + 1);
                assert(post.drop_last() =~= commands@.take(k as int));
                assert(post.last() == commands@[k as int]);
            }
            k = k + 1;
        }
        proof {
            assert(commands@.take(commands@.len() as int) =~= commands@);
        }
        calls
    }
}

} // verus!

