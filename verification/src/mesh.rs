//! The mesh buffer handed to a renderer, and the merge that aggregates
//! fragments into it.

use vstd::prelude::*;
use bevy::color::Color;
use crate::vector::IVec3;

verus! {

/// A mesh vertex: a corner of the unit cube centred on `block`. `corner`
/// holds the offset from the centre in half units, so the vertex lies at
/// `block + corner / 2`.
#[derive(Clone, Copy, Debug, PartialEq, Eq, Structural)]
pub struct Vertex {
    pub block: IVec3,
    pub corner: IVec3,
}

/// Mathematical content of a [`MeshData`]: three attribute sequences that run
/// in parallel and a list of triangle corners that index into them.
#[verifier::ext_equal]
pub struct MeshView {
    pub vertices: Seq<Vertex>,
    pub normals: Seq<IVec3>,
    pub colors: Seq<Color>,
    pub indices: Seq<u32>,
}

impl MeshView {
    pub open spec fn empty() -> MeshView {
        MeshView {
            vertices: Seq::empty(),
            normals: Seq::empty(),
            colors: Seq::empty(),
            indices: Seq::empty(),
        }
    }

    /// The attribute sequences are aligned, the indices form whole triangles,
    /// every index names a vertex of the buffer, and the vertex count fits
    /// the 32-bit index type.
    pub open spec fn wf(self) -> bool {
        &&& self.normals.len() == self.vertices.len()
        &&& self.colors.len() == self.vertices.len()
        &&& self.vertices.len() <= u32::MAX
        &&& self.indices.len() % 3 == 0
        &&& forall|i: int| 0 <= i < self.indices.len() ==> (#[trigger] self.indices[i]) < self.vertices.len()
    }

    /// The indices of `other` as they stand after `other` was appended to a
    /// buffer that already held `offset` vertices.
    pub open spec fn rebased(indices: Seq<u32>, offset: nat) -> Seq<u32> {
        Seq::new(indices.len(), |i: int| (indices[i] + offset) as u32)
    }

    /// `self` followed by `other`: attributes appended unchanged, the indices
    /// of `other` shifted by the number of vertices `self` holds.
    pub open spec fn merged(self, other: MeshView) -> MeshView {
        MeshView {
            vertices: self.vertices + other.vertices,
            normals: self.normals + other.normals,
            colors: self.colors + other.colors,
            indices: self.indices + Self::rebased(other.indices, self.vertices.len()),
        }
    }
}

/// Indexed triangle mesh: positions, normals and colours per vertex, and
/// three indices per triangle.
pub struct MeshData {
    vertices: Vec<Vertex>,
    normals: Vec<IVec3>,
    colors: Vec<Color>,
    indices: Vec<u32>,
}

impl View for MeshData {
    type V = MeshView;

    closed spec fn view(&self) -> MeshView {
        MeshView {
            vertices: self.vertices@,
            normals: self.normals@,
            colors: self.colors@,
            indices: self.indices@,
        }
    }
}

impl Default for MeshData {
    fn default() -> (mesh: MeshData)
        ensures
            mesh@ == MeshView::empty(),
            mesh@.wf(),
    {
        MeshData::new()
    }
}

impl MeshData {
    /// An empty buffer.
    pub fn new() -> (mesh: MeshData)
        ensures
            mesh@ == MeshView::empty(),
            mesh@.wf(),
    {
        MeshData { vertices: Vec::new(), normals: Vec::new(), colors: Vec::new(), indices: Vec::new() }
    }

    /// The buffer of one quad: four vertices that share a normal and a
    /// colour, and the two triangles `winding` spans between them.
    pub fn quad(corners: [Vertex; 4], normal: IVec3, color: Color, winding: [u32; 6]) -> (mesh: MeshData)
        requires
            forall|i: int| 0 <= i < 6 ==> (#[trigger] winding@[i]) < 4,
        ensures
            mesh@.vertices == corners@,
            mesh@.normals == Seq::new(4, |i: int| normal),
            mesh@.colors == Seq::new(4, |i: int| color),
            mesh@.indices == winding@,
            mesh@.wf(),
    {
        let mut mesh = MeshData::new();
        let mut i: usize = 0;
        while i < 4
            invariant
                i <= 4,
                mesh.vertices@ == corners@.take(i as int),
                mesh.normals@ == Seq::new(i as nat, |k: int| normal),
                mesh.colors@ == Seq::new(i as nat, |k: int| color),
                mesh.indices@ == Seq::<u32>::empty(),
            decreases 4 - i,
        {
            mesh.vertices.push(corners[i]);
            mesh.normals.push(normal);
            mesh.colors.push(color);
            i += 1;
        }
        let mut j: usize = 0;
        while j < 6
            invariant
                j <= 6,
                mesh.vertices@ == corners@.take(4),
                mesh.normals@ == Seq::new(4, |k: int| normal),
                mesh.colors@ == Seq::new(4, |k: int| color),
                mesh.indices@ == winding@.take(j as int),
            decreases 6 - j,
        {
            mesh.indices.push(winding[j]);
            j += 1;
        }
        assert(corners@.take(4) =~= corners@);
        assert(winding@.take(6) =~= winding@);
        mesh
    }

    pub fn vertices(&self) -> (vertices: &Vec<Vertex>)
        ensures
            vertices@ == self@.vertices,
    {
        &self.vertices
    }

    pub fn normals(&self) -> (normals: &Vec<IVec3>)
        ensures
            normals@ == self@.normals,
    {
        &self.normals
    }

    pub fn colors(&self) -> (colors: &Vec<Color>)
        ensures
            colors@ == self@.colors,
    {
        &self.colors
    }

    pub fn indices(&self) -> (indices: &Vec<u32>)
        ensures
            indices@ == self@.indices,
    {
        &self.indices
    }

    /// Whether `other` can still be merged into this buffer without a vertex
    /// index leaving the 32-bit range.
    pub fn can_merge(&self, other: &MeshData) -> (fits: bool)
        ensures
            fits == (self@.vertices.len() + other@.vertices.len() <= u32::MAX),
    {
        let total: u128 = self.vertices.len() as u128 + other.vertices.len() as u128;
        total <= u32::MAX as u128
    }

    /// Appends `other` to this buffer. Positions, normals and colours are
    /// appended unchanged; each index of `other` is shifted by the number of
    /// vertices the buffer held before.
    pub fn merge(&mut self, other: MeshData)
        requires
            old(self)@.wf(),
            other@.wf(),
            old(self)@.vertices.len() + other@.vertices.len() <= u32::MAX,
        ensures
            final(self)@ == old(self)@.merged(other@),
            final(self)@.wf(),
    {
        let ghost before = self@;
        let ghost added = other@;
        let offset: u32 = self.vertices.len() as u32;
        let mut other = other;
        self.vertices.append(&mut other.vertices);
        self.normals.append(&mut other.normals);
        self.colors.append(&mut other.colors);
        let count: usize = other.indices.len();
        let mut i: usize = 0;
        while i < count
            invariant
                i <= count,
                count == added.indices.len(),
                other.indices@ == added.indices,
                added.wf(),
                offset == before.vertices.len(),
                before.vertices.len() + added.vertices.len() <= u32::MAX,
                self.vertices@ == before.vertices + added.vertices,
                self.normals@ == before.normals + added.normals,
                self.colors@ == before.colors + added.colors,
                self.indices@ == before.indices + MeshView::rebased(added.indices, offset as nat).take(i as int),
            decreases count - i,
        {
            let index: u32 = other.indices[i];
            self.indices.push(index + offset);
            proof {
                let shifted = MeshView::rebased(added.indices, offset as nat);
                assert(shifted.take(i as int + 1) =~= shifted.take(i as int).push(shifted[i as int]));
            }
            i += 1;
        }
        proof {
            let shifted = MeshView::rebased(added.indices, offset as nat);
            assert(shifted.take(count as int) =~= shifted);
            lemma_merged_wf(before, added);
        }
    }
}

/// Merging two well-formed buffers whose vertices together fit the index
/// type gives a well-formed buffer.
pub proof fn lemma_merged_wf(a: MeshView, b: MeshView)
    requires
        a.wf(),
        b.wf(),
        a.vertices.len() + b.vertices.len() <= u32::MAX,
    ensures
        a.merged(b).wf(),
        a.merged(b).vertices.len() == a.vertices.len() + b.vertices.len(),
        a.merged(b).indices.len() == a.indices.len() + b.indices.len(),
{
    let m = a.merged(b);
    assert forall|i: int| 0 <= i < m.indices.len() implies (#[trigger] m.indices[i]) < m.vertices.len() by {
        if i >= a.indices.len() {
            let k = i - a.indices.len();
            assert(b.indices[k] < b.vertices.len());
        } else {
            assert(a.indices[i] < a.vertices.len());
        }
    }
}

/// Merging the empty buffer, on either side, changes nothing.
pub proof fn lemma_merge_empty(a: MeshView)
    ensures
        a.merged(MeshView::empty()) == a,
        MeshView::empty().merged(a) == a,
{
    assert(a.merged(MeshView::empty()) =~= a);
    assert(MeshView::empty().merged(a) =~= a);
}

/// The order in which two buffers are merged changes neither the number of
/// vertices nor the number of indices of the result, and the result is
/// well-formed either way.
pub proof fn lemma_merge_order_keeps_counts(a: MeshView, b: MeshView)
    requires
        a.wf(),
        b.wf(),
        a.vertices.len() + b.vertices.len() <= u32::MAX,
    ensures
        a.merged(b).vertices.len() == b.merged(a).vertices.len(),
        a.merged(b).indices.len() == b.merged(a).indices.len(),
        a.merged(b).wf(),
        b.merged(a).wf(),
{
    lemma_merged_wf(a, b);
    lemma_merged_wf(b, a);
}

/// Merging is associative: as long as the vertices of three buffers fit one
/// index range together, it does not matter how the merges are grouped.
pub proof fn lemma_merge_associative(a: MeshView, b: MeshView, c: MeshView)
    requires
        a.wf(),
        b.wf(),
        c.wf(),
        a.vertices.len() + b.vertices.len() + c.vertices.len() <= u32::MAX,
    ensures
        a.merged(b).merged(c) == a.merged(b.merged(c)),
        a.merged(b).merged(c).wf(),
        a.merged(b).merged(c).vertices.len() == a.vertices.len() + b.vertices.len() + c.vertices.len(),
        a.merged(b).merged(c).indices.len() == a.indices.len() + b.indices.len() + c.indices.len(),
{
    lemma_merged_wf(a, b);
    lemma_merged_wf(a.merged(b), c);
    lemma_merged_wf(b, c);
    let left = a.merged(b).merged(c);
    let right = a.merged(b.merged(c));
    assert(left.indices =~= right.indices) by {
        assert forall|i: int| 0 <= i < left.indices.len() implies left.indices[i] == right.indices[i] by {
            if i >= a.indices.len() + b.indices.len() {
                let k = i - a.indices.len() - b.indices.len();
                assert(c.indices[k] < c.vertices.len());
            } else if i >= a.indices.len() {
                let k = i - a.indices.len();
                assert(b.indices[k] < b.vertices.len());
            }
        }
    }
    assert(left =~= right);
}

/// Merging fragments one by one into a buffer gives the same buffer as
/// merging some of them with each other first: the vertex and index counts
/// agree, every index still names a vertex, and so does everything else.
pub proof fn lemma_merge_grouping(acc: MeshView, a: MeshView, b: MeshView, c: MeshView)
    requires
        acc.wf(),
        a.wf(),
        b.wf(),
        c.wf(),
        acc.vertices.len() + a.vertices.len() + b.vertices.len() + c.vertices.len() <= u32::MAX,
    ensures
        acc.merged(a).merged(b).merged(c) == acc.merged(a.merged(b)).merged(c),
        acc.merged(a).merged(b).merged(c).wf(),
        acc.merged(a).merged(b).merged(c).vertices.len() == acc.vertices.len() + a.vertices.len()
            + b.vertices.len() + c.vertices.len(),
        acc.merged(a).merged(b).merged(c).indices.len() == acc.indices.len() + a.indices.len()
            + b.indices.len() + c.indices.len(),
{
    lemma_merge_associative(acc, a, b);
    lemma_merged_wf(acc.merged(a).merged(b), c);
}

} // verus!
