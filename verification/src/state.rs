use vstd::prelude::*;
use std::collections::HashMap;

use crate::pipeline::DrawMethod;

verus! {

broadcast use vstd::std_specs::hash::group_hash_axioms;

/// The handle by which an uploaded mesh is drawn: its position in the mesh list.
pub type MeshID = usize;

/// An uploaded mesh: the buffers that hold its vertices and indices, and how
/// many indices it has.
pub struct Mesh<B> {
    pub vertices_buf: B,
    pub indices_buf: B,
    pub index_count: u32,
}

/// One instance of a mesh, placed by its model transform.
pub struct MeshInstance<T> {
    pub model: T,
}

/// A request to draw a mesh in the next frame.
pub enum RenderCommand<T> {
    Object { id: MeshID, transform: T, draw_method: DrawMethod },
}

impl<T> RenderCommand<T> {
    /// The mesh that the command draws.
    pub open spec fn mesh_id(self) -> MeshID {
        match self {
            RenderCommand::Object { id, .. } => id,
        }
    }

    /// Where the command places the mesh.
    pub open spec fn transform(self) -> T {
        match self {
            RenderCommand::Object { transform, .. } => transform,
        }
    }

    /// How the command assembles the mesh's primitives.
    pub open spec fn method(self) -> DrawMethod {
        match self {
            RenderCommand::Object { draw_method, .. } => draw_method,
        }
    }
}

/// The instances that `cmds` draw of mesh `id`, in submission order.
pub open spec fn batch_of<T>(cmds: Seq<RenderCommand<T>>, id: MeshID) -> Seq<MeshInstance<T>>
    decreases cmds.len(),
{
    if cmds.len() == 0 {
        Seq::empty()
    } else {
        let earlier = batch_of(cmds.drop_last(), id);
        if cmds.last().mesh_id() == id {
            earlier.push(MeshInstance { model: cmds.last().transform() })
        } else {
            earlier
        }
    }
}

/// `batches` holds one entry per mesh that `cmds` draw, and that entry is
/// the mesh's batch.
pub open spec fn batches_match<T>(
    batches: Map<MeshID, Vec<MeshInstance<T>>>,
    cmds: Seq<RenderCommand<T>>,
) -> bool {
    &&& forall|id: MeshID| #[trigger]
        batches.contains_key(id) <==> batch_of(cmds, id).len() > 0
    &&& forall|id: MeshID| #[trigger]
        batches.contains_key(id) ==> batches[id]@ == batch_of(cmds, id)
}

/// The renderer's bookkeeping: uploaded meshes, the commands queued for the
/// next frame, the per-mesh batches of the last draw, and the camera that
/// was last uploaded.
pub struct StateManager<B, T, C> {
    pub commands: Vec<RenderCommand<T>>,
    pub meshes: Vec<Mesh<B>>,
    pub batches: HashMap<MeshID, Vec<MeshInstance<T>>>,
    pub last_camera: C,
}

impl<B, T: Copy, C> StateManager<B, T, C> {
    /// An empty state whose last uploaded camera is `last_camera`.
    pub fn new(last_camera: C) -> (res: Self)
        ensures
            res.commands@.len() == 0,
            res.meshes@.len() == 0,
            res.batches@ == Map::<MeshID, Vec<MeshInstance<T>>>::empty(),
            res.last_camera == last_camera,
    {
        StateManager {
            commands: Vec::new(),
            meshes: Vec::new(),
            batches: HashMap::new(),
            last_camera,
        }
    }

    /// Registers an uploaded mesh and returns the id by which it is drawn.
    /// The index count is the number of indices, wrapped to 32 bits.
    pub fn push_mesh(&mut self, vertices_buf: B, indices_buf: B, indices_len: usize) -> (id: MeshID)
        requires
            old(self).meshes@.len() < usize::MAX,
        ensures
            id == old(self).meshes@.len(),
            final(self).meshes@ == old(self).meshes@.push(
                Mesh { vertices_buf, indices_buf, index_count: indices_len as u32 },
            ),
            final(self).meshes@ == mesh_effect(
                old(self).meshes@,
                StateCall::<B, T>::PushMesh { vertices_buf, indices_buf, indices_len },
            ),
            final(self).commands@ == old(self).commands@,
            final(self).batches@ == old(self).batches@,
            final(self).last_camera == old(self).last_camera,
    {
        self.meshes.push(
            Mesh { vertices_buf, indices_buf, index_count: #[verifier::truncate] (indices_len as u32) },
        );
        self.meshes.len() - 1
    }

    /// Queues a request to draw mesh `id` at `transform` in the next frame.
    pub fn submit_object(&mut self, id: MeshID, transform: T, draw_method: DrawMethod)
        ensures
            final(self).commands@ == old(self).commands@.push(
                RenderCommand::Object { id, transform, draw_method },
            ),
            final(self).meshes@ == old(self).meshes@,
            final(self).meshes@ == mesh_effect(
                old(self).meshes@,
                StateCall::<B, T>::SubmitObject { id, transform, draw_method },
            ),
            final(self).batches@ == old(self).batches@,
            final(self).last_camera == old(self).last_camera,
    {
        self.commands.push(RenderCommand::Object { id, transform, draw_method });
    }

    /// Rebuilds the batches from the queued commands: each mesh that a
    /// command draws gets the instances of all its commands, in order.
    pub fn batch_commands(&mut self)
        ensures
            batches_match(final(self).batches@, old(self).commands@),
            final(self).commands@ == old(self).commands@,
            final(self).meshes@ == old(self).meshes@,
            final(self).meshes@ == mesh_effect(old(self).meshes@, StateCall::<B, T>::BatchCommands),
            final(self).last_camera == old(self).last_camera,
    {
        self.batches.clear();
        let n = self.commands.len();
        for i in 0..n
            invariant
                n == self.commands@.len(),
                self.commands@ == old(self).commands@,
                self.meshes@ == old(self).meshes@,
                self.last_camera == old(self).last_camera,
                batches_match(self.batches@, self.commands@.take(i as int)),
        {
            let (id, model) = match &self.commands[i] {
                RenderCommand::Object { id, transform, .. } => (*id, *transform),
            };
            let ghost prev = self.batches@;
            let ghost cmds = self.commands@;
            proof {
                assert(cmds.take(i + 1).drop_last() =~= cmds.take(i as int));
                assert(cmds.take(i + 1).last() == cmds[i as int]);
            }
            let instances = self.batches.entry(id).or_insert(Vec::new());
            instances.push(MeshInstance { model });
            proof {
                let next = cmds.take(i + 1);
                assert forall|k: MeshID| #[trigger]
                    self.batches@.contains_key(k) <==> batch_of(next, k).len() > 0 by {
                }
                assert forall|k: MeshID| #[trigger]
                    self.batches@.contains_key(k) implies self.batches@[k]@ == batch_of(next, k) by {
                }
            }
        }
        proof {
            assert(self.commands@.take(n as int) =~= self.commands@);
        }
    }
}

} // verus!

verus! {

/// The instance that a command contributes to its mesh's batch.
pub open spec fn instance_of<T>(cmd: RenderCommand<T>) -> MeshInstance<T> {
    MeshInstance { model: cmd.transform() }
}

/// The batch of a mesh holds the transforms of exactly the commands that
/// draw that mesh, in the order they were submitted.
pub proof fn lemma_batch_is_filtered_commands<T>(cmds: Seq<RenderCommand<T>>, id: MeshID)
    ensures
        batch_of(cmds, id) == cmds.filter(|c: RenderCommand<T>| c.mesh_id() == id).map_values(
            |c: RenderCommand<T>| instance_of(c),
        ),
    decreases cmds.len(),
{
    reveal(Seq::filter);
    let pred = |c: RenderCommand<T>| c.mesh_id() == id;
    let f = |c: RenderCommand<T>| instance_of(c);
    if cmds.len() > 0 {
        lemma_batch_is_filtered_commands(cmds.drop_last(), id);
        let earlier = cmds.drop_last().filter(pred);
        if pred(cmds.last()) {
            assert(earlier.push(cmds.last()).map_values(f) =~= earlier.map_values(f).push(
                f(cmds.last()),
            ));
        }
    } else {
        assert(cmds.filter(pred).map_values(f) =~= Seq::<MeshInstance<T>>::empty());
    }
}

/// Commands submitted after others add to the end of each mesh's batch:
/// the batch of `a + b` is the batch of `a` followed by the batch of `b`.
pub proof fn lemma_batch_of_append<T>(a: Seq<RenderCommand<T>>, b: Seq<RenderCommand<T>>, id: MeshID)
    ensures
        batch_of(a + b, id) == batch_of(a, id) + batch_of(b, id),
    decreases b.len(),
{
    if b.len() == 0 {
        assert(a + b =~= a);
        assert(batch_of(a, id) + batch_of(b, id) =~= batch_of(a, id));
    } else {
        lemma_batch_of_append(a, b.drop_last(), id);
        assert((a + b).drop_last() =~= a + b.drop_last());
        assert((a + b).last() == b.last());
        if b.last().mesh_id() == id {
            assert(batch_of(a, id) + batch_of(b.drop_last(), id).push(instance_of(b.last()))
                =~= (batch_of(a, id) + batch_of(b.drop_last(), id)).push(instance_of(b.last())));
        }
    }
}

} // verus!

verus! {

/// A call on a `StateManager`, as far as its mesh list is concerned.
pub enum StateCall<B, T> {
    PushMesh { vertices_buf: B, indices_buf: B, indices_len: usize },
    SubmitObject { id: MeshID, transform: T, draw_method: DrawMethod },
    BatchCommands,
    Draw,
}

/// The mesh list after `call`: an upload appends its mesh, every other call
/// keeps the list.
pub open spec fn mesh_effect<B, T>(meshes: Seq<Mesh<B>>, call: StateCall<B, T>) -> Seq<Mesh<B>> {
    match call {
        StateCall::PushMesh { vertices_buf, indices_buf, indices_len } => meshes.push(
            Mesh { vertices_buf, indices_buf, index_count: indices_len as u32 },
        ),
        _ => meshes,
    }
}

/// The mesh list after the calls `calls`, made in order.
pub open spec fn meshes_after<B, T>(meshes: Seq<Mesh<B>>, calls: Seq<StateCall<B, T>>) -> Seq<Mesh<B>>
    decreases calls.len(),
{
    if calls.len() == 0 {
        meshes
    } else {
        mesh_effect(meshes_after(meshes, calls.drop_last()), calls.last())
    }
}

/// How many of `calls` upload a mesh.
pub open spec fn uploads_in<B, T>(calls: Seq<StateCall<B, T>>) -> nat
    decreases calls.len(),
{
    if calls.len() == 0 {
        0
    } else {
        uploads_in(calls.drop_last()) + if calls.last() is PushMesh {
            1nat
        } else {
            0nat
        }
    }
}

/// The mesh that an upload call registers.
pub open spec fn uploaded_mesh<B, T>(call: StateCall<B, T>) -> Mesh<B>
    recommends
        call is PushMesh,
{
    match call {
        StateCall::PushMesh { vertices_buf, indices_buf, indices_len } => Mesh {
            vertices_buf,
            indices_buf,
            index_count: indices_len as u32,
        },
        _ => arbitrary(),
    }
}

/// Each call keeps the meshes already there: the list after a run of calls
/// starts with the list after any earlier part of the run, and grows by one
/// mesh per upload.
pub proof fn lemma_meshes_only_grow<B, T>(meshes: Seq<Mesh<B>>, calls: Seq<StateCall<B, T>>, j: int)
    requires
        0 <= j <= calls.len(),
    ensures
        meshes_after(meshes, calls).len() == meshes.len() + uploads_in(calls),
        meshes_after(meshes, calls.take(j)).len() <= meshes_after(meshes, calls).len(),
        forall|i: int|
            0 <= i < meshes_after(meshes, calls.take(j)).len() ==> #[trigger] meshes_after(
                meshes,
                calls,
            )[i] == meshes_after(meshes, calls.take(j))[i],
    decreases calls.len(),
{
    if calls.len() == 0 {
        assert(calls.take(j) =~= calls);
    } else if j == calls.len() {
        assert(calls.take(j) =~= calls);
        lemma_meshes_only_grow(meshes, calls.drop_last(), 0);
    } else {
        lemma_meshes_only_grow(meshes, calls.drop_last(), j);
        assert(calls.drop_last().take(j) =~= calls.take(j));
    }
}

/// Mesh ids are stable over any run of calls: the upload made as call `j`
/// returns the number of meshes there before it (so a run that starts with
/// no mesh numbers its uploads 0, 1, 2, ...), and after the whole run that
/// id is still in the list and still names the mesh the upload registered.
/// Uploads made later get larger ids.
pub proof fn lemma_mesh_ids_stable<B, T>(meshes: Seq<Mesh<B>>, calls: Seq<StateCall<B, T>>, j: int)
    requires
        0 <= j < calls.len(),
        calls[j] is PushMesh,
    ensures
        meshes_after(meshes, calls.take(j)).len() == meshes.len() + uploads_in(calls.take(j)),
        meshes_after(meshes, calls.take(j)).len() < meshes_after(meshes, calls).len(),
        meshes_after(meshes, calls)[meshes_after(meshes, calls.take(j)).len() as int]
            == uploaded_mesh(calls[j]),
        forall|l: int|
            j < l < calls.len() && (#[trigger] calls[l]) is PushMesh ==> meshes_after(
                meshes,
                calls.take(j),
            ).len() < meshes_after(meshes, calls.take(l)).len(),
{
    let before = meshes_after(meshes, calls.take(j));
    lemma_meshes_only_grow(meshes, calls.take(j), 0);
    assert(calls.take(j + 1).drop_last() =~= calls.take(j));
    assert(calls.take(j + 1).last() == calls[j]);
    assert(meshes_after(meshes, calls.take(j + 1)) == before.push(uploaded_mesh(calls[j])));
    lemma_meshes_only_grow(meshes, calls, j + 1);
    assert(meshes_after(meshes, calls)[before.len() as int] == meshes_after(meshes, calls.take(j + 1))[before.len() as int]);
    assert forall|l: int|
        j < l < calls.len() && (#[trigger] calls[l]) is PushMesh implies before.len() < meshes_after(
            meshes,
            calls.take(l),
        ).len() by {
        lemma_meshes_only_grow(meshes, calls.take(l), j + 1);
        assert(calls.take(l).take(j + 1) =~= calls.take(j + 1));
    }
}

} // verus!
