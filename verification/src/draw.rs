use vstd::prelude::*;

use crate::buffer::{
    lemma_next_power_of_two, power_of_two, spec_next_power_of_two,
    model_buffer_write, size_after_write, spec_model_buffer_write, ModelBufferWrite,
};
use crate::frame::{frame_action, spec_frame_action, CurrentRenderFrame, FrameAction};
use crate::pipeline::{pipeline_switch, spec_pipeline_switch, DrawMethod, PipelineType};
use crate::state::{batch_of, batches_match, mesh_effect, StateCall, Mesh, MeshID, MeshInstance, RenderCommand, StateManager};

verus! {

broadcast use vstd::std_specs::hash::group_hash_axioms;

/// What the frame does for one queued command, in order: how the instance
/// buffer is prepared before the mesh's batch is written to it, whether the
/// camera is uploaded, which pipeline (if any) is bound, and the indexed
/// draw call (indices `0..index_count`, instances `0..instance_count`).
#[derive(Clone, Copy, Debug, PartialEq, Eq, Structural)]
pub struct DrawStep {
    pub mesh: MeshID,
    pub model_buffer: ModelBufferWrite,
    pub write_camera: bool,
    pub pipeline: Option<PipelineType>,
    pub index_count: u32,
    pub instance_count: u32,
}

/// What a draw does: the action that the surface's answer called for, the
/// steps of the frame (none unless the action is `Draw`), the pipeline bound
/// when the pass begins, and the instance buffer's size afterwards.
pub struct DrawPlan {
    pub action: FrameAction,
    pub initial_pipeline: PipelineType,
    pub steps: Vec<DrawStep>,
    pub model_sbuf_size: usize,
}

/// Bytes that one instance takes in the instance buffer.
pub open spec fn instance_stride<T>() -> nat {
    vstd::layout::size_of::<MeshInstance<T>>()
}

/// Bytes that the batch of the mesh drawn by command `i` takes.
pub open spec fn required_size<T>(cmds: Seq<RenderCommand<T>>, i: int) -> nat {
    batch_of(cmds, cmds[i].mesh_id()).len() * instance_stride::<T>()
}

/// The size of the instance buffer before command `i` is drawn, when it held
/// `initial` bytes before the first.
pub open spec fn model_size_before<T>(cmds: Seq<RenderCommand<T>>, i: nat, initial: nat) -> nat
    decreases i,
{
    if i == 0 {
        initial
    } else {
        let before = model_size_before(cmds, (i - 1) as nat, initial);
        size_after_write(before, spec_model_buffer_write(before, required_size(cmds, i - 1)))
    }
}

/// The step that command `i` of `cmds` takes.
pub open spec fn spec_draw_step<B, T>(
    cmds: Seq<RenderCommand<T>>,
    meshes: Seq<Mesh<B>>,
    i: int,
    initial_size: nat,
    camera_changed: bool,
    camera_self_unequal: bool,
) -> DrawStep {
    let id = cmds[i].mesh_id();
    DrawStep {
        mesh: id,
        model_buffer: spec_model_buffer_write(
            model_size_before(cmds, i as nat, initial_size),
            required_size(cmds, i),
        ),
        write_camera: camera_changed && (i == 0 || camera_self_unequal),
        pipeline: spec_pipeline_switch(cmds[i].method()),
        index_count: meshes[id as int].index_count,
        instance_count: batch_of(cmds, id).len() as u32,
    }
}

/// The steps of a frame that draws `cmds`.
pub open spec fn spec_draw_steps<B, T>(
    cmds: Seq<RenderCommand<T>>,
    meshes: Seq<Mesh<B>>,
    initial_size: nat,
    camera_changed: bool,
    camera_self_unequal: bool,
) -> Seq<DrawStep> {
    Seq::new(
        cmds.len(),
        |i: int| spec_draw_step(cmds, meshes, i, initial_size, camera_changed, camera_self_unequal),
    )
}

/// Every command draws a mesh that has been uploaded.
pub open spec fn commands_valid<B, T>(cmds: Seq<RenderCommand<T>>, meshes: Seq<Mesh<B>>) -> bool {
    forall|i: int| 0 <= i < cmds.len() ==> #[trigger] cmds[i].mesh_id() < meshes.len()
}

/// No batch of `cmds` takes more bytes than a `Vec` can hold.
pub open spec fn batches_fit<T>(cmds: Seq<RenderCommand<T>>) -> bool {
    forall|id: MeshID| #[trigger] batch_of(cmds, id).len() * instance_stride::<T>() <= isize::MAX
}

impl<B, T: Copy, C> StateManager<B, T, C> {
    /// Draws the queued commands into the frame that the surface answered
    /// with, and empties the queue.
    ///
    /// The commands are batched per mesh first. Unless the surface handed out
    /// a frame, nothing is drawn and the plan says how to recover the surface.
    /// Otherwise each command, in order, writes its mesh's whole batch into
    /// the instance buffer (recreated at the next power of two of the batch's
    /// size when it is too small), uploads the camera when it differs from the
    /// last uploaded one, rebinds the pipeline its draw method calls for, and
    /// draws the mesh's indices once per instance of the batch.
    ///
    /// `camera_changed` is whether `camera` differs from the last uploaded
    /// camera, and `camera_self_unequal` whether `camera` differs from itself.
    pub fn draw<F>(
        &mut self,
        frame: &CurrentRenderFrame<F>,
        model_sbuf_size: usize,
        camera: C,
        camera_changed: bool,
        camera_self_unequal: bool,
    ) -> (plan: DrawPlan)
        requires
            !(*frame is Validation),
            *frame is Success ==> commands_valid(old(self).commands@, old(self).meshes@),
            batches_fit(old(self).commands@),
        ensures
            batches_match(final(self).batches@, old(self).commands@),
            final(self).commands@.len() == 0,
            final(self).meshes@ == old(self).meshes@,
            final(self).meshes@ == mesh_effect(old(self).meshes@, StateCall::<B, T>::Draw),
            plan.model_sbuf_size == size_after_frames(
                seq![(old(self).commands@, plan.action == FrameAction::Draw)],
                model_sbuf_size as nat,
            ),
            plan.action == spec_frame_action(*frame),
            plan.initial_pipeline == PipelineType::Mesh,
            plan.action == FrameAction::Draw ==> {
                &&& plan.steps@ == spec_draw_steps(
                    old(self).commands@,
                    old(self).meshes@,
                    model_sbuf_size as nat,
                    camera_changed,
                    camera_self_unequal,
                )
                &&& plan.model_sbuf_size == model_size_before(
                    old(self).commands@,
                    old(self).commands@.len(),
                    model_sbuf_size as nat,
                )
                &&& plan.steps@.len() == old(self).commands@.len()
                &&& forall|i: int| 0 <= i < old(self).commands@.len() ==> {
                    &&& (#[trigger] plan.steps@[i]).mesh == old(self).commands@[i].mesh_id()
                    &&& plan.steps@[i].index_count
                        == old(self).meshes@[old(self).commands@[i].mesh_id() as int].index_count
                    &&& plan.steps@[i].instance_count == commands_drawing(
                        old(self).commands@,
                        old(self).commands@[i].mesh_id(),
                    ).len() as u32
                    &&& plan.steps@[i].write_camera == (camera_changed && (i == 0
                        || camera_self_unequal))
                    &&& plan.steps@[i].pipeline == (if old(self).commands@[i].method()
                        == DrawMethod::Triangles {
                        None
                    } else {
                        Some(PipelineType::Mesh)
                    })
                }
            },
            (exists|i: int| 0 <= i < plan.steps@.len() && #[trigger] plan.steps@[i].write_camera)
                <==> (plan.action == FrameAction::Draw && old(self).commands@.len() > 0
                && camera_changed),
            plan.action != FrameAction::Draw ==> {
                &&& plan.steps@.len() == 0
                &&& plan.model_sbuf_size == model_sbuf_size
            },
            final(self).last_camera == (if plan.action == FrameAction::Draw
                && old(self).commands@.len() > 0 && camera_changed {
                camera
            } else {
                old(self).last_camera
            }),
    {
        self.batch_commands();
        let action = frame_action(frame);
        let initial_pipeline = crate::pipeline::initial_pipeline();
        let mut steps: Vec<DrawStep> = Vec::new();
        let mut size = model_sbuf_size;
        if action != FrameAction::Draw {
            proof {
                let frames = seq![(old(self).commands@, action == FrameAction::Draw)];
                assert(frames.drop_last() =~= Seq::<(Seq<RenderCommand<T>>, bool)>::empty());
                assert(frames.last() == (old(self).commands@, false));
                assert(size_after_frames(frames.drop_last(), model_sbuf_size as nat) == model_sbuf_size);
                assert(size_after_frames(frames, model_sbuf_size as nat) == model_sbuf_size);
            }
            self.commands.clear();
            return DrawPlan { action, initial_pipeline, steps, model_sbuf_size: size };
        }
        let ghost cmds = self.commands@;
        let n = self.commands.len();
        let mut camera_written = false;
        for i in 0..n
            invariant
                n == cmds.len(),
                self.commands@ == cmds,
                cmds == old(self).commands@,
                self.meshes@ == old(self).meshes@,
                self.last_camera == old(self).last_camera,
                batches_match(self.batches@, cmds),
                commands_valid(cmds, self.meshes@),
                batches_fit(cmds),
                camera_written == (i > 0 && camera_changed),
                size == model_size_before(cmds, i as nat, model_sbuf_size as nat),
                steps@ == spec_draw_steps(
                    cmds,
                    self.meshes@,
                    model_sbuf_size as nat,
                    camera_changed,
                    camera_self_unequal,
                ).take(i as int),
        {
            let (id, draw_method) = match &self.commands[i] {
                RenderCommand::Object { id, draw_method, .. } => (*id, *draw_method),
            };
            assert(id < self.meshes@.len()) by {
                assert(cmds[i as int].mesh_id() < self.meshes@.len());
            }
            assert(self.batches@.contains_key(id)) by {
                assert(cmds[i as int].mesh_id() == id);
                lemma_batch_contains_command(cmds, i as int);
            }
            let instances = self.batches.get(&id).unwrap();
            let count = instances.len();
            assert(count * instance_stride::<T>() <= isize::MAX) by {
                assert(batch_of(cmds, id).len() * instance_stride::<T>() <= isize::MAX);
            }
            let required_size = count * core::mem::size_of::<MeshInstance<T>>();
            let model_buffer = model_buffer_write(size, required_size);
            size = match model_buffer {
                ModelBufferWrite::Write => size,
                ModelBufferWrite::Grow(new_size) => new_size,
            };
            let write_camera = if i == 0 {
                camera_changed
            } else {
                camera_written && camera_self_unequal
            };
            if write_camera {
                camera_written = true;
            }
            let pipeline = pipeline_switch(draw_method);
            let index_count = self.meshes[id].index_count;
            let step = DrawStep {
                mesh: id,
                model_buffer,
                write_camera,
                pipeline,
                index_count,
                instance_count: #[verifier::truncate] (count as u32),
            };
            steps.push(step);
            proof {
                let expected = spec_draw_steps(
                    cmds,
                    self.meshes@,
                    model_sbuf_size as nat,
                    camera_changed,
                    camera_self_unequal,
                );
                assert(step == expected[i as int]);
                assert(steps@ =~= expected.take(i + 1));
            }
        }
        if camera_written {
            self.last_camera = camera;
        }
        proof {
            let frames = seq![(old(self).commands@, action == FrameAction::Draw)];
            assert(frames.drop_last() =~= Seq::<(Seq<RenderCommand<T>>, bool)>::empty());
            assert(frames.last() == (cmds, true));
            assert(size_after_frames(frames.drop_last(), model_sbuf_size as nat) == model_sbuf_size);
            assert(size_after_frames(frames, model_sbuf_size as nat) == model_size_before(
                cmds,
                cmds.len(),
                model_sbuf_size as nat,
            ));
        }
        self.commands.clear();
        proof {
            assert(steps@ =~= spec_draw_steps(
                cmds,
                self.meshes@,
                model_sbuf_size as nat,
                camera_changed,
                camera_self_unequal,
            ));
        }
        proof {
            lemma_steps_follow_commands(
                cmds,
                self.meshes@,
                model_sbuf_size as nat,
                camera_changed,
                camera_self_unequal,
            );
        }
        DrawPlan { action, initial_pipeline, steps, model_sbuf_size: size }
    }
}

/// The mesh that command `i` draws has a nonempty batch.
pub proof fn lemma_batch_contains_command<T>(cmds: Seq<RenderCommand<T>>, i: int)
    requires
        0 <= i < cmds.len(),
    ensures
        batch_of(cmds, cmds[i].mesh_id()).len() > 0,
    decreases cmds.len(),
{
    if i < cmds.len() - 1 {
        lemma_batch_contains_command(cmds.drop_last(), i);
        assert(cmds.drop_last()[i] == cmds[i]);
    }
}

} // verus!

verus! {

/// Under the size limit of a `Vec`, a grown buffer size is the next power of
/// two of the required size and fits in a `usize`.
proof fn lemma_grow_fits(current: nat, required: nat)
    requires
        required <= isize::MAX,
    ensures
        spec_next_power_of_two(required) <= usize::MAX,
        required <= current ==> size_after_write(current, spec_model_buffer_write(current, required)) == current,
        required > current ==> size_after_write(current, spec_model_buffer_write(current, required))
            == spec_next_power_of_two(required),
        size_after_write(current, spec_model_buffer_write(current, required)) >= current,
        size_after_write(current, spec_model_buffer_write(current, required)) >= required,
{
    lemma_next_power_of_two(required);
    assert(isize::MAX * 2 < usize::MAX);
}

/// Before command `i`, the instance buffer still holds at least its size at
/// the start of the frame, and it never shrinks from one command to the next.
pub proof fn lemma_model_size_never_shrinks<T>(cmds: Seq<RenderCommand<T>>, i: nat, j: nat, initial: nat)
    requires
        i <= j <= cmds.len(),
        batches_fit(cmds),
    ensures
        initial <= model_size_before(cmds, i, initial) <= model_size_before(cmds, j, initial),
    decreases j,
{
    if j > 0 {
        let before = model_size_before(cmds, (j - 1) as nat, initial);
        let r = required_size(cmds, j - 1);
        assert(r <= isize::MAX) by {
            assert(batch_of(cmds, cmds[j - 1].mesh_id()).len() * instance_stride::<T>() <= isize::MAX);
        }
        lemma_grow_fits(before, r);
        if i < j {
            lemma_model_size_never_shrinks(cmds, i, (j - 1) as nat, initial);
        } else {
            lemma_model_size_never_shrinks(cmds, 0, (j - 1) as nat, initial);
        }
    }
}

/// Every batch that a frame writes fits in the instance buffer it is
/// written to: after command `i` prepares the buffer, it holds at least the
/// bytes of that command's batch. A buffer that had to grow has the next
/// power of two of the batch's size, which is below twice that size.
pub proof fn lemma_batch_fits_buffer<T>(cmds: Seq<RenderCommand<T>>, i: nat, initial: nat)
    requires
        i < cmds.len(),
        batches_fit(cmds),
    ensures
        model_size_before(cmds, i + 1, initial) >= required_size(cmds, i as int),
        ({
            let before = model_size_before(cmds, i, initial);
            let write = spec_model_buffer_write(before, required_size(cmds, i as int));
            match write {
                ModelBufferWrite::Write => required_size(cmds, i as int) <= before,
                ModelBufferWrite::Grow(size) => {
                    &&& exists|k: nat| power_of_two(k) == size
                    &&& size >= required_size(cmds, i as int) > before
                    &&& size < 2 * required_size(cmds, i as int)
                },
            }
        }),
{
    let before = model_size_before(cmds, i, initial);
    let r = required_size(cmds, i as int);
    assert(r <= isize::MAX) by {
        assert(batch_of(cmds, cmds[i as int].mesh_id()).len() * instance_stride::<T>() <= isize::MAX);
    }
    lemma_grow_fits(before, r);
    lemma_next_power_of_two(r);
    assert(model_size_before(cmds, i + 1, initial) == size_after_write(
        before,
        spec_model_buffer_write(before, r),
    ));
}

/// A camera that equals itself is uploaded at most once per frame: only the
/// first command of the frame can upload it.
pub proof fn lemma_camera_uploaded_at_most_once<B, T>(
    cmds: Seq<RenderCommand<T>>,
    meshes: Seq<Mesh<B>>,
    initial_size: nat,
    camera_changed: bool,
    i: int,
)
    requires
        0 < i < cmds.len(),
    ensures
        !spec_draw_steps(cmds, meshes, initial_size, camera_changed, false)[i].write_camera,
{
}

/// The number of instances that command `i` draws is the number of queued
/// commands that draw the same mesh (wrapped to 32 bits).
pub proof fn lemma_instances_drawn<B, T>(
    cmds: Seq<RenderCommand<T>>,
    meshes: Seq<Mesh<B>>,
    initial_size: nat,
    camera_changed: bool,
    camera_self_unequal: bool,
    i: int,
)
    requires
        0 <= i < cmds.len(),
    ensures
        ({
            let id = cmds[i].mesh_id();
            spec_draw_steps(cmds, meshes, initial_size, camera_changed, camera_self_unequal)[i].instance_count
                == cmds.filter(|c: RenderCommand<T>| c.mesh_id() == id).len() as u32
        }),
{
    let id = cmds[i].mesh_id();
    crate::state::lemma_batch_is_filtered_commands(cmds, id);
}

} // verus!

verus! {

/// The size in bytes of the instance buffer when it is first created: room
/// for the initial number of instances.
pub fn initial_model_sbuf_size<T>() -> (res: usize)
    requires
        instance_stride::<T>() * (crate::buffer::INITIAL_MODEL_INSTANCES as nat) <= usize::MAX,
    ensures
        res == instance_stride::<T>() * (crate::buffer::INITIAL_MODEL_INSTANCES as nat),
{
    core::mem::size_of::<MeshInstance<T>>() * crate::buffer::INITIAL_MODEL_INSTANCES
}

} // verus!

verus! {

/// `n` is a power of two.
pub open spec fn is_power_of_two(n: nat) -> bool {
    exists|k: nat| power_of_two(k) == n
}

/// Within a frame, an instance buffer whose size starts as a power of two
/// keeps a power-of-two size, never below its starting size.
pub proof fn lemma_frame_keeps_power_of_two<T>(cmds: Seq<RenderCommand<T>>, i: nat, start: nat)
    requires
        i <= cmds.len(),
        batches_fit(cmds),
        is_power_of_two(start),
    ensures
        is_power_of_two(model_size_before(cmds, i, start)),
        model_size_before(cmds, i, start) >= start,
    decreases i,
{
    lemma_model_size_never_shrinks(cmds, 0, i, start);
    if i > 0 {
        lemma_frame_keeps_power_of_two(cmds, (i - 1) as nat, start);
        let before = model_size_before(cmds, (i - 1) as nat, start);
        let r = required_size(cmds, i - 1);
        assert(r <= isize::MAX) by {
            assert(batch_of(cmds, cmds[i - 1].mesh_id()).len() * instance_stride::<T>() <= isize::MAX);
        }
        lemma_grow_fits(before, r);
        lemma_next_power_of_two(r);
        if r > before {
            let k = choose|k: nat| power_of_two(k) == spec_next_power_of_two(r);
            assert(power_of_two(k) == model_size_before(cmds, i, start));
        }
    }
}

/// The instance buffer's size after a run of draws that started at `start`:
/// each frame is the queue it drew and whether the surface handed out a
/// texture (a frame that was not drawn keeps the size).
pub open spec fn size_after_frames<T>(frames: Seq<(Seq<RenderCommand<T>>, bool)>, start: nat) -> nat
    decreases frames.len(),
{
    if frames.len() == 0 {
        start
    } else {
        let before = size_after_frames(frames.drop_last(), start);
        let (cmds, drawn) = frames.last();
        if drawn {
            model_size_before(cmds, cmds.len(), before)
        } else {
            before
        }
    }
}

/// Across a run of draws, an instance buffer whose size starts as a power of
/// two never shrinks from one draw to the next, stays a power of two, and
/// never falls below its starting size.
pub proof fn lemma_frames_keep_power_of_two<T>(frames: Seq<(Seq<RenderCommand<T>>, bool)>, start: nat)
    requires
        forall|f: int| 0 <= f < frames.len() ==> batches_fit(#[trigger] frames[f].0),
        is_power_of_two(start),
    ensures
        is_power_of_two(size_after_frames(frames, start)),
        size_after_frames(frames, start) >= start,
        frames.len() > 0 ==> size_after_frames(frames, start) >= size_after_frames(frames.drop_last(), start),
    decreases frames.len(),
{
    if frames.len() > 0 {
        let earlier = frames.drop_last();
        assert forall|f: int| 0 <= f < earlier.len() implies batches_fit(#[trigger] earlier[f].0) by {
            assert(earlier[f] == frames[f]);
        }
        lemma_frames_keep_power_of_two(earlier, start);
        let before = size_after_frames(earlier, start);
        let (cmds, drawn) = frames.last();
        assert(batches_fit(frames[frames.len() - 1].0));
        if drawn {
            lemma_frame_keeps_power_of_two(cmds, cmds.len(), before);
        }
    }
}

/// When one instance takes a power-of-two number of bytes, the buffer's
/// first size (room for the initial number of instances) is a power of two.
pub proof fn lemma_initial_size_is_power_of_two<T>()
    requires
        is_power_of_two(instance_stride::<T>()),
    ensures
        is_power_of_two(instance_stride::<T>() * (crate::buffer::INITIAL_MODEL_INSTANCES as nat)),
{
    let k = choose|k: nat| power_of_two(k) == instance_stride::<T>();
    assert(power_of_two(k + 7) == power_of_two(k) * 128) by {
        reveal_with_fuel(power_of_two, 8);
        assert(power_of_two(k + 7) == 2 * power_of_two((k + 6) as nat));
        assert(power_of_two((k + 6) as nat) == 2 * power_of_two((k + 5) as nat));
        assert(power_of_two((k + 5) as nat) == 2 * power_of_two((k + 4) as nat));
        assert(power_of_two((k + 4) as nat) == 2 * power_of_two((k + 3) as nat));
        assert(power_of_two((k + 3) as nat) == 2 * power_of_two((k + 2) as nat));
        assert(power_of_two((k + 2) as nat) == 2 * power_of_two((k + 1) as nat));
        assert(power_of_two((k + 1) as nat) == 2 * power_of_two(k));
    }
    assert(power_of_two(k + 7) == instance_stride::<T>() * (crate::buffer::INITIAL_MODEL_INSTANCES as nat));
}

} // verus!

verus! {

/// The queued commands that draw mesh `id`, in submission order.
pub open spec fn commands_drawing<T>(cmds: Seq<RenderCommand<T>>, id: MeshID) -> Seq<RenderCommand<T>> {
    cmds.filter(|c: RenderCommand<T>| c.mesh_id() == id)
}

/// Each step of a frame follows its own command: it draws the mesh that
/// the command names, with all of that mesh's indices and once per command
/// that draws the same mesh; it rebinds the mesh pipeline exactly for a
/// command that does not draw triangles; and it uploads a changed camera at
/// the first command (and at every later one only for a camera unequal to
/// itself), whatever happens to the instance buffer. A frame uploads the
/// camera at some step exactly when it has a command and the camera changed.
pub proof fn lemma_steps_follow_commands<B, T>(
    cmds: Seq<RenderCommand<T>>,
    meshes: Seq<Mesh<B>>,
    initial_size: nat,
    camera_changed: bool,
    camera_self_unequal: bool,
)
    ensures
        ({
            let steps = spec_draw_steps(cmds, meshes, initial_size, camera_changed, camera_self_unequal);
            &&& steps.len() == cmds.len()
            &&& forall|i: int| 0 <= i < cmds.len() ==> {
                &&& (#[trigger] steps[i]).mesh == cmds[i].mesh_id()
                &&& steps[i].index_count == meshes[cmds[i].mesh_id() as int].index_count
                &&& steps[i].instance_count == commands_drawing(cmds, cmds[i].mesh_id()).len() as u32
                &&& steps[i].write_camera == (camera_changed && (i == 0 || camera_self_unequal))
                &&& steps[i].pipeline == (if cmds[i].method() == DrawMethod::Triangles {
                    None
                } else {
                    Some(PipelineType::Mesh)
                })
            }
            &&& (exists|i: int| 0 <= i < steps.len() && #[trigger] steps[i].write_camera) <==> (
            cmds.len() > 0 && camera_changed)
        }),
{
    let steps = spec_draw_steps(cmds, meshes, initial_size, camera_changed, camera_self_unequal);
    assert forall|i: int| 0 <= i < cmds.len() implies {
        &&& (#[trigger] steps[i]).mesh == cmds[i].mesh_id()
        &&& steps[i].index_count == meshes[cmds[i].mesh_id() as int].index_count
        &&& steps[i].instance_count == commands_drawing(cmds, cmds[i].mesh_id()).len() as u32
        &&& steps[i].write_camera == (camera_changed && (i == 0 || camera_self_unequal))
        &&& steps[i].pipeline == (if cmds[i].method() == DrawMethod::Triangles {
            None
        } else {
            Some(PipelineType::Mesh)
        })
    } by {
        let id = cmds[i].mesh_id();
        crate::state::lemma_batch_is_filtered_commands(cmds, id);
        assert(batch_of(cmds, id).len() == commands_drawing(cmds, id).len());
    }
    if cmds.len() > 0 && camera_changed {
        assert(steps[0].write_camera);
    }
}

} // verus!

verus! {

/// The instance buffer decision of each step depends only on the bytes of
/// the batch that the step's command draws (one instance per command that
/// draws the same mesh) and the buffer's size after the steps before it: the
/// buffer is written as it is exactly when those bytes fit, and otherwise it
/// is recreated at the one power of two that holds them and is below twice
/// their size. After the step the buffer holds the batch.
pub proof fn lemma_step_buffer_decision<B, T>(
    cmds: Seq<RenderCommand<T>>,
    meshes: Seq<Mesh<B>>,
    initial_size: nat,
    camera_changed: bool,
    camera_self_unequal: bool,
    i: int,
)
    requires
        0 <= i < cmds.len(),
        batches_fit(cmds),
    ensures
        ({
            let step = spec_draw_steps(cmds, meshes, initial_size, camera_changed, camera_self_unequal)[i];
            let bytes = commands_drawing(cmds, cmds[i].mesh_id()).len() * instance_stride::<T>();
            let before = model_size_before(cmds, i as nat, initial_size);
            &&& (step.model_buffer == ModelBufferWrite::Write) <==> bytes <= before
            &&& step.model_buffer is Grow ==> {
                &&& is_power_of_two(step.model_buffer->0 as nat)
                &&& bytes <= step.model_buffer->0 < 2 * bytes
            }
            &&& model_size_before(cmds, (i + 1) as nat, initial_size) == size_after_write(
                before,
                step.model_buffer,
            )
            &&& model_size_before(cmds, (i + 1) as nat, initial_size) >= bytes
        }),
{
    let id = cmds[i].mesh_id();
    crate::state::lemma_batch_is_filtered_commands(cmds, id);
    assert(batch_of(cmds, id).len() == commands_drawing(cmds, id).len());
    lemma_batch_fits_buffer(cmds, i as nat, initial_size);
}

} // verus!
