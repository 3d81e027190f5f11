use mesh_renderer::buffer::ModelBufferWrite;
use mesh_renderer::draw::DrawStep;
use mesh_renderer::frame::{CurrentRenderFrame, FrameAction};
use mesh_renderer::pipeline::{DrawMethod, PipelineType};
use mesh_renderer::state::{MeshInstance, RenderCommand, StateManager};

type Model = [f32; 16];

fn model(x: f32) -> Model {
    let mut m = [0.0; 16];
    m[0] = 1.0;
    m[5] = 1.0;
    m[10] = 1.0;
    m[15] = 1.0;
    m[12] = x;
    m
}

fn state_with_two_meshes() -> StateManager<u32, Model, u32> {
    let mut st = StateManager::new(0u32);
    assert_eq!(st.push_mesh(100, 101, 36), 0);
    assert_eq!(st.push_mesh(200, 201, 6), 1);
    st
}

#[test]
fn new_state_is_empty() {
    let st: StateManager<u32, Model, u32> = StateManager::new(9);
    assert!(st.commands.is_empty());
    assert!(st.meshes.is_empty());
    assert!(st.batches.is_empty());
    assert_eq!(st.last_camera, 9);
}

#[test]
fn uploaded_meshes_get_consecutive_ids() {
    let mut st: StateManager<u32, Model, u32> = StateManager::new(0);
    for k in 0..5usize {
        let id = st.push_mesh(k as u32, k as u32 + 10, 3 * k);
        assert_eq!(id, k);
        assert_eq!(st.meshes[id].vertices_buf, k as u32);
        assert_eq!(st.meshes[id].indices_buf, k as u32 + 10);
        assert_eq!(st.meshes[id].index_count, 3 * k as u32);
    }
    assert_eq!(st.meshes.len(), 5);
}

#[test]
fn index_count_wraps_to_32_bits() {
    let mut st: StateManager<u32, Model, u32> = StateManager::new(0);
    let len = (u32::MAX as usize).wrapping_add(6);
    let id = st.push_mesh(1, 2, len);
    assert_eq!(st.meshes[id].index_count, len as u32);
}

#[test]
fn submitted_objects_queue_in_order() {
    let mut st = state_with_two_meshes();
    st.submit_object(1, model(1.0), DrawMethod::Lines);
    st.submit_object(0, model(2.0), DrawMethod::Triangles);
    assert_eq!(st.commands.len(), 2);
    let RenderCommand::Object { id, transform, draw_method } = &st.commands[0];
    assert_eq!((*id, *transform, *draw_method), (1, model(1.0), DrawMethod::Lines));
    let RenderCommand::Object { id, transform, draw_method } = &st.commands[1];
    assert_eq!((*id, *transform, *draw_method), (0, model(2.0), DrawMethod::Triangles));
}

#[test]
fn batches_group_instances_per_mesh_in_order() {
    let mut st = state_with_two_meshes();
    st.submit_object(0, model(1.0), DrawMethod::Triangles);
    st.submit_object(1, model(2.0), DrawMethod::Triangles);
    st.submit_object(0, model(3.0), DrawMethod::Triangles);
    st.submit_object(7, model(4.0), DrawMethod::Triangles);
    st.batch_commands();
    assert_eq!(st.batches.len(), 3);
    let models = |id: usize| -> Vec<Model> {
        st.batches[&id].iter().map(|i: &MeshInstance<Model>| i.model).collect()
    };
    assert_eq!(models(0), vec![model(1.0), model(3.0)]);
    assert_eq!(models(1), vec![model(2.0)]);
    assert_eq!(models(7), vec![model(4.0)]);
    assert_eq!(st.commands.len(), 4);
}

#[test]
fn batching_again_drops_old_batches() {
    let mut st = state_with_two_meshes();
    st.submit_object(0, model(1.0), DrawMethod::Triangles);
    st.batch_commands();
    st.commands.clear();
    st.submit_object(1, model(2.0), DrawMethod::Triangles);
    st.batch_commands();
    assert_eq!(st.batches.len(), 1);
    assert!(st.batches.get(&0).is_none());
    assert_eq!(st.batches[&1].len(), 1);
}

#[test]
fn drawing_a_frame_follows_the_commands() {
    let mut st = state_with_two_meshes();
    st.submit_object(0, model(1.0), DrawMethod::Triangles);
    st.submit_object(1, model(2.0), DrawMethod::Lines);
    st.submit_object(0, model(3.0), DrawMethod::Triangles);
    let frame = CurrentRenderFrame::Success(());
    let plan = st.draw(&frame, 64, 5, true, false);
    assert_eq!(plan.action, FrameAction::Draw);
    assert_eq!(plan.initial_pipeline, PipelineType::Mesh);
    assert_eq!(
        plan.steps,
        vec![
            DrawStep {
                mesh: 0,
                model_buffer: ModelBufferWrite::Grow(128),
                write_camera: true,
                pipeline: None,
                index_count: 36,
                instance_count: 2,
            },
            DrawStep {
                mesh: 1,
                model_buffer: ModelBufferWrite::Write,
                write_camera: false,
                pipeline: Some(PipelineType::Mesh),
                index_count: 6,
                instance_count: 1,
            },
            DrawStep {
                mesh: 0,
                model_buffer: ModelBufferWrite::Write,
                write_camera: false,
                pipeline: None,
                index_count: 36,
                instance_count: 2,
            },
        ]
    );
    assert_eq!(plan.model_sbuf_size, 128);
    assert!(st.commands.is_empty());
    assert_eq!(st.last_camera, 5);
    assert_eq!(st.batches[&0].len(), 2);
}

#[test]
fn unchanged_camera_is_not_uploaded() {
    let mut st = state_with_two_meshes();
    st.submit_object(0, model(1.0), DrawMethod::Triangles);
    st.submit_object(1, model(2.0), DrawMethod::Triangles);
    let plan = st.draw(&CurrentRenderFrame::Success(()), 8192, 0, false, false);
    assert!(plan.steps.iter().all(|s| !s.write_camera));
    assert!(plan.steps.iter().all(|s| s.model_buffer == ModelBufferWrite::Write));
    assert_eq!(plan.model_sbuf_size, 8192);
    assert_eq!(st.last_camera, 0);
}

#[test]
fn camera_unequal_to_itself_is_uploaded_for_every_command() {
    let mut st = state_with_two_meshes();
    st.submit_object(0, model(1.0), DrawMethod::Triangles);
    st.submit_object(1, model(2.0), DrawMethod::Triangles);
    st.submit_object(1, model(3.0), DrawMethod::Triangles);
    let plan = st.draw(&CurrentRenderFrame::Success(()), 8192, 4, true, true);
    assert!(plan.steps.iter().all(|s| s.write_camera));
    assert_eq!(st.last_camera, 4);
}

#[test]
fn skipped_frame_drops_the_commands() {
    let mut st = state_with_two_meshes();
    st.submit_object(0, model(1.0), DrawMethod::Triangles);
    st.submit_object(5, model(2.0), DrawMethod::Triangles);
    let plan = st.draw::<()>(&CurrentRenderFrame::Timeout, 64, 3, true, false);
    assert_eq!(plan.action, FrameAction::Skip);
    assert!(plan.steps.is_empty());
    assert_eq!(plan.model_sbuf_size, 64);
    assert!(st.commands.is_empty());
    assert_eq!(st.last_camera, 0);
    assert_eq!(st.batches.len(), 2);
}

#[test]
fn outdated_and_lost_frames_ask_for_surface_work() {
    let mut st = state_with_two_meshes();
    st.submit_object(0, model(1.0), DrawMethod::Triangles);
    let plan = st.draw::<()>(&CurrentRenderFrame::Outdated, 64, 3, true, false);
    assert_eq!(plan.action, FrameAction::Reconfigure);
    assert!(st.commands.is_empty());
    st.submit_object(0, model(1.0), DrawMethod::Triangles);
    let plan = st.draw::<()>(&CurrentRenderFrame::Lost, 64, 3, true, false);
    assert_eq!(plan.action, FrameAction::RecreateAndReconfigure);
    assert!(plan.steps.is_empty());
}

#[test]
fn empty_queue_draws_nothing_and_keeps_the_camera() {
    let mut st = state_with_two_meshes();
    let plan = st.draw(&CurrentRenderFrame::Success(()), 64, 8, true, false);
    assert_eq!(plan.action, FrameAction::Draw);
    assert!(plan.steps.is_empty());
    assert_eq!(st.last_camera, 0);
    assert_eq!(plan.model_sbuf_size, 64);
}

#[test]
fn instance_buffer_grows_only_as_needed_during_a_frame() {
    let mut st = state_with_two_meshes();
    for k in 0..3 {
        st.submit_object(1, model(k as f32), DrawMethod::Triangles);
    }
    for k in 0..5 {
        st.submit_object(0, model(k as f32), DrawMethod::Triangles);
    }
    let plan = st.draw(&CurrentRenderFrame::Success(()), 100, 0, false, false);
    assert_eq!(plan.steps[0].model_buffer, ModelBufferWrite::Grow(256));
    assert_eq!(plan.steps[1].model_buffer, ModelBufferWrite::Write);
    assert_eq!(plan.steps[3].model_buffer, ModelBufferWrite::Grow(512));
    assert_eq!(plan.steps[7].model_buffer, ModelBufferWrite::Write);
    assert_eq!(plan.model_sbuf_size, 512);
    assert_eq!(plan.steps[3].instance_count, 5);
}
