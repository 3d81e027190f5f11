use mesh_renderer::frame::{frame_action, CurrentRenderFrame, FrameAction};
use mesh_renderer::pipeline::{initial_pipeline, pipeline_switch, DrawMethod, PipelineType};

#[test]
fn acquired_frame_is_drawn() {
    assert_eq!(frame_action(&CurrentRenderFrame::Success(7u8)), FrameAction::Draw);
}

#[test]
fn timeout_and_occlusion_skip_the_frame() {
    assert_eq!(frame_action::<u8>(&CurrentRenderFrame::Timeout), FrameAction::Skip);
    assert_eq!(frame_action::<u8>(&CurrentRenderFrame::Occluded), FrameAction::Skip);
}

#[test]
fn suboptimal_and_outdated_reconfigure_the_surface() {
    assert_eq!(frame_action::<u8>(&CurrentRenderFrame::Suboptimal), FrameAction::Reconfigure);
    assert_eq!(frame_action::<u8>(&CurrentRenderFrame::Outdated), FrameAction::Reconfigure);
}

#[test]
fn lost_surface_is_recreated() {
    assert_eq!(frame_action::<u8>(&CurrentRenderFrame::Lost), FrameAction::RecreateAndReconfigure);
}

#[test]
fn pass_starts_with_the_mesh_pipeline() {
    assert_eq!(initial_pipeline(), PipelineType::Mesh);
}

#[test]
fn only_non_triangle_commands_rebind_the_pipeline() {
    assert_eq!(pipeline_switch(DrawMethod::Triangles), None);
    assert_eq!(pipeline_switch(DrawMethod::Lines), Some(PipelineType::Mesh));
}
