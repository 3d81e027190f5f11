use vstd::prelude::*;

verus! {

/// How the vertices of a mesh are assembled into primitives.
#[derive(Clone, Copy, Debug, PartialEq, Eq, Structural)]
pub enum DrawMethod {
    Triangles,
    Lines,
}

/// The render pipelines that a pass can bind.
#[derive(Clone, Copy, Debug, PartialEq, Eq, Structural)]
pub enum PipelineType {
    Mesh,
    MeshLines,
}

/// The draw method that a render pass is taken to be set up for when it starts.
pub open spec fn spec_initial_draw_method() -> DrawMethod {
    DrawMethod::Triangles
}

/// The pipeline that a render pass binds before its first draw.
pub fn initial_pipeline() -> (res: PipelineType)
    ensures
        res == PipelineType::Mesh,
{
    PipelineType::Mesh
}

/// Which pipeline a command rebinds before it is drawn.
///
/// The draw method that the pass is set up for stays the one it started
/// with, so every command whose method differs from it rebinds; both draw
/// methods select the mesh pipeline.
pub open spec fn spec_pipeline_switch(draw_method: DrawMethod) -> Option<PipelineType> {
    if draw_method == spec_initial_draw_method() {
        None
    } else {
        Some(PipelineType::Mesh)
    }
}

/// The pipeline, if any, to bind before drawing a command with `draw_method`.
pub fn pipeline_switch(draw_method: DrawMethod) -> (res: Option<PipelineType>)
    ensures
        res == spec_pipeline_switch(draw_method),
{
    let last_mesh_draw_method = DrawMethod::Triangles;
    if draw_method != last_mesh_draw_method {
        match draw_method {
            DrawMethod::Triangles => Some(PipelineType::Mesh),
            DrawMethod::Lines => Some(PipelineType::Mesh),
        }
    } else {
        None
    }
}

} // verus!
