use vstd::prelude::*;

verus! {

/// The outcome of asking the surface for the texture of the next frame.
/// `Success` carries the frame that was begun.
pub enum CurrentRenderFrame<F> {
    Success(F),
    Suboptimal,
    Timeout,
    Occluded,
    Outdated,
    Lost,
    Validation,
}

/// What a draw does once it knows how the surface answered.
#[derive(Clone, Copy, Debug, PartialEq, Eq, Structural)]
pub enum FrameAction {
    /// Record and submit the queued commands.
    Draw,
    /// Drop the queued commands and leave the surface as it is.
    Skip,
    /// Drop the queued commands and configure the surface again.
    Reconfigure,
    /// Drop the queued commands, create the surface anew and configure it.
    RecreateAndReconfigure,
}

/// The action that each acquisition outcome calls for.
pub open spec fn spec_frame_action<F>(frame: CurrentRenderFrame<F>) -> FrameAction
    recommends
        !(frame is Validation),
{
    match frame {
        CurrentRenderFrame::Success(_) => FrameAction::Draw,
        CurrentRenderFrame::Timeout => FrameAction::Skip,
        CurrentRenderFrame::Occluded => FrameAction::Skip,
        CurrentRenderFrame::Suboptimal => FrameAction::Reconfigure,
        CurrentRenderFrame::Outdated => FrameAction::Reconfigure,
        CurrentRenderFrame::Lost => FrameAction::RecreateAndReconfigure,
        CurrentRenderFrame::Validation => FrameAction::Skip,
    }
}

/// Maps the outcome of acquiring a frame to what the draw does next.
/// A validation outcome is never handed to it: the surface reports
/// validation errors through the device, so that outcome is a bug.
pub fn frame_action<F>(frame: &CurrentRenderFrame<F>) -> (res: FrameAction)
    requires
        !(*frame is Validation),
    ensures
        res == spec_frame_action(*frame),
        (res == FrameAction::Draw) <==> (*frame is Success),
{
    match frame {
        CurrentRenderFrame::Success(_) => FrameAction::Draw,
        CurrentRenderFrame::Timeout | CurrentRenderFrame::Occluded => FrameAction::Skip,
        CurrentRenderFrame::Suboptimal | CurrentRenderFrame::Outdated => FrameAction::Reconfigure,
        CurrentRenderFrame::Lost => FrameAction::RecreateAndReconfigure,
        CurrentRenderFrame::Validation => FrameAction::Skip,
    }
}

} // verus!
