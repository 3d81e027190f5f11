use vstd::prelude::*;

verus! {

/// How the surface paces presented frames.
#[derive(Clone, Copy, Debug, PartialEq, Eq, Structural)]
pub enum PresentMode {
    /// Wait for vertical sync, falling back to what the platform offers.
    AutoVsync,
    /// Present without waiting, falling back to what the platform offers.
    AutoNoVsync,
}

/// The part of the surface's configuration that the renderer changes:
/// its size in pixels and its present mode.
#[derive(Clone, Copy, Debug, PartialEq, Eq, Structural)]
pub struct SurfaceSettings {
    pub width: u32,
    pub height: u32,
    pub present_mode: PresentMode,
}

/// The present mode that the vsync switch selects.
pub open spec fn spec_present_mode(is_vsync: bool) -> PresentMode {
    if is_vsync {
        PresentMode::AutoVsync
    } else {
        PresentMode::AutoNoVsync
    }
}

/// A call that changes the surface settings.
#[derive(Clone, Copy, Debug, PartialEq, Eq, Structural)]
pub enum SurfaceCall {
    Resize { width: u32, height: u32 },
    SetVsync(bool),
}

/// The settings after `call`: a resize takes a size with no zero side and
/// ignores any other; the vsync switch selects the present mode.
pub open spec fn surface_effect(settings: SurfaceSettings, call: SurfaceCall) -> SurfaceSettings {
    match call {
        SurfaceCall::Resize { width, height } => if width != 0 && height != 0 {
            SurfaceSettings { width, height, present_mode: settings.present_mode }
        } else {
            settings
        },
        SurfaceCall::SetVsync(is_vsync) => SurfaceSettings {
            present_mode: spec_present_mode(is_vsync),
            ..settings
        },
    }
}

/// The settings after the calls `calls`, made in order.
pub open spec fn settings_after(settings: SurfaceSettings, calls: Seq<SurfaceCall>) -> SurfaceSettings
    decreases calls.len(),
{
    if calls.len() == 0 {
        settings
    } else {
        surface_effect(settings_after(settings, calls.drop_last()), calls.last())
    }
}

/// A surface whose sides are both nonzero keeps both sides nonzero through
/// any run of resizes and vsync switches, and its size is always that of the
/// settings it started with or of one of the resizes.
pub proof fn lemma_size_stays_nonzero(settings: SurfaceSettings, calls: Seq<SurfaceCall>)
    requires
        settings.width != 0,
        settings.height != 0,
    ensures
        settings_after(settings, calls).width != 0,
        settings_after(settings, calls).height != 0,
        (settings_after(settings, calls).width == settings.width
            && settings_after(settings, calls).height == settings.height) || exists|j: int|
            0 <= j < calls.len() && #[trigger] calls[j] == (SurfaceCall::Resize {
                width: settings_after(settings, calls).width,
                height: settings_after(settings, calls).height,
            }),
    decreases calls.len(),
{
    if calls.len() > 0 {
        let earlier = calls.drop_last();
        lemma_size_stays_nonzero(settings, earlier);
        let before = settings_after(settings, earlier);
        let after = settings_after(settings, calls);
        if after.width == before.width && after.height == before.height {
            if !(before.width == settings.width && before.height == settings.height) {
                let j = choose|j: int|
                    0 <= j < earlier.len() && #[trigger] earlier[j] == (SurfaceCall::Resize {
                        width: before.width,
                        height: before.height,
                    });
                assert(calls[j] == earlier[j]);
            }
        } else {
            assert(calls[calls.len() - 1] == (SurfaceCall::Resize { width: after.width, height: after.height }));
        }
    }
}

impl SurfaceSettings {
    /// Settings for a surface of `width` by `height` pixels that waits for vsync.
    pub fn new(width: u32, height: u32) -> (res: Self)
        ensures
            res == (SurfaceSettings { width, height, present_mode: PresentMode::AutoVsync }),
    {
        SurfaceSettings { width, height, present_mode: PresentMode::AutoVsync }
    }

    /// Takes the new window size unless one of its sides is zero (a
    /// minimised window), in which case nothing changes. Returns whether the
    /// size was taken, that is, whether the surface and the depth buffer must
    /// be rebuilt at the new size.
    pub fn resize(&mut self, width: u32, height: u32) -> (applied: bool)
        ensures
            applied == (width != 0 && height != 0),
            applied ==> *final(self) == (SurfaceSettings {
                width,
                height,
                present_mode: old(self).present_mode,
            }),
            !applied ==> *final(self) == *old(self),
    {
        if width == 0 || height == 0 {
            return false;
        }
        self.width = width;
        self.height = height;
        true
    }

    /// Selects the present mode for the vsync switch; the size stays.
    pub fn set_vsync(&mut self, is_vsync: bool)
        ensures
            *final(self) == (SurfaceSettings {
                width: old(self).width,
                height: old(self).height,
                present_mode: spec_present_mode(is_vsync),
            }),
    {
        if is_vsync {
            self.present_mode = PresentMode::AutoVsync;
        } else {
            self.present_mode = PresentMode::AutoNoVsync;
        }
    }
}

} // verus!
