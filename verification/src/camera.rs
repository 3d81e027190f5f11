use vstd::prelude::*;

verus! {

/// The keys that steer the camera.
#[derive(Clone, Copy, Debug, PartialEq, Eq, Structural)]
pub enum CameraKey {
    KeyW,
    KeyS,
    KeyA,
    KeyD,
    KeyE,
    KeyQ,
    ArrowUp,
    ArrowDown,
    ArrowLeft,
    ArrowRight,
}

/// How a held key moves the camera during one frame, as signs that the
/// frame's speed scales: a move along the camera's right, up and forward
/// axes, or a turn in pitch or in yaw.
#[derive(Clone, Copy, Debug, PartialEq, Eq, Structural)]
pub enum CameraMotion {
    Move { right: i8, up: i8, forward: i8 },
    Pitch(i8),
    Yaw(i8),
}

/// The motion that each steering key stands for.
pub open spec fn spec_camera_motion(key: CameraKey) -> CameraMotion {
    match key {
        CameraKey::KeyW => CameraMotion::Move { right: 0, up: 0, forward: 1 },
        CameraKey::KeyS => CameraMotion::Move { right: 0, up: 0, forward: -1i8 },
        CameraKey::KeyA => CameraMotion::Move { right: -1i8, up: 0, forward: 0 },
        CameraKey::KeyD => CameraMotion::Move { right: 1, up: 0, forward: 0 },
        CameraKey::KeyE => CameraMotion::Move { right: 0, up: 1, forward: 0 },
        CameraKey::KeyQ => CameraMotion::Move { right: 0, up: -1i8, forward: 0 },
        CameraKey::ArrowUp => CameraMotion::Pitch(1),
        CameraKey::ArrowDown => CameraMotion::Pitch(-1i8),
        CameraKey::ArrowLeft => CameraMotion::Yaw(-1i8),
        CameraKey::ArrowRight => CameraMotion::Yaw(1),
    }
}

/// The motion that a held steering key applies each frame.
pub fn camera_motion(key: CameraKey) -> (res: CameraMotion)
    ensures
        res == spec_camera_motion(key),
{
    match key {
        CameraKey::KeyW => CameraMotion::Move { right: 0, up: 0, forward: 1 },
        CameraKey::KeyS => CameraMotion::Move { right: 0, up: 0, forward: -1i8 },
        CameraKey::KeyA => CameraMotion::Move { right: -1i8, up: 0, forward: 0 },
        CameraKey::KeyD => CameraMotion::Move { right: 1, up: 0, forward: 0 },
        CameraKey::KeyE => CameraMotion::Move { right: 0, up: 1, forward: 0 },
        CameraKey::KeyQ => CameraMotion::Move { right: 0, up: -1i8, forward: 0 },
        CameraKey::ArrowUp => CameraMotion::Pitch(1),
        CameraKey::ArrowDown => CameraMotion::Pitch(-1i8),
        CameraKey::ArrowLeft => CameraMotion::Yaw(-1i8),
        CameraKey::ArrowRight => CameraMotion::Yaw(1),
    }
}

/// Opposite keys cancel: W and S, A and D, E and Q, the up and down arrows,
/// and the left and right arrows stand for opposite motions.
pub proof fn lemma_opposite_keys_cancel()
    ensures
        motion_sum(spec_camera_motion(CameraKey::KeyW), spec_camera_motion(CameraKey::KeyS)),
        motion_sum(spec_camera_motion(CameraKey::KeyA), spec_camera_motion(CameraKey::KeyD)),
        motion_sum(spec_camera_motion(CameraKey::KeyE), spec_camera_motion(CameraKey::KeyQ)),
        motion_sum(spec_camera_motion(CameraKey::ArrowUp), spec_camera_motion(CameraKey::ArrowDown)),
        motion_sum(spec_camera_motion(CameraKey::ArrowLeft), spec_camera_motion(CameraKey::ArrowRight)),
{
}

/// `a` and `b` are motions of the same kind whose signs add up to nothing.
pub open spec fn motion_sum(a: CameraMotion, b: CameraMotion) -> bool {
    match (a, b) {
        (
            CameraMotion::Move { right: r1, up: u1, forward: f1 },
            CameraMotion::Move { right: r2, up: u2, forward: f2 },
        ) => r1 + r2 == 0 && u1 + u2 == 0 && f1 + f2 == 0,
        (CameraMotion::Pitch(p1), CameraMotion::Pitch(p2)) => p1 + p2 == 0,
        (CameraMotion::Yaw(y1), CameraMotion::Yaw(y2)) => y1 + y2 == 0,
        _ => false,
    }
}

} // verus!
