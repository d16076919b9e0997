//! What one frame of input asks of the camera.

use vstd::prelude::*;
use crate::keyboard::Keyboard;

verus! {

/// One camera operation. The rotations and moves are by a fixed step; the
/// camera applies them in the order in which they are listed.
#[derive(Debug, Clone, Copy, PartialEq, Eq, Structural)]
pub enum CameraStep {
    /// Recreate the camera at its starting position and orientation.
    Reset,
    PitchDown,
    PitchUp,
    YawRight,
    YawLeft,
    Forward,
    Backward,
    StrafeLeft,
    StrafeRight,
}

/// `seq![step]` when `held`, else the empty sequence.
pub open spec fn step_if(held: bool, step: CameraStep) -> Seq<CameraStep> {
    if held {
        seq![step]
    } else {
        Seq::empty()
    }
}

/// The steps of one frame: a reset pulse overrides every held button;
/// otherwise each held button adds its step, rotations before moves.
pub open spec fn frame_steps_of(keys: Keyboard) -> Seq<CameraStep> {
    if keys.escape.trigger_pressed {
        seq![CameraStep::Reset]
    } else {
        step_if(keys.down.state, CameraStep::PitchDown)
            + step_if(keys.up.state, CameraStep::PitchUp)
            + step_if(keys.right.state, CameraStep::YawRight)
            + step_if(keys.left.state, CameraStep::YawLeft)
            + step_if(keys.w.state, CameraStep::Forward)
            + step_if(keys.s.state, CameraStep::Backward)
            + step_if(keys.a.state, CameraStep::StrafeLeft)
            + step_if(keys.d.state, CameraStep::StrafeRight)
    }
}

fn push_if(steps: &mut Vec<CameraStep>, held: bool, step: CameraStep)
    ensures
        final(steps)@ == old(steps)@ + step_if(held, step),
{
    if held {
        steps.push(step);
    } else {
        assert(old(steps)@ + step_if(held, step) =~= old(steps)@);
    }
}

/// The camera steps that the keyboard asks for in this frame.
pub fn frame_steps(keys: &Keyboard) -> (r: Vec<CameraStep>)
    ensures
        r@ == frame_steps_of(*keys),
{
    let mut steps: Vec<CameraStep> = Vec::new();
    if keys.escape.trigger_pressed {
        steps.push(CameraStep::Reset);
        assert(steps@ =~= seq![CameraStep::Reset]);
        return steps;
    }
    push_if(&mut steps, keys.down.state, CameraStep::PitchDown);
    push_if(&mut steps, keys.up.state, CameraStep::PitchUp);
    push_if(&mut steps, keys.right.state, CameraStep::YawRight);
    push_if(&mut steps, keys.left.state, CameraStep::YawLeft);
    push_if(&mut steps, keys.w.state, CameraStep::Forward);
    push_if(&mut steps, keys.s.state, CameraStep::Backward);
    push_if(&mut steps, keys.a.state, CameraStep::StrafeLeft);
    push_if(&mut steps, keys.d.state, CameraStep::StrafeRight);
    assert(steps@ =~= frame_steps_of(*keys));
    steps
}

/// A reset pulse wins over any held movement button: the frame then asks for
/// the reset alone.
pub proof fn reset_takes_precedence(keys: Keyboard)
    requires
        keys.escape.trigger_pressed,
    ensures
        frame_steps_of(keys) == seq![CameraStep::Reset],
{
}

} // verus!
