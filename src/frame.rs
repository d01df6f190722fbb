//! What each frame asks of the device.
//!
//! The instance data waits in an upload buffer until the first frame, which copies
//! it to the device-local instance buffer. Every frame then clears the target and
//! draws all instances.

use vstd::prelude::*;

verus! {

/// Whether the instance data still waits to be copied to the device.
#[derive(Clone, Copy, Debug, PartialEq, Eq, Structural)]
pub enum UploadState {
    AwaitingUpload,
    Steady,
}

/// A command that a frame issues to the device.
#[derive(Clone, Copy, Debug, PartialEq, Eq, Structural)]
pub enum FrameCommand {
    /// Copy the whole upload buffer into the instance buffer.
    CopyInstances,
    /// Clear the render target to the background color.
    Clear,
    /// Draw the quad once per instance.
    Draw,
}

/// The commands of a frame that starts in state `s`, in order.
pub open spec fn frame_commands(s: UploadState) -> Seq<FrameCommand> {
    match s {
        UploadState::AwaitingUpload => seq![
            FrameCommand::CopyInstances,
            FrameCommand::Clear,
            FrameCommand::Draw,
        ],
        UploadState::Steady => seq![FrameCommand::Clear, FrameCommand::Draw],
    }
}

/// The state after a frame that starts in state `s`: the upload is done.
pub open spec fn next_state(s: UploadState) -> UploadState {
    UploadState::Steady
}

/// The state after `k` frames from state `s`.
pub open spec fn state_after(s: UploadState, k: nat) -> UploadState
    decreases k,
{
    if k == 0 {
        s
    } else {
        state_after(next_state(s), (k - 1) as nat)
    }
}

/// How many copies of the instance data `cmds` holds.
pub open spec fn copy_count(cmds: Seq<FrameCommand>) -> nat
    decreases cmds.len(),
{
    if cmds.len() == 0 {
        0
    } else {
        (if cmds[0] == FrameCommand::CopyInstances {
            1nat
        } else {
            0nat
        }) + copy_count(cmds.drop_first())
    }
}

/// How many copies of the instance data `k` frames from state `s` issue.
pub open spec fn copies_over(s: UploadState, k: nat) -> nat
    decreases k,
{
    if k == 0 {
        0
    } else {
        copy_count(frame_commands(s)) + copies_over(next_state(s), (k - 1) as nat)
    }
}

/// The upload state of a renderer.
#[derive(Clone, Copy, Debug, PartialEq, Eq, Structural)]
pub struct RenderState {
    pub state: UploadState,
}

impl RenderState {
    /// A renderer whose instance data has not yet been copied to the device.
    pub fn new() -> (r: RenderState)
        ensures
            r.state == UploadState::AwaitingUpload,
    {
        RenderState { state: UploadState::AwaitingUpload }
    }

    /// Whether the instance data has been copied to the device.
    pub fn is_steady(&self) -> (r: bool)
        ensures
            r == (self.state == UploadState::Steady),
    {
        self.state == UploadState::Steady
    }

    /// The commands of the next frame, in order: the copy of the instance data if it
    /// still waits, then the clear and the draw. Afterwards the upload is done.
    pub fn next_frame(&mut self) -> (cmds: Vec<FrameCommand>)
        ensures
            cmds@ == frame_commands(old(self).state),
            final(self).state == next_state(old(self).state),
    {
        let mut cmds: Vec<FrameCommand> = Vec::new();
        if self.state == UploadState::AwaitingUpload {
            cmds.push(FrameCommand::CopyInstances);
            self.state = UploadState::Steady;
        }
        cmds.push(FrameCommand::Clear);
        cmds.push(FrameCommand::Draw);
        proof {
            assert(cmds@ =~= frame_commands(old(self).state));
        }
        cmds
    }
}

proof fn lemma_no_copies_when_steady(k: nat)
    ensures
        copies_over(UploadState::Steady, k) == 0,
        state_after(UploadState::Steady, k) == UploadState::Steady,
    decreases k,
{
    if k > 0 {
        lemma_no_copies_when_steady((k - 1) as nat);
        let cmds = frame_commands(UploadState::Steady);
        assert(cmds.drop_first().drop_first() =~= Seq::<FrameCommand>::empty());
        reveal_with_fuel(copy_count, 3);
    }
}

/// A fresh renderer is steady after its first frame, and stays so; over any
/// number `k >= 1` of frames it copies the instance data exactly once.
pub proof fn lemma_single_upload(k: nat)
    requires
        k >= 1,
    ensures
        state_after(UploadState::AwaitingUpload, 1) == UploadState::Steady,
        state_after(UploadState::AwaitingUpload, k) == UploadState::Steady,
        copies_over(UploadState::AwaitingUpload, k) == 1,
{
    lemma_no_copies_when_steady((k - 1) as nat);
    lemma_no_copies_when_steady(0);
    let cmds = frame_commands(UploadState::AwaitingUpload);
    assert(cmds.drop_first().drop_first().drop_first() =~= Seq::<FrameCommand>::empty());
    reveal_with_fuel(copy_count, 4);
    assert(state_after(UploadState::AwaitingUpload, 1) == state_after(UploadState::Steady, 0));
}

} // verus!
