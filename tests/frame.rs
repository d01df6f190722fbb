use instancing::frame::{FrameCommand, RenderState, UploadState};

#[test]
fn fresh_renderer_awaits_upload() {
    let state = RenderState::new();
    assert_eq!(state.state, UploadState::AwaitingUpload);
    assert!(!state.is_steady());
}

#[test]
fn first_frame_copies_then_draws() {
    let mut state = RenderState::new();
    let cmds = state.next_frame();
    assert_eq!(cmds, vec![FrameCommand::CopyInstances, FrameCommand::Clear, FrameCommand::Draw]);
    assert_eq!(state.state, UploadState::Steady);
    assert!(state.is_steady());
}

#[test]
fn copy_happens_once_over_many_frames() {
    let mut state = RenderState::new();
    let mut copies = 0;
    for _ in 0..100 {
        let cmds = state.next_frame();
        assert_eq!(&cmds[cmds.len() - 2..], &[FrameCommand::Clear, FrameCommand::Draw]);
        copies += cmds.iter().filter(|c| **c == FrameCommand::CopyInstances).count();
    }
    assert_eq!(copies, 1);
    assert_eq!(state.state, UploadState::Steady);
}
