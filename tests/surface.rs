use terrain_flow::surface::{frame_recovery, FrameRecovery, SurfaceError, SurfaceSize};

#[test]
fn zero_sized_resize_is_ignored() {
    let mut s = SurfaceSize::new(1376, 768);
    assert!(!s.resize(0, 500));
    assert_eq!(s, SurfaceSize::new(1376, 768));
    assert!(!s.resize(800, 0));
    assert!(!s.resize(0, 0));
    assert_eq!(s, SurfaceSize::new(1376, 768));
}

#[test]
fn resize_takes_new_size() {
    let mut s = SurfaceSize::new(1376, 768);
    assert!(s.resize(640, 480));
    assert_eq!(s, SurfaceSize::new(640, 480));
}

#[test]
fn surface_errors_recover_by_kind() {
    assert_eq!(frame_recovery(SurfaceError::Lost), FrameRecovery::Reconfigure);
    assert_eq!(frame_recovery(SurfaceError::Outdated), FrameRecovery::Reconfigure);
    assert_eq!(frame_recovery(SurfaceError::Timeout), FrameRecovery::SkipFrame);
    assert_eq!(frame_recovery(SurfaceError::OutOfMemory), FrameRecovery::Exit);
}
