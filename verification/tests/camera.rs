use hardshare::camera::{
    camera_index, capture_command, capture_step, check_camera_index, frame_message, frame_size, CameraDimensions,
    CaptureAction, CaptureCommand,
};

#[test]
fn camera_commands() {
    assert_eq!(capture_command("START"), Some(CaptureCommand::Start));
    assert_eq!(capture_command("STOP"), Some(CaptureCommand::Stop));
    assert_eq!(capture_command("start"), None);
    assert_eq!(capture_step(false, CaptureCommand::Start), CaptureAction::OpenStream);
    assert_eq!(capture_step(true, CaptureCommand::Start), CaptureAction::Nothing);
    assert_eq!(capture_step(true, CaptureCommand::Stop), CaptureAction::StopStream);
    assert_eq!(capture_step(false, CaptureCommand::Stop), CaptureAction::Nothing);
    assert_eq!(capture_step(false, CaptureCommand::Quit), CaptureAction::Quit);
}

#[test]
fn camera_indices() {
    assert_eq!(camera_index("0"), Ok(0));
    assert_eq!(camera_index("/dev/video0"), Err("error parsing camera index: invalid digit found in string".to_string()));
    assert!(check_camera_index(0, 1).is_ok());
    assert_eq!(check_camera_index(2, 2), Err("camera index is out of range: 2".to_string()));
    assert_eq!(frame_size(None), (1280, 720));
    assert_eq!(frame_size(Some(CameraDimensions { width: 640, height: 480 })), (640, 480));
}

#[test]
fn frames_become_data_urls() {
    assert!(frame_message(2, 2, &[0u8; 11]).is_none());
    let rgb = vec![200u8; 2 * 2 * 3];
    let m = frame_message(2, 2, &rgb).unwrap().unwrap();
    assert!(m.starts_with("data:image/jpeg;base64,/9j/"));
    assert!(m.len() > "data:image/jpeg;base64,".len() + 100);
}
