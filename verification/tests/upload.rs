use hardshare::upload::frame_truncated_at;
use hardshare::upload::{parse_frame, u8vec_to_usize, upload_args, upload_header, usize_to_u8vec, FrameError, Runtime};

#[test]
fn lengths_round_trip() {
    for x in [0usize, 1, 255, 256, 70000, 0xffff_ffff] {
        let v = usize_to_u8vec(x).unwrap();
        assert_eq!(v.len(), 4);
        assert_eq!(u8vec_to_usize(&v), x);
    }
    assert_eq!(usize_to_u8vec(0x0102_0304).unwrap(), vec![4, 3, 2, 1]);
}

#[test]
fn frames_round_trip() {
    let ini = b"[env]\n".to_vec();
    let exe = vec![1u8, 2, 3];
    let mut frame = upload_header(ini.len(), exe.len()).unwrap();
    assert_eq!(frame, vec![0, 0, 6, 0, 0, 0, 3, 0, 0, 0]);
    frame.extend_from_slice(&ini);
    frame.extend_from_slice(&exe);
    let build = parse_frame(&frame).unwrap();
    assert_eq!(build.platformio_ini, ini);
    assert_eq!(build.blob, exe);
}

#[test]
fn frames_refused() {
    assert_eq!(parse_frame(&[0]).unwrap_err(), FrameError::TooSmall);
    assert_eq!(parse_frame(&[1, 0]).unwrap_err(), FrameError::UnknownVersion(1));
    assert_eq!(parse_frame(&[0, 7]).unwrap_err(), FrameError::UnknownCommand(7));
}

#[test]
fn runtimes_and_arguments() {
    assert_eq!(Runtime::from_name("podman"), Ok(Runtime::Podman));
    assert!(Runtime::from_name("lxd").is_err());
    assert_eq!(Runtime::Docker.name(), "docker");
    assert_eq!(
        upload_args("/a/platformio.ini", "/a/fw", "/root/.pio/build", "img", "/dev/ttyACM0"),
        vec![
            "run", "--rm", "-it", "-v", "/a/platformio.ini:/root/platformio.ini:ro", "-v",
            "/a/fw:/root/.pio/build:ro", "--device=/dev/ttyACM0:/dev/ttyACM0", "img", "bash", "-ic",
            "cd $HOME && pio run -t nobuild -t upload"
        ]
    );
}

#[test]
fn truncated_frames() {
    assert!(frame_truncated_at(&[0, 0, 1]));
    assert!(frame_truncated_at(&[0, 0, 6, 0, 0, 0, 3, 0, 0, 0, 1]));
    assert!(!frame_truncated_at(&[0, 0, 1, 0, 0, 0, 0, 0, 0, 0, 9]));
    assert!(!frame_truncated_at(&[1, 0]));
}
