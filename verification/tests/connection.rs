use herdr_gui::connection::{
    best_effort, check_welcome, hello, ClientKeybindings, ClientLaunchMode, Geometry, HandshakeError, HandshakeReply,
    RenderEncoding, TimeoutError,
};

#[test]
fn welcome_with_semantic_frames_completes_handshake() {
    let reply = HandshakeReply::Welcome { semantic_frame: true, error: None };
    assert!(check_welcome(reply).is_ok());
}

#[test]
fn welcome_rejections_and_other_replies_fail() {
    let reply = HandshakeReply::Welcome { semantic_frame: true, error: Some("too old".to_string()) };
    match check_welcome(reply) {
        Err(HandshakeError::Rejected(reason)) => assert_eq!(reason, "too old"),
        other => panic!("unexpected: {other:?}"),
    }
    let reply = HandshakeReply::Welcome { semantic_frame: false, error: None };
    assert!(matches!(check_welcome(reply), Err(HandshakeError::WrongEncoding)));
    assert!(matches!(check_welcome(HandshakeReply::Other), Err(HandshakeError::Unexpected)));
}

#[test]
fn geometry_is_plain_data() {
    let g = Geometry { cols: 80, rows: 24, cell_width_px: 8, cell_height_px: 16 };
    let h = g;
    assert_eq!(g, h);
    assert_eq!(h.cols, 80);
}

#[test]
fn hello_reports_the_viewport_and_asks_for_semantic_frames() {
    let h = hello(Geometry { cols: 120, rows: 40, cell_width_px: 9, cell_height_px: 18 });
    assert_eq!((h.cols, h.rows, h.cell_width_px, h.cell_height_px), (120, 40, 9, 18));
    assert_eq!(h.requested_encoding, RenderEncoding::SemanticFrame);
    assert_eq!(h.keybindings, ClientKeybindings::Server);
    assert_eq!(h.launch_mode, ClientLaunchMode::App);
}

#[test]
fn unsupported_timeouts_count_as_set() {
    assert!(best_effort(Ok(())).is_ok());
    assert!(best_effort(Err(TimeoutError::Unsupported)).is_ok());
    match best_effort(Err(TimeoutError::Other("denied".into()))) {
        Err(TimeoutError::Other(m)) => assert_eq!(m, "denied"),
        other => panic!("unexpected {other:?}"),
    }
}
