use fernq::protocol::{generate_message_data_stream, ChannelId, MessageFlags, MessageType, pong_frame};
use fernq::room::{
    add_room_check, first_frame_acceptable, heartbeat_action, join_verdict, remove_room_check,
    route_frame, task_action, FrameAction, HeartbeatAction, RoomLookup, RoomRefusal, TaskAction,
    join_action, leave_removes_entry, JoinAction,
};
use fernq::storage::{select_rooms_by_name, RoomModel};

fn room(name: &str, password: &str) -> RoomModel {
    RoomModel { id: [1u8; 16], name: name.to_string(), password: password.to_string() }
}

#[test]
fn join_verdicts() {
    assert_eq!(join_verdict(&RoomLookup::Failed, "r", "p"), (false, "系统错误"));
    assert_eq!(join_verdict(&RoomLookup::Missing, "r", "p"), (false, "房间不存在"));
    assert_eq!(join_verdict(&RoomLookup::Found(room("r", "p")), "x", "p"), (false, "房间名称不匹配"));
    assert_eq!(join_verdict(&RoomLookup::Found(room("r", "p")), "r", "q"), (false, "密码错误"));
    assert_eq!(join_verdict(&RoomLookup::Found(room("r", "p")), "r", "p"), (true, "Welcome to FernQ"));
}

#[test]
fn first_frame_rules() {
    let last = MessageFlags::new(true, false, false);
    let middle = MessageFlags::new(false, false, false);
    assert!(first_frame_acceptable(MessageType::Header, last, 100));
    assert!(first_frame_acceptable(MessageType::Body, MessageFlags::new(false, true, false), 8192));
    assert!(!first_frame_acceptable(MessageType::Header, last, 8193));
    assert!(!first_frame_acceptable(MessageType::Header, middle, 100));
    assert!(!first_frame_acceptable(MessageType::Ping, last, 2));
    assert!(!first_frame_acceptable(MessageType::Pong, last, 2));
}

#[test]
fn listener_routing() {
    assert!(matches!(route_frame(&pong_frame(), MessageType::Pong, 32), FrameAction::ResetHeartbeats));
    let id = ChannelId::from_bytes([3u8; 16]);
    let f = generate_message_data_stream(MessageType::Body, true, false, &id, "a", "b", b"hi")
        .unwrap()
        .remove(0);
    match route_frame(&f, MessageType::Body, 32) {
        FrameAction::Dispatch { worker, from, to } => {
            assert_eq!(worker, id.assign_target(32).unwrap());
            assert_eq!(from, "a");
            assert_eq!(to, "b");
        }
        _ => panic!("expected dispatch"),
    }
    assert!(matches!(route_frame(&f, MessageType::Body, 30), FrameAction::Skip));
    assert!(matches!(route_frame(&f[..30], MessageType::Body, 32), FrameAction::Close));
    let mut bad = f.clone();
    bad[29] = 0xFF;
    assert!(matches!(route_frame(&bad, MessageType::Body, 32), FrameAction::Close));
}

#[test]
fn worker_actions() {
    let last_request = MessageFlags::new(true, true, false);
    assert_eq!(task_action(true, last_request), TaskAction::Forward);
    assert_eq!(task_action(false, last_request), TaskAction::NotFound);
    assert_eq!(task_action(false, MessageFlags::new(true, true, true)), TaskAction::Drop);
    assert_eq!(task_action(false, MessageFlags::new(false, true, false)), TaskAction::Drop);
}

#[test]
fn heartbeat_actions() {
    assert_eq!(heartbeat_action(5, 5), HeartbeatAction::Ping);
    assert_eq!(heartbeat_action(6, 5), HeartbeatAction::Close);
    assert_eq!(heartbeat_action(0, 0), HeartbeatAction::Ping);
}

#[test]
fn room_admin_checks() {
    assert_eq!(add_room_check(true, 0), Some(RoomRefusal::NodeClosed));
    assert_eq!(add_room_check(false, 1), Some(RoomRefusal::NameTaken));
    assert_eq!(add_room_check(false, 0), None);
    assert_eq!(remove_room_check(true, true), Some(RoomRefusal::NodeClosed));
    assert_eq!(remove_room_check(false, false), Some(RoomRefusal::NotFound));
    assert_eq!(remove_room_check(false, true), None);
}

#[test]
fn stored_rooms() {
    let r = RoomModel::new("lobby".to_string(), "pw".to_string());
    assert_eq!(r.id[6] & 0xF0, 0x40);
    assert_eq!(r.key(), r.id);
    assert!(r.verify_password("pw"));
    assert!(!r.verify_password("pw "));
    let (id, name, pass) = r.get_info();
    assert_eq!((id, name.as_str(), pass.as_str()), (r.id, "lobby", "pw"));
    let rooms = vec![room("a", "1"), room("b", "2"), room("a", "3")];
    let found = select_rooms_by_name(rooms, "a");
    assert_eq!(found.len(), 2);
    assert_eq!(found[0].password, "1");
    assert_eq!(found[1].password, "3");
}

#[test]
fn frames_up_to_the_limit_are_read() {
    assert!(fernq::room::frame_size_acceptable(8192));
    assert!(!fernq::room::frame_size_acceptable(8193));
    assert!(fernq::room::frame_size_acceptable(0));
}

#[test]
fn connection_table_decisions() {
    assert_eq!(join_action(true), JoinAction::ReplaceAndCloseOld);
    assert_eq!(join_action(false), JoinAction::Insert);
    assert!(leave_removes_entry(&[3u8; 16], &[3u8; 16]));
    let mut other = [3u8; 16];
    other[15] = 4;
    assert!(!leave_removes_entry(&[3u8; 16], &other));
}

#[test]
fn any_pong_resets_heartbeats() {
    // a Pong whose bytes would not hold names is still a Pong
    let mut frame = pong_frame();
    frame.extend_from_slice(&[0u8; 30]);
    frame.extend_from_slice(&[0xFF, 0xFF]);
    assert!(matches!(route_frame(&frame, MessageType::Pong, 32), FrameAction::ResetHeartbeats));
}
