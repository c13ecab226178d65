use fernq::control::{control_action, control_request, ControlAction, ControlRequest, ToolCommand};
use fernq::room::RoomRefusal;

fn s(text: &str) -> Option<String> {
    Some(text.to_string())
}

#[test]
fn add_needs_a_nonempty_name_and_a_password() {
    assert_eq!(
        control_action("add", s("lobby"), s("pw"), None),
        ControlAction::AddRoom { name: "lobby".to_string(), password: "pw".to_string() }
    );
    assert_eq!(
        control_action("add", s(""), s("pw"), None),
        ControlAction::Refuse("room_name is required".to_string())
    );
    assert_eq!(
        control_action("add", None, s("pw"), None),
        ControlAction::Refuse("room_name is required".to_string())
    );
    assert_eq!(
        control_action("add", s("lobby"), None, None),
        ControlAction::Refuse("password is required".to_string())
    );
    assert_eq!(
        control_action("add", s("lobby"), s(""), None),
        ControlAction::AddRoom { name: "lobby".to_string(), password: String::new() }
    );
}

#[test]
fn remove_needs_a_uuid() {
    assert_eq!(
        control_action("remove", None, None, s("00112233-4455-6677-8899-aabbccddeeff")),
        ControlAction::RemoveRoom {
            id: [0x00, 0x11, 0x22, 0x33, 0x44, 0x55, 0x66, 0x77, 0x88, 0x99, 0xaa, 0xbb, 0xcc, 0xdd, 0xee, 0xff]
        }
    );
    assert_eq!(
        control_action("remove", None, None, s("")),
        ControlAction::Refuse("room_id is required".to_string())
    );
    assert_eq!(
        control_action("remove", None, None, None),
        ControlAction::Refuse("room_id is required".to_string())
    );
    match control_action("remove", None, None, s("not-a-uuid")) {
        ControlAction::Refuse(m) => {
            let reason = uuid::Uuid::parse_str("not-a-uuid").unwrap_err().to_string();
            assert_eq!(m, format!("Invalid UUID format: {}", reason));
        }
        other => panic!("expected a refusal, got {:?}", other),
    }
}

#[test]
fn list_address_and_unknown_commands() {
    assert_eq!(control_action("list", None, None, None), ControlAction::ListRooms);
    assert_eq!(control_action("address", s("x"), None, None), ControlAction::ShowAddress);
    assert_eq!(
        control_action("shutdown", None, None, None),
        ControlAction::Refuse("Unknown command: shutdown".to_string())
    );
    assert_eq!(
        control_action("ADD", s("lobby"), s("pw"), None),
        ControlAction::Refuse("Unknown command: ADD".to_string())
    );
}

#[test]
fn refusal_messages_name_the_room() {
    assert_eq!(RoomRefusal::NodeClosed.message("lobby"), "Server node is closed");
    assert_eq!(RoomRefusal::NameTaken.message("lobby"), "Room 'lobby' already exists");
    assert_eq!(RoomRefusal::NotFound.message("42"), "Room '42' not found");
}

#[test]
fn tool_requests() {
    let id = "00112233-4455-6677-8899-aabbccddeeff";
    assert_eq!(
        control_request(ToolCommand::Remove { id: id.to_string() }),
        Ok(ControlRequest { cmd: "remove".to_string(), room_name: None, password: None, room_id: Some(id.to_string()) })
    );
    assert_eq!(
        control_request(ToolCommand::Remove { id: "nope".to_string() }),
        Err("Invalid UUID format: nope".to_string())
    );
    assert_eq!(
        control_request(ToolCommand::Add { name: "lobby".to_string(), password: "pw".to_string() }),
        Ok(ControlRequest { cmd: "add".to_string(), room_name: s("lobby"), password: s("pw"), room_id: None })
    );
    assert_eq!(
        control_request(ToolCommand::List),
        Ok(ControlRequest { cmd: "list".to_string(), room_name: None, password: None, room_id: None })
    );
    assert_eq!(
        control_request(ToolCommand::Address),
        Ok(ControlRequest { cmd: "address".to_string(), room_name: None, password: None, room_id: None })
    );
    let q = control_request(ToolCommand::Remove { id: id.to_string() }).unwrap();
    assert!(matches!(control_action(&q.cmd, q.room_name, q.password, q.room_id), ControlAction::RemoveRoom { .. }));
}
