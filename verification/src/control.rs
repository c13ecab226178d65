//! What the daemon does with a command from its control socket.
//!
//! A command is `add` (with a room name and password), `remove` (with a
//! room id), `list` or `address`; anything else, or a command without the
//! fields it needs, is refused with a message for the caller.  The control
//! tool builds these requests from its command line (`control_request`),
//! checking a room id before it sends it.

use vstd::prelude::*;

use crate::protocol::describe::push_text;
use crate::protocol::message::text_is;
use crate::protocol::outside::{parse_uuid, string_from_chars, uuid_parse_result};

verus! {

/// What to do for a control command.
#[derive(Debug, Clone, PartialEq)]
pub enum ControlAction {
    /// Create, store and open a room.
    AddRoom { name: String, password: String },
    /// Close and delete the room with this id.
    RemoveRoom { id: [u8; 16] },
    /// Answer with the stored rooms.
    ListRooms,
    /// Answer with the address the node listens on.
    ShowAddress,
    /// Answer with this error.
    Refuse(String),
}

/// A control action with its texts and id taken by their views.
pub enum ActionView {
    AddRoom { name: Seq<char>, password: Seq<char> },
    RemoveRoom { id: Seq<u8> },
    ListRooms,
    ShowAddress,
    Refuse(Seq<char>),
}

impl View for ControlAction {
    type V = ActionView;

    open spec fn view(&self) -> ActionView {
        match *self {
            ControlAction::AddRoom { name, password } => ActionView::AddRoom { name: name@, password: password@ },
            ControlAction::RemoveRoom { id } => ActionView::RemoveRoom { id: id@ },
            ControlAction::ListRooms => ActionView::ListRooms,
            ControlAction::ShowAddress => ActionView::ShowAddress,
            ControlAction::Refuse(m) => ActionView::Refuse(m@),
        }
    }
}

/// The option's contents, by its view.
pub open spec fn text_of(o: Option<String>) -> Option<Seq<char>> {
    match o {
        Some(s) => Some(s@),
        None => None,
    }
}

/// The action for a command with the optional fields `name`, `password`
/// and `id` (a room name that is empty counts as missing, and so does an
/// empty room id).
pub open spec fn control_spec(
    cmd: Seq<char>,
    name: Option<Seq<char>>,
    password: Option<Seq<char>>,
    id: Option<Seq<char>>,
) -> ActionView {
    if cmd == "add"@ {
        if name is None || name->0.len() == 0 {
            ActionView::Refuse("room_name is required"@)
        } else if password is None {
            ActionView::Refuse("password is required"@)
        } else {
            ActionView::AddRoom { name: name->0, password: password->0 }
        }
    } else if cmd == "remove"@ {
        if id is None || id->0.len() == 0 {
            ActionView::Refuse("room_id is required"@)
        } else {
            match uuid_parse_result(id->0) {
                Ok(bytes) => ActionView::RemoveRoom { id: bytes },
                Err(reason) => ActionView::Refuse("Invalid UUID format: "@ + reason),
            }
        }
    } else if cmd == "list"@ {
        ActionView::ListRooms
    } else if cmd == "address"@ {
        ActionView::ShowAddress
    } else {
        ActionView::Refuse("Unknown command: "@ + cmd)
    }
}

/// `prefix` followed by `detail`.
fn joined(prefix: &str, detail: &str) -> (r: String)
    ensures
        r@ == prefix@ + detail@,
{
    let mut out: Vec<char> = Vec::new();
    push_text(&mut out, prefix);
    push_text(&mut out, detail);
    string_from_chars(out.as_slice())
}

/// Decides what to do for a control command (see `control_spec`).
pub fn control_action(
    cmd: &str,
    room_name: Option<String>,
    password: Option<String>,
    room_id: Option<String>,
) -> (r: ControlAction)
    ensures
        r@ == control_spec(cmd@, text_of(room_name), text_of(password), text_of(room_id)),
{
    if text_is(cmd, "add") {
        let name = match room_name {
            Some(n) => n,
            None => {
                return ControlAction::Refuse("room_name is required".to_owned());
            },
        };
        if name.as_str().unicode_len() == 0 {
            return ControlAction::Refuse("room_name is required".to_owned());
        }
        match password {
            Some(p) => ControlAction::AddRoom { name, password: p },
            None => ControlAction::Refuse("password is required".to_owned()),
        }
    } else if text_is(cmd, "remove") {
        let id = match room_id {
            Some(i) => i,
            None => {
                return ControlAction::Refuse("room_id is required".to_owned());
            },
        };
        if id.as_str().unicode_len() == 0 {
            return ControlAction::Refuse("room_id is required".to_owned());
        }
        match parse_uuid(id.as_str()) {
            Ok(bytes) => ControlAction::RemoveRoom { id: bytes },
            Err(reason) => ControlAction::Refuse(joined("Invalid UUID format: ", reason.as_str())),
        }
    } else if text_is(cmd, "list") {
        ControlAction::ListRooms
    } else if text_is(cmd, "address") {
        ControlAction::ShowAddress
    } else {
        ControlAction::Refuse(joined("Unknown command: ", cmd))
    }
}

/// A command of the control tool, as its command line gives it.
#[derive(Debug, Clone, PartialEq)]
pub enum ToolCommand {
    Add { name: String, password: String },
    Remove { id: String },
    List,
    Address,
}

/// A tool command with its texts taken by their characters.
pub enum ToolCommandView {
    Add { name: Seq<char>, password: Seq<char> },
    Remove { id: Seq<char> },
    List,
    Address,
}

impl View for ToolCommand {
    type V = ToolCommandView;

    open spec fn view(&self) -> ToolCommandView {
        match *self {
            ToolCommand::Add { name, password } => ToolCommandView::Add { name: name@, password: password@ },
            ToolCommand::Remove { id } => ToolCommandView::Remove { id: id@ },
            ToolCommand::List => ToolCommandView::List,
            ToolCommand::Address => ToolCommandView::Address,
        }
    }
}

/// The request the control tool sends to the daemon: the command's name
/// and the fields it needs.
#[derive(Debug, Clone, PartialEq)]
pub struct ControlRequest {
    pub cmd: String,
    pub room_name: Option<String>,
    pub password: Option<String>,
    pub room_id: Option<String>,
}

/// A control request with its texts taken by their characters.
pub struct RequestView {
    pub cmd: Seq<char>,
    pub room_name: Option<Seq<char>>,
    pub password: Option<Seq<char>>,
    pub room_id: Option<Seq<char>>,
}

impl View for ControlRequest {
    type V = RequestView;

    open spec fn view(&self) -> RequestView {
        RequestView {
            cmd: self.cmd@,
            room_name: text_of(self.room_name),
            password: text_of(self.password),
            room_id: text_of(self.room_id),
        }
    }
}

/// What the control tool sends for a command, or why it sends nothing: a
/// room id that is no UUID is refused before any request is made.
pub open spec fn tool_request_spec(c: ToolCommandView) -> Result<RequestView, Seq<char>> {
    match c {
        ToolCommandView::Add { name, password } => Ok(
            RequestView { cmd: "add"@, room_name: Some(name), password: Some(password), room_id: None },
        ),
        ToolCommandView::Remove { id } => if uuid_parse_result(id) is Ok {
            Ok(RequestView { cmd: "remove"@, room_name: None, password: None, room_id: Some(id) })
        } else {
            Err("Invalid UUID format: "@ + id)
        },
        ToolCommandView::List => Ok(RequestView { cmd: "list"@, room_name: None, password: None, room_id: None }),
        ToolCommandView::Address => Ok(
            RequestView { cmd: "address"@, room_name: None, password: None, room_id: None },
        ),
    }
}

/// A request result, by views.
pub open spec fn request_result_view(r: Result<ControlRequest, String>) -> Result<RequestView, Seq<char>> {
    match r {
        Ok(q) => Ok(q@),
        Err(m) => Err(m@),
    }
}

/// A request for `cmd` without fields.
fn bare_request(cmd: &str) -> (r: ControlRequest)
    ensures
        r@ == (RequestView { cmd: cmd@, room_name: None, password: None, room_id: None }),
{
    ControlRequest { cmd: cmd.to_owned(), room_name: None, password: None, room_id: None }
}

/// Builds the request the control tool sends for a command (see
/// `tool_request_spec`).
pub fn control_request(command: ToolCommand) -> (r: Result<ControlRequest, String>)
    ensures
        request_result_view(r) == tool_request_spec(command@),
{
    match command {
        ToolCommand::Add { name, password } => Ok(
            ControlRequest { cmd: "add".to_owned(), room_name: Some(name), password: Some(password), room_id: None },
        ),
        ToolCommand::Remove { id } => match parse_uuid(id.as_str()) {
            Ok(_) => Ok(ControlRequest { cmd: "remove".to_owned(), room_name: None, password: None, room_id: Some(id) }),
            Err(_) => Err(joined("Invalid UUID format: ", id.as_str())),
        },
        ToolCommand::List => Ok(bare_request("list")),
        ToolCommand::Address => Ok(bare_request("address")),
    }
}

/// The daemon does what the tool asked: a request the tool builds for an
/// `add` with a non-empty name, a `remove` with a non-empty id, a `list` or
/// an `address`,
/// is turned by `control_action` into the matching action.
pub proof fn lemma_tool_request_understood(c: ToolCommandView)
    requires
        c matches ToolCommandView::Add { name, .. } ==> name.len() > 0,
        c matches ToolCommandView::Remove { id } ==> id.len() > 0,
        tool_request_spec(c) is Ok,
    ensures
        ({
            let q = tool_request_spec(c)->Ok_0;
            let a = control_spec(q.cmd, q.room_name, q.password, q.room_id);
            match c {
                ToolCommandView::Add { name, password } => a == ActionView::AddRoom { name, password },
                ToolCommandView::Remove { id } => a == ActionView::RemoveRoom { id: uuid_parse_result(id)->Ok_0 },
                ToolCommandView::List => a == ActionView::ListRooms,
                ToolCommandView::Address => a == ActionView::ShowAddress,
            }
        }),
{
    reveal_strlit("add");
    reveal_strlit("remove");
    reveal_strlit("list");
    reveal_strlit("address");
    assert("add"@.len() == 3 && "remove"@.len() == 6 && "list"@.len() == 4 && "address"@.len() == 7);
    assert("remove"@ != "add"@ && "list"@ != "add"@ && "address"@ != "add"@);
    assert("list"@ != "remove"@ && "address"@ != "remove"@ && "address"@ != "list"@);
}

} // verus!
