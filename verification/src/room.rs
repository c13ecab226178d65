//! What the daemon decides about connections, frames and rooms.
//!
//! The daemon's tasks read from and write to sockets; each decision they
//! make between two socket operations is a function here, from what was
//! read to what to do next.

use vstd::prelude::*;

use crate::protocol::decoder::{get_channel_id, get_message_source_target, names_in_bounds, names_spec};
use crate::protocol::frame::{bit_end_channel, bit_end_stream, bit_is_response, is_power_of_two, read_be_u64, MessageFlags, MessageType};
use crate::protocol::describe::push_text;
use crate::protocol::outside::string_from_chars;
use crate::protocol::MAX_FRAME_SIZE;
use crate::storage::RoomModel;

verus! {

/// Whether the first frame of a new connection is worth reading on: not a
/// heartbeat, marked as the end of a stream or channel, and no larger than
/// `MAX_FRAME_SIZE` after its fixed header.  Otherwise the connection is shut.
pub fn first_frame_acceptable(msg_type: MessageType, flags: MessageFlags, body_len: usize) -> (r: bool)
    ensures
        r == (msg_type != MessageType::Ping && msg_type != MessageType::Pong && (bit_end_stream(
            flags.bits(),
        ) || bit_end_channel(flags.bits())) && body_len <= MAX_FRAME_SIZE),
{
    if msg_type == MessageType::Ping || msg_type == MessageType::Pong {
        return false;
    }
    if !flags.end_stream() && !flags.end_channel() {
        return false;
    }
    if body_len > MAX_FRAME_SIZE {
        return false;
    }
    true
}

/// Whether a room's listener reads on after a frame header announcing
/// `frame_length` bytes: only up to `MAX_FRAME_SIZE`; otherwise it closes
/// the connection.
pub fn frame_size_acceptable(frame_length: usize) -> (r: bool)
    ensures
        r == (frame_length <= MAX_FRAME_SIZE),
{
    frame_length <= MAX_FRAME_SIZE
}

/// What a room does with its table of live connections when a connection
/// joins under a name.
#[derive(Debug, Clone, Copy, PartialEq, Eq)]
pub enum JoinAction {
    /// No connection has the name: add this one.
    Insert,
    /// Another connection has the name: this one takes its place and the
    /// old one is closed.
    ReplaceAndCloseOld,
}

/// A joining connection takes the name's place in the table; one that held
/// it before is closed.
pub fn join_action(name_taken: bool) -> (r: JoinAction)
    ensures
        r == (if name_taken { JoinAction::ReplaceAndCloseOld } else { JoinAction::Insert }),
{
    if name_taken {
        JoinAction::ReplaceAndCloseOld
    } else {
        JoinAction::Insert
    }
}

/// Whether a leaving connection removes the table's entry under its name:
/// only when that entry is still this connection (a newer one with the same
/// name keeps its place).
pub fn leave_removes_entry(entry_id: &[u8; 16], leaving_id: &[u8; 16]) -> (r: bool)
    ensures
        r == (entry_id@ == leaving_id@),
{
    let mut i: usize = 0;
    while i < 16
        invariant
            i <= 16,
            entry_id@.len() == 16,
            leaving_id@.len() == 16,
            forall|j: int| 0 <= j < i ==> entry_id@[j] == leaving_id@[j],
        decreases 16 - i,
    {
        if entry_id[i] != leaving_id[i] {
            return false;
        }
        i = i + 1;
    }
    assert(entry_id@ =~= leaving_id@);
    true
}

/// What the storage lookup of a room found.
pub enum RoomLookup {
    /// The store could not be read.
    Failed,
    /// No room has that id.
    Missing,
    /// The stored room.
    Found(RoomModel),
}

/// The answer to a join request: accepted or not, and the message sent back.
pub open spec fn join_verdict_spec(lookup: RoomLookup, name: Seq<char>, password: Seq<char>) -> (
    bool,
    Seq<char>,
) {
    match lookup {
        RoomLookup::Failed => (false, "系统错误"@),
        RoomLookup::Missing => (false, "房间不存在"@),
        RoomLookup::Found(room) => if room.name@ != name {
            (false, "房间名称不匹配"@)
        } else if room.password@ != password {
            (false, "密码错误"@)
        } else {
            (true, "Welcome to FernQ"@)
        },
    }
}

/// Decides a join request from what the store holds for the requested room:
/// the room must exist, its name match and its password match.
pub fn join_verdict(lookup: &RoomLookup, name: &str, password: &str) -> (r: (bool, &'static str))
    ensures
        (r.0, r.1@) == join_verdict_spec(*lookup, name@, password@),
        r.0 <==> (lookup matches RoomLookup::Found(room) && room.name@ == name@ && room.password@ == password@),
        lookup matches RoomLookup::Found(room) && room.name@ == name@ && room.password@ != password@
            ==> r.1@ == "密码错误"@,
{
    match lookup {
        RoomLookup::Failed => (false, "系统错误"),
        RoomLookup::Missing => (false, "房间不存在"),
        RoomLookup::Found(room) => {
            if !crate::protocol::message::text_is(room.name.as_str(), name) {
                (false, "房间名称不匹配")
            } else if !room.verify_password(password) {
                (false, "密码错误")
            } else {
                (true, "Welcome to FernQ")
            }
        },
    }
}

/// The reply sent when a join payload cannot be read.
pub fn malformed_join_message() -> (r: &'static str)
    ensures
        r@ == "验证信息格式错误"@,
{
    "验证信息格式错误"
}

/// What a room's listener does with one frame read from a connection.
pub enum FrameAction {
    /// A Pong: the connection is alive; clear its pending heartbeats.
    ResetHeartbeats,
    /// Hand the frame to worker `worker` as a task from `from` to `to`,
    /// then clear the connection's pending heartbeats.
    Dispatch { worker: usize, from: String, to: String },
    /// The channel id cannot be assigned to a worker: drop the frame, then
    /// clear the connection's pending heartbeats.
    Skip,
    /// The frame is unreadable: close the connection.
    Close,
}

/// A frame action with the dispatch's names taken by their characters.
pub enum FrameActionView {
    ResetHeartbeats,
    Dispatch { worker: usize, from: Seq<char>, to: Seq<char> },
    Skip,
    Close,
}

impl View for FrameAction {
    type V = FrameActionView;

    open spec fn view(&self) -> FrameActionView {
        match *self {
            FrameAction::ResetHeartbeats => FrameActionView::ResetHeartbeats,
            FrameAction::Dispatch { worker, from, to } => FrameActionView::Dispatch { worker, from: from@, to: to@ },
            FrameAction::Skip => FrameActionView::Skip,
            FrameAction::Close => FrameActionView::Close,
        }
    }
}

/// What the listener does with a complete frame (fixed header and body),
/// given its type and the room's number of workers.
pub open spec fn frame_action_spec(frame: Seq<u8>, msg_type: MessageType, worker_number: usize) -> FrameActionView {
    if msg_type == MessageType::Pong {
        FrameActionView::ResetHeartbeats
    } else if frame.len() < 41 {
        FrameActionView::Close
    } else {
        match names_spec(frame) {
            Err(_) => FrameActionView::Close,
            Ok((from, to)) => if is_power_of_two(worker_number) {
                FrameActionView::Dispatch {
                    worker: ((read_be_u64(frame.subrange(11, 27), 8) as u64) as usize) & ((worker_number
                        - 1) as usize),
                    from,
                    to,
                }
            } else {
                FrameActionView::Skip
            },
        }
    }
}

/// Decides what to do with a complete frame read by a room's listener: a
/// Pong resets the heartbeat count; any other frame goes to the worker its
/// channel id hashes to (`assign_target_fast`), addressed by the names it
/// carries; a frame whose channel id or names cannot be read closes the
/// connection.
pub fn route_frame(frame: &[u8], msg_type: MessageType, worker_number: usize) -> (r: FrameAction)
    requires
        msg_type != MessageType::Pong ==> names_in_bounds(frame@),
    ensures
        r@ == frame_action_spec(frame@, msg_type, worker_number),
        r matches FrameAction::Dispatch { worker, .. } ==> worker < worker_number,
{
    if msg_type == MessageType::Pong {
        return FrameAction::ResetHeartbeats;
    }
    let channel_id = match get_channel_id(frame) {
        Ok(id) => id,
        Err(_) => {
            return FrameAction::Close;
        },
    };
    let (from, to) = match get_message_source_target(frame) {
        Ok(names) => names,
        Err(_) => {
            return FrameAction::Close;
        },
    };
    proof {
        lemma_dispatch_worker(frame@, msg_type, worker_number);
    }
    match channel_id.assign_target_fast(worker_number) {
        Ok(worker) => FrameAction::Dispatch { worker, from, to },
        Err(_) => FrameAction::Skip,
    }
}

/// What a worker does with a task.
#[derive(Debug, Clone, Copy, PartialEq, Eq)]
pub enum TaskAction {
    /// The target is connected: send it the frame.
    Forward,
    /// The target is not connected and this is the last frame of a request:
    /// answer the source with a 404 response.
    NotFound,
    /// Drop the frame silently.
    Drop,
}

/// Decides what a worker does with a task whose target is (or is not)
/// connected: forward it; else answer the last frame of a request
/// (END_STREAM and END_CHANNEL set, IS_RESPONSE clear) with a 404; else drop it.
pub fn task_action(target_connected: bool, flags: MessageFlags) -> (r: TaskAction)
    ensures
        target_connected ==> r == TaskAction::Forward,
        !target_connected && bit_end_stream(flags.bits()) && bit_end_channel(flags.bits())
            && !bit_is_response(flags.bits()) ==> r == TaskAction::NotFound,
        !target_connected && !(bit_end_stream(flags.bits()) && bit_end_channel(flags.bits())
            && !bit_is_response(flags.bits())) ==> r == TaskAction::Drop,
{
    if target_connected {
        return TaskAction::Forward;
    }
    if flags.end_stream() && flags.end_channel() && flags.is_request() {
        TaskAction::NotFound
    } else {
        TaskAction::Drop
    }
}

/// The state code of the reply to a request whose target is not connected.
pub const NOT_FOUND_STATE: u16 = 404;

/// The body of the reply to a request whose target is not connected.
pub fn not_found_body() -> (r: &'static str)
    ensures
        r@ == "404 Not Found !"@,
{
    "404 Not Found !"
}

/// What the heartbeat task does with a connection on each tick.
#[derive(Debug, Clone, Copy, PartialEq, Eq)]
pub enum HeartbeatAction {
    /// Too many pings went unanswered: close the connection.
    Close,
    /// Send a ping (and count it as pending once sent).
    Ping,
}

/// A connection with more than `max_pending` unanswered pings is closed;
/// any other is pinged.
pub fn heartbeat_action(pending: u32, max_pending: u32) -> (r: HeartbeatAction)
    ensures
        r == (if pending > max_pending {
            HeartbeatAction::Close
        } else {
            HeartbeatAction::Ping
        }),
{
    if pending > max_pending {
        HeartbeatAction::Close
    } else {
        HeartbeatAction::Ping
    }
}

/// Why the node refuses to add or remove a room.
#[derive(Debug, Clone, Copy, PartialEq, Eq)]
pub enum RoomRefusal {
    /// The node is shutting down.
    NodeClosed,
    /// A stored room already has the name.
    NameTaken,
    /// No stored room has the id.
    NotFound,
}

/// The message for a refusal about the room `detail` names.
pub open spec fn refusal_text(refusal: RoomRefusal, detail: Seq<char>) -> Seq<char> {
    match refusal {
        RoomRefusal::NodeClosed => "Server node is closed"@,
        RoomRefusal::NameTaken => "Room '"@ + detail + "' already exists"@,
        RoomRefusal::NotFound => "Room '"@ + detail + "' not found"@,
    }
}

impl RoomRefusal {
    /// The message for this refusal about the room `detail` names (its
    /// name when adding, its id when removing).
    pub fn message(&self, detail: &str) -> (r: String)
        ensures
            r@ == refusal_text(*self, detail@),
    {
        let mut out: Vec<char> = Vec::new();
        match self {
            RoomRefusal::NodeClosed => {
                push_text(&mut out, "Server node is closed");
            },
            RoomRefusal::NameTaken => {
                push_text(&mut out, "Room '");
                push_text(&mut out, detail);
                push_text(&mut out, "' already exists");
            },
            RoomRefusal::NotFound => {
                push_text(&mut out, "Room '");
                push_text(&mut out, detail);
                push_text(&mut out, "' not found");
            },
        }
        string_from_chars(out.as_slice())
    }
}

/// Whether a room may be added: not while the node is closed, nor when a
/// stored room already has the name (`rooms_with_name` of them).
pub fn add_room_check(node_closed: bool, rooms_with_name: usize) -> (r: Option<RoomRefusal>)
    ensures
        node_closed ==> r == Some(RoomRefusal::NodeClosed),
        !node_closed && rooms_with_name > 0 ==> r == Some(RoomRefusal::NameTaken),
        !node_closed && rooms_with_name == 0 ==> r is None,
{
    if node_closed {
        Some(RoomRefusal::NodeClosed)
    } else if rooms_with_name > 0 {
        Some(RoomRefusal::NameTaken)
    } else {
        None
    }
}

/// Whether a room may be removed: not while the node is closed, nor when no
/// stored room has the id.
pub fn remove_room_check(node_closed: bool, room_exists: bool) -> (r: Option<RoomRefusal>)
    ensures
        node_closed ==> r == Some(RoomRefusal::NodeClosed),
        !node_closed && !room_exists ==> r == Some(RoomRefusal::NotFound),
        !node_closed && room_exists ==> r is None,
{
    if node_closed {
        Some(RoomRefusal::NodeClosed)
    } else if !room_exists {
        Some(RoomRefusal::NotFound)
    } else {
        None
    }
}

/// A join is accepted exactly when the room is stored, its name is the
/// requested name and its password is the given password, character for
/// character; a stored room with that name and another password is refused
/// with "密码错误".
pub proof fn lemma_join_needs_exact_password(room: RoomModel, name: Seq<char>, password: Seq<char>)
    ensures
        join_verdict_spec(RoomLookup::Found(room), name, password).0 <==> (room.name@ == name
            && room.password@ == password),
        room.name@ == name && room.password@ != password ==> join_verdict_spec(
            RoomLookup::Found(room),
            name,
            password,
        ).1 == "密码错误"@,
        !join_verdict_spec(RoomLookup::Missing, name, password).0,
        !join_verdict_spec(RoomLookup::Failed, name, password).0,
{
}

/// A frame handed to a worker goes to a worker that exists, the one its
/// channel id picks: the id's hash (bytes 8..16 of the id, big endian)
/// modulo the number of workers.
pub proof fn lemma_dispatch_worker(frame: Seq<u8>, msg_type: MessageType, worker_number: usize)
    ensures
        frame_action_spec(frame, msg_type, worker_number) matches FrameActionView::Dispatch { worker, .. }
            ==> worker < worker_number && worker == ((read_be_u64(frame.subrange(11, 27), 8) as u64) as usize)
            % worker_number,
{
    if frame_action_spec(frame, msg_type, worker_number) is Dispatch {
        let h = (read_be_u64(frame.subrange(11, 27), 8) as u64) as usize;
        crate::protocol::frame::lemma_mask_is_mod(h, worker_number);
    }
}

} // verus!
