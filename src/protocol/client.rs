//! The session state machine: one connection's state, and what each frame does to it.

use crate::command::{Command, CommandView};
use crate::frame::{compression_on, unwrap_frame, unwrap_spec, FrameError};
use crate::protocol::msg::login::login_plugin_response::{self, login_plugin_response_body};
use crate::msg::handshake::handshake_body;
use crate::protocol::msg::login::login_start::{self, login_start_body};
use crate::protocol::msg::mapper as out_id;
use crate::protocol::msg::play::client_information::{self, client_information_body};
use crate::protocol::msg::play::{
    chat_command, chat_message, confirm_tp, keep_live as keep_alive_reply, plugin_message,
    respawn,
};
use crate::protocol::msg::{outbound_frame, string_field};
use crate::protocol::parser::login::login_plugin_request::{self, login_plugin_request_spec};
use crate::protocol::parser::login::login_success::{self, login_success_spec};
use crate::protocol::parser::login::set_compression::{self, set_compression_spec};
use crate::protocol::parser::mapper as in_id;
use crate::protocol::parser::play::change_difficulty::{self, change_difficulty_spec};
use crate::protocol::parser::play::disguised_chat_message::{self, disguised_chat_message_spec};
use crate::protocol::parser::play::plugin_message::{self as plugin_message_in, brand_channel, plugin_message_spec};
use crate::protocol::parser::play::server_data::{self, motd_bytes, server_data_spec};
use crate::protocol::parser::{utf8_string, utf8_text};
use crate::protocol::text::{strip_text, strip_text_spec};
use crate::protocol::parser::play::set_experience::{self, set_experience_spec};
use crate::protocol::parser::play::set_health::{self, set_health_spec};
use crate::protocol::parser::play::sync_player_position::{self, sync_player_position_spec};
use crate::protocol::parser::play::update_time::{self, update_time_spec, DAY_TICKS};
use crate::reassembly::{
    consume_spec, feed, flatten, lemma_reassembly_recovers_frames, well_formed_frame, Reassembler,
};
use crate::util::bytes::{sub_vec, views};
use crate::util::transfer_var::varint_bytes;
use vstd::prelude::*;

verus! {

/// The session phases, entered in this order and never left backwards.
#[derive(Clone, Copy, Debug, PartialEq, Eq, Structural)]
pub enum Status {
    Handshake,
    Login,
    Play,
}

/// The player's position as the server last set it: the bits of the IEEE 754 values.
#[derive(Clone, Copy, Debug, PartialEq, Eq, Structural)]
pub struct Position {
    pub x: u64,
    pub y: u64,
    pub z: u64,
    pub yaw: u32,
    pub pitch: u32,
}

/// The world clock as the server last reported it.
#[derive(Clone, Copy, Debug, PartialEq, Eq, Structural)]
pub struct WorldTime {
    pub world_age: i64,
    pub time_of_day: i64,
    pub day: i64,
}

/// Experience as the server last reported it; `bar` holds the bits of an IEEE 754 single.
#[derive(Clone, Copy, Debug, PartialEq, Eq, Structural)]
pub struct Experience {
    pub bar: u32,
    pub level: i32,
    pub total: i32,
}

/// Health as the server last reported it; `health` and `saturation` hold the bits of IEEE
/// 754 singles.
#[derive(Clone, Copy, Debug, PartialEq, Eq, Structural)]
pub struct Health {
    pub health: u32,
    pub food: i32,
    pub saturation: u32,
}

/// What the server said about itself; the message of the day without its JSON text wrapper.
pub struct ServerInfo {
    pub motd: String,
    pub icon: Vec<u8>,
    pub enforce_chat: bool,
}

/// The brand the client announces on the brand channel.
pub open spec fn client_brand() -> Seq<char> {
    "Minecraft-Console-Client/1.20.2"@
}

/// View of a session.
pub struct ClientView {
    pub stream: (Seq<u8>, int),
    pub username: Seq<char>,
    pub protocol_version: i32,
    pub lang: Seq<char>,
    pub status: Status,
    pub threshold: Option<i32>,
    pub compress: bool,
    pub uuid: Option<Seq<u8>>,
    pub confirmed_name: Option<Seq<char>>,
    pub difficulty: Option<(Seq<char>, bool)>,
    pub server: Option<(Seq<char>, Seq<u8>, bool)>,
    pub brand_sent: bool,
    pub position: Option<Position>,
    pub time: Option<WorldTime>,
    pub experience: Option<Experience>,
    pub health: Option<Health>,
}

/// A session as it starts: in the handshake phase, knowing nothing of the server.
pub open spec fn initial_view(username: Seq<char>, protocol_version: i32, lang: Seq<char>) -> ClientView {
    ClientView {
        stream: (seq![], 0),
        username,
        protocol_version,
        lang,
        status: Status::Handshake,
        threshold: None,
        compress: false,
        uuid: None,
        confirmed_name: None,
        difficulty: None,
        server: None,
        brand_sent: false,
        position: None,
        time: None,
        experience: None,
        health: None,
    }
}

/// Quotient of `t` by `m` rounded toward zero, as integer division does.
pub open spec fn trunc_div(t: int, m: int) -> int {
    if t >= 0 {
        t / m
    } else {
        -((-t) / m)
    }
}

/// A packet in the handshake phase: only set-compression is understood; it stores the
/// threshold, turns compression on for a threshold of 0 or more, and moves to login.
pub open spec fn handshake_step(v: ClientView, id: u8, body: Seq<u8>) -> (ClientView, Seq<Seq<u8>>) {
    if id == in_id::SET_COMPRESSION {
        match set_compression_spec(body) {
            Some(t) => (
                ClientView { status: Status::Login, threshold: Some(t), compress: t >= 0, ..v },
                seq![],
            ),
            None => (v, seq![]),
        }
    } else {
        (v, seq![])
    }
}

/// A packet in the login phase: login success stores the confirmed uuid and name and moves
/// to play (a name other than the one asked for is only reported); a login
/// plugin request is answered at once with a refusal.
pub open spec fn login_step(v: ClientView, id: u8, body: Seq<u8>) -> (ClientView, Seq<Seq<u8>>) {
    if id == in_id::LOGIN_SUCCESS {
        match login_success_spec(body) {
            Some((uuid, name)) => (
                ClientView { status: Status::Play, uuid: Some(uuid), confirmed_name: Some(name), ..v },
                seq![],
            ),
            None => (v, seq![]),
        }
    } else if id == in_id::LOGIN_PLUGIN_REQUEST {
        match login_plugin_request_spec(body) {
            Some((message_id, _, _)) => (
                v,
                seq![
                    outbound_frame(
                        out_id::LOGIN_PLUGIN_RESPONSE,
                        login_plugin_response_body(message_id, false),
                        v.compress,
                    ),
                ],
            ),
            None => (v, seq![]),
        }
    } else {
        (v, seq![])
    }
}

/// The two packets that answer the server's brand: the client's brand, then its settings.
pub open spec fn brand_replies(v: ClientView) -> Seq<Seq<u8>> {
    seq![
        outbound_frame(
            out_id::PLUGIN_MESSAGE,
            string_field(brand_channel()) + string_field(client_brand()),
            v.compress,
        ),
        outbound_frame(
            out_id::CLIENT_INFORMATION,
            client_information_body(v.lang, 8, 0, true),
            v.compress,
        ),
    ]
}

/// A packet in the play phase: keep-alives are echoed, positions stored and confirmed,
/// the server's brand answered once, and the other known packets stored.
pub open spec fn play_step(v: ClientView, id: u8, body: Seq<u8>) -> (ClientView, Seq<Seq<u8>>) {
    if id == in_id::KEEP_LIVE {
        (v, seq![outbound_frame(out_id::KEEP_LIVE, body, v.compress)])
    } else if id == in_id::SYNC_PLAYER_POSITION {
        match sync_player_position_spec(body) {
            Some((x, y, z, yaw, pitch, _, tp_id)) => (
                ClientView { position: Some(Position { x, y, z, yaw, pitch }), ..v },
                seq![outbound_frame(out_id::CONFIRM_TP, varint_bytes((tp_id as u32) as nat), v.compress)],
            ),
            None => (v, seq![]),
        }
    } else if id == in_id::CHANGE_DIFFICULTY {
        match change_difficulty_spec(body) {
            Some(d) => (ClientView { difficulty: Some(d), ..v }, seq![]),
            None => (v, seq![]),
        }
    } else if id == in_id::SERVER_DATA {
        match server_data_spec(body) {
            Some((_, icon, enforce)) => match utf8_text(strip_text_spec(motd_bytes(body))) {
                Some(motd) => (ClientView { server: Some((motd, icon, enforce)), ..v }, seq![]),
                None => (v, seq![]),
            },
            None => (v, seq![]),
        }
    } else if id == in_id::PLUGIN_MESSAGE {
        match plugin_message_spec(body) {
            Some((channel, _)) => if channel == brand_channel() && !v.brand_sent {
                (ClientView { brand_sent: true, ..v }, brand_replies(v))
            } else {
                (v, seq![])
            },
            None => (v, seq![]),
        }
    } else if id == in_id::UPDATE_TIME {
        match update_time_spec(body) {
            Some((age, tod)) => (
                ClientView {
                    time: Some(
                        WorldTime {
                            world_age: age,
                            time_of_day: tod,
                            day: trunc_div(age as int, 24000) as i64,
                        },
                    ),
                    ..v
                },
                seq![],
            ),
            None => (v, seq![]),
        }
    } else if id == in_id::SET_EXPERIENCE {
        match set_experience_spec(body) {
            Some((bar, level, total)) => (
                ClientView { experience: Some(Experience { bar, level, total }), ..v },
                seq![],
            ),
            None => (v, seq![]),
        }
    } else if id == in_id::SET_HEALTH {
        match set_health_spec(body) {
            Some((health, food, saturation)) => (
                ClientView { health: Some(Health { health, food, saturation }), ..v },
                seq![],
            ),
            None => (v, seq![]),
        }
    } else {
        (v, seq![])
    }
}

/// What packet `id` with `body` does to a session in its current phase, and the frames it
/// answers with. The same id means different things in different phases.
pub open spec fn dispatch(v: ClientView, id: u8, body: Seq<u8>) -> (ClientView, Seq<Seq<u8>>) {
    match v.status {
        Status::Handshake => handshake_step(v, id, body),
        Status::Login => login_step(v, id, body),
        Status::Play => play_step(v, id, body),
    }
}

/// The respawn request.
pub open spec fn respawn_frame(compress: bool) -> Seq<u8> {
    outbound_frame(out_id::RESPAWN, seq![0u8], compress)
}

/// The bytes of a frame that may be there.
pub open spec fn frame_view(f: Option<Vec<u8>>) -> Option<Seq<u8>> {
    match f {
        Some(v) => Some(v@),
        None => None,
    }
}

/// The frame that console command `c` sends when stamped with `timestamp`: the respawn
/// request for respawn, a chat message or command carrying the text for those two, and
/// nothing for the others.
pub open spec fn command_frame_spec(c: CommandView, timestamp: i64, compress: bool) -> Option<Seq<u8>> {
    match c {
        CommandView::Respawn => Some(respawn_frame(compress)),
        CommandView::Chat(text) => Some(
            outbound_frame(out_id::CHAT_MESSAGE, chat_message::chat_message_body(text, timestamp), compress),
        ),
        CommandView::ChatCommand(text) => Some(
            outbound_frame(out_id::CHAT_COMMAND, chat_command::chat_command_body(text, timestamp), compress),
        ),
        _ => None,
    }
}

/// Position of a phase in the order the session goes through them.
pub open spec fn phase_rank(s: Status) -> int {
    match s {
        Status::Handshake => 0,
        Status::Login => 1,
        Status::Play => 2,
    }
}

/// Packet ids mean something only in their own phase: before the play phase, a packet
/// whose id that phase does not know (a keep-alive, say) changes nothing and is not
/// answered; in particular it is never handled as the play packet of that id.
pub proof fn lemma_ids_isolated_by_phase(v: ClientView, id: u8, body: Seq<u8>)
    requires
        v.status == Status::Handshake ==> id != in_id::SET_COMPRESSION,
        v.status == Status::Login ==> id != in_id::LOGIN_SUCCESS && id != in_id::LOGIN_PLUGIN_REQUEST,
        v.status != Status::Play,
    ensures
        dispatch(v, id, body) == (v, Seq::<Seq<u8>>::empty()),
{
}

/// Phases only move forward: no packet takes a session back to an earlier phase, and a
/// phase is entered only from the one before it.
pub proof fn lemma_phases_move_forward(v: ClientView, id: u8, body: Seq<u8>)
    ensures
        phase_rank(v.status) <= phase_rank(dispatch(v, id, body).0.status) <= phase_rank(
            v.status,
        ) + 1,
{
}

/// Whether packet `id` means something in phase `status`.
pub open spec fn known_id(status: Status, id: u8) -> bool {
    match status {
        Status::Handshake => id == in_id::SET_COMPRESSION,
        Status::Login => id == in_id::LOGIN_SUCCESS || id == in_id::LOGIN_PLUGIN_REQUEST,
        Status::Play => id == in_id::KEEP_LIVE || id == in_id::SYNC_PLAYER_POSITION || id
            == in_id::CHANGE_DIFFICULTY || id == in_id::SERVER_DATA || id == in_id::PLUGIN_MESSAGE
            || id == in_id::UPDATE_TIME || id == in_id::SET_EXPERIENCE || id == in_id::SET_HEALTH
            || id == in_id::DISGUISED_CHAT_MESSAGE,
    }
}

/// Whether `body` fits the layout of known packet `id` in phase `status`.
pub open spec fn body_fits(status: Status, id: u8, body: Seq<u8>) -> bool {
    match status {
        Status::Handshake => set_compression_spec(body) is Some,
        Status::Login => if id == in_id::LOGIN_SUCCESS {
            login_success_spec(body) is Some
        } else {
            login_plugin_request_spec(body) is Some
        },
        Status::Play => if id == in_id::KEEP_LIVE {
            true
        } else if id == in_id::SYNC_PLAYER_POSITION {
            sync_player_position_spec(body) is Some
        } else if id == in_id::CHANGE_DIFFICULTY {
            change_difficulty_spec(body) is Some
        } else if id == in_id::SERVER_DATA {
            server_data_spec(body) is Some && utf8_text(strip_text_spec(motd_bytes(body))) is Some
        } else if id == in_id::PLUGIN_MESSAGE {
            plugin_message_spec(body) is Some
        } else if id == in_id::UPDATE_TIME {
            update_time_spec(body) is Some
        } else if id == in_id::SET_EXPERIENCE {
            set_experience_spec(body) is Some
        } else if id == in_id::SET_HEALTH {
            set_health_spec(body) is Some
        } else {
            disguised_chat_message_spec(body) is Some
        },
    }
}

/// The notice for packet `id` when it is unknown in the phase or does not fit its layout.
pub open spec fn notice_ok(status: Status, id: u8, body: Seq<u8>, n: Notice) -> bool {
    &&& !known_id(status, id) ==> n == Notice::Ignored(id)
    &&& known_id(status, id) && !body_fits(status, id, body) ==> n == Notice::Malformed(id)
    &&& known_id(status, id) && body_fits(status, id, body) ==> !(n is Ignored) && !(n is Malformed)
}

/// `v` with the reassembler state `st`.
pub open spec fn with_stream(v: ClientView, st: (Seq<u8>, int)) -> ClientView {
    ClientView { stream: st, ..v }
}

/// Chunks taken one after another by [`Client::receive`]: the last session state and the
/// answers to each frame they complete, in order.
pub open spec fn receive_all(v: ClientView, chunks: Seq<Seq<u8>>) -> (ClientView, Seq<Seq<Seq<u8>>>)
    decreases chunks.len(),
{
    if chunks.len() == 0 {
        (v, seq![])
    } else {
        let (st, frames) = consume_spec(v.stream, chunks[0]);
        let (v1, r1) = step_frames(with_stream(v, st), frames);
        let (v2, r2) = receive_all(v1, chunks.drop_first());
        (v2, r1 + r2)
    }
}

/// What one whole frame does: a frame that does not resolve is dropped and changes nothing.
pub open spec fn step_frame(v: ClientView, frame: Seq<u8>) -> (ClientView, Seq<Seq<u8>>) {
    match unwrap_spec(frame, v.threshold) {
        Ok((id, body)) => dispatch(v, id, body),
        Err(_) => (v, seq![]),
    }
}

/// Frames taken one after another, first to last: the last session state and each frame's
/// answers.
pub open spec fn step_frames(v: ClientView, frames: Seq<Seq<u8>>) -> (ClientView, Seq<Seq<Seq<u8>>>)
    decreases frames.len(),
{
    if frames.len() == 0 {
        (v, seq![])
    } else {
        let (v1, rs) = step_frames(v, frames.drop_last());
        let (v2, r) = step_frame(v1, frames.last());
        (v2, rs.push(r))
    }
}


/// What happened to one frame, for the collaborator that logs and displays.
pub enum Notice {
    /// The frame did not resolve and was dropped.
    Dropped(FrameError),
    /// The packet's body did not fit its layout; nothing changed.
    Malformed(u8),
    /// The id means nothing in the current phase; nothing changed.
    Ignored(u8),
    CompressionSet(i32),
    LoggedIn { username: String, as_requested: bool },
    PluginRequest { message_id: u8, channel: String, data: String },
    KeepAlive,
    PositionSynced { teleport_id: i32 },
    DifficultyChanged,
    ServerData,
    PluginMessage { channel: String, data: String },
    DisguisedChat { message: String },
    /// The world clock moved; `tick_delta` is the age gained since the last report.
    TimeUpdated { tick_delta: Option<i64> },
    ExperienceSet,
    HealthSet,
}

/// The result of one frame: what happened and the frames to send back, in order.
pub struct Outcome {
    pub notice: Notice,
    pub replies: Vec<Vec<u8>>,
}

/// One connection's session: the frame reassembler and what the server told so far.
pub struct Client {
    stream: Reassembler,
    username: String,
    protocol_version: i32,
    lang: String,
    status: Status,
    threshold: Option<i32>,
    compress: bool,
    uuid: Option<Vec<u8>>,
    confirmed_name: Option<String>,
    difficulty: Option<(String, bool)>,
    server: Option<ServerInfo>,
    brand_sent: bool,
    position: Option<Position>,
    time: Option<WorldTime>,
    experience: Option<Experience>,
    health: Option<Health>,
}

impl View for Client {
    type V = ClientView;

    closed spec fn view(&self) -> ClientView {
        ClientView {
            stream: self.stream@,
            username: self.username@,
            protocol_version: self.protocol_version,
            lang: self.lang@,
            status: self.status,
            threshold: self.threshold,
            compress: self.compress,
            uuid: match self.uuid {
                Some(u) => Some(u@),
                None => None,
            },
            confirmed_name: match self.confirmed_name {
                Some(n) => Some(n@),
                None => None,
            },
            difficulty: match self.difficulty {
                Some((name, lock)) => Some((name@, lock)),
                None => None,
            },
            server: match self.server {
                Some(s) => Some((s.motd@, s.icon@, s.enforce_chat)),
                None => None,
            },
            brand_sent: self.brand_sent,
            position: self.position,
            time: self.time,
            experience: self.experience,
            health: self.health,
        }
    }
}

/// A well-formed session view: the reassembler is in a proper state and compression is on
/// exactly when the threshold says so.
pub open spec fn view_ok(v: ClientView) -> bool {
    &&& crate::reassembly::state_ok(v.stream.0, v.stream.1)
    &&& v.compress == compression_on(v.threshold)
}

impl Client {
    pub open spec fn wf(&self) -> bool {
        view_ok(self@)
    }

    /// A fresh session for `username`, in the handshake phase.
    pub fn new(username: String, protocol_version: i32, lang: String) -> (r: Client)
        ensures
            r.wf(),
            r@ == initial_view(username@, protocol_version, lang@),
    {
        Client {
            stream: Reassembler::new(),
            username,
            protocol_version,
            lang,
            status: Status::Handshake,
            threshold: None,
            compress: false,
            uuid: None,
            confirmed_name: None,
            difficulty: None,
            server: None,
            brand_sent: false,
            position: None,
            time: None,
            experience: None,
            health: None,
        }
    }

    /// Starts over for a new connection: everything learnt from the server is dropped, the
    /// account and settings stay.
    pub fn reset(&mut self)
        ensures
            final(self).wf(),
            final(self)@ == initial_view(old(self)@.username, old(self)@.protocol_version, old(self)@.lang),
    {
        let username = self.username.clone();
        let lang = self.lang.clone();
        *self = Client::new(username, self.protocol_version, lang);
    }

    pub fn status(&self) -> (r: Status)
        ensures
            r == self@.status,
    {
        self.status
    }

    /// Whether frames are sent and received with the compression layer.
    pub fn is_compressed(&self) -> (r: bool)
        ensures
            r == self@.compress,
    {
        self.compress
    }

    pub fn threshold(&self) -> (r: Option<i32>)
        ensures
            r == self@.threshold,
    {
        self.threshold
    }

    pub fn username(&self) -> (r: &String)
        ensures
            r@ == self@.username,
    {
        &self.username
    }

    /// The uuid the server confirmed at login.
    pub fn uuid(&self) -> (r: Option<&Vec<u8>>)
        ensures
            match r {
                Some(u) => self@.uuid == Some(u@),
                None => self@.uuid is None,
            },
    {
        match &self.uuid {
            Some(u) => Some(u),
            None => None,
        }
    }

    /// The name the server confirmed at login.
    pub fn confirmed_name(&self) -> (r: Option<&String>)
        ensures
            match r {
                Some(n) => self@.confirmed_name == Some(n@),
                None => self@.confirmed_name is None,
            },
    {
        match &self.confirmed_name {
            Some(n) => Some(n),
            None => None,
        }
    }

    pub fn get_position(&self) -> (r: Option<Position>)
        ensures
            r == self@.position,
    {
        self.position
    }

    /// The message of the day, icon and chat enforcement the server sent.
    pub fn get_server_data(&self) -> (r: Option<&ServerInfo>)
        ensures
            match r {
                Some(s) => self@.server == Some((s.motd@, s.icon@, s.enforce_chat)),
                None => self@.server is None,
            },
    {
        match &self.server {
            Some(s) => Some(s),
            None => None,
        }
    }

    /// The difficulty's name and whether it is locked.
    pub fn get_difficulty(&self) -> (r: Option<&(String, bool)>)
        ensures
            match r {
                Some(d) => self@.difficulty == Some((d.0@, d.1)),
                None => self@.difficulty is None,
            },
    {
        match &self.difficulty {
            Some(d) => Some(d),
            None => None,
        }
    }

    pub fn get_time(&self) -> (r: Option<WorldTime>)
        ensures
            r == self@.time,
    {
        self.time
    }

    pub fn get_exp(&self) -> (r: Option<Experience>)
        ensures
            r == self@.experience,
    {
        self.experience
    }

    pub fn get_health(&self) -> (r: Option<Health>)
        ensures
            r == self@.health,
    {
        self.health
    }
}


/// The answers carried by each outcome.
pub open spec fn replies_of(outs: Seq<Outcome>) -> Seq<Seq<Seq<u8>>> {
    outs.map_values(|o: Outcome| views(o.replies@))
}

fn quiet(notice: Notice) -> (r: Outcome)
    ensures
        r.notice == notice,
        views(r.replies@) == Seq::<Seq<u8>>::empty(),
{
    let r = Outcome { notice, replies: Vec::new() };
    proof {
        assert(views(r.replies@) =~= Seq::<Seq<u8>>::empty());
    }
    r
}

fn answer(notice: Notice, frame: Vec<u8>) -> (r: Outcome)
    ensures
        r.notice == notice,
        views(r.replies@) == seq![frame@],
{
    let mut replies: Vec<Vec<u8>> = Vec::new();
    replies.push(frame);
    proof {
        assert(views(replies@) =~= seq![frame@]);
    }
    Outcome { notice, replies }
}

/// Integer division by the day length, rounded toward zero.
fn day_of(age: i64) -> (r: i64)
    ensures
        r as int == trunc_div(age as int, 24000),
{
    if age >= 0 {
        age / DAY_TICKS
    } else {
        let m: i64 = -(age + 1);
        proof {
            let mi = m as int;
            assert((mi + 1) / 24000 == mi / 24000 + (mi % 24000 + 1) / 24000);
        }
        -((m / DAY_TICKS) + ((m % DAY_TICKS + 1) / DAY_TICKS))
    }
}

impl Client {
    fn handle_handshake_packet(&mut self, body: Vec<u8>, id: u8) -> (r: Outcome)
        requires
            old(self).wf(),
            old(self)@.status == Status::Handshake,
        ensures
            final(self).wf(),
            (final(self)@, views(r.replies@)) == handshake_step(old(self)@, id, body@),
            notice_ok(Status::Handshake, id, body@, r.notice),
    {
        if id == in_id::SET_COMPRESSION {
            match set_compression::parse(body) {
                Some(t) => {
                    self.threshold = Some(t);
                    self.compress = t >= 0;
                    self.status = Status::Login;
                    quiet(Notice::CompressionSet(t))
                },
                None => quiet(Notice::Malformed(id)),
            }
        } else {
            quiet(Notice::Ignored(id))
        }
    }

    fn handle_login_packet(&mut self, body: Vec<u8>, id: u8) -> (r: Outcome)
        requires
            old(self).wf(),
            old(self)@.status == Status::Login,
        ensures
            final(self).wf(),
            (final(self)@, views(r.replies@)) == login_step(old(self)@, id, body@),
            notice_ok(Status::Login, id, body@, r.notice),
    {
        if id == in_id::LOGIN_SUCCESS {
            match login_success::parse(body) {
                Some((uuid, name)) => {
                    let as_requested = name.eq(&self.username);
                    self.uuid = Some(uuid);
                    self.confirmed_name = Some(name.clone());
                    self.status = Status::Play;
                    quiet(Notice::LoggedIn { username: name, as_requested })
                },
                None => quiet(Notice::Malformed(id)),
            }
        } else if id == in_id::LOGIN_PLUGIN_REQUEST {
            match login_plugin_request::parse(body) {
                Some((message_id, channel, data)) => {
                    let reply = login_plugin_response::new(message_id, false, self.compress);
                    answer(Notice::PluginRequest { message_id, channel, data }, reply)
                },
                None => quiet(Notice::Malformed(id)),
            }
        } else {
            quiet(Notice::Ignored(id))
        }
    }

    fn handle_plugin_message(&mut self, body: Vec<u8>) -> (r: Outcome)
        requires
            old(self).wf(),
        ensures
            final(self).wf(),
            (final(self)@, views(r.replies@)) == play_step(old(self)@, in_id::PLUGIN_MESSAGE, body@),
            notice_ok(Status::Play, in_id::PLUGIN_MESSAGE, body@, r.notice),
    {
        match plugin_message_in::parse(body) {
            Some((channel, data)) => {
                let brand = String::from_str("minecraft:brand");
                if channel.eq(&brand) && !self.brand_sent {
                    self.brand_sent = true;
                    let mut replies: Vec<Vec<u8>> = Vec::new();
                    replies.push(
                        plugin_message::new(
                            brand,
                            String::from_str("Minecraft-Console-Client/1.20.2"),
                            self.compress,
                        ),
                    );
                    replies.push(
                        client_information::new(self.lang.clone(), 8, 0, true, self.compress),
                    );
                    proof {
                        assert(views(replies@) =~= brand_replies(old(self)@));
                    }
                    Outcome { notice: Notice::PluginMessage { channel, data }, replies }
                } else {
                    quiet(Notice::PluginMessage { channel, data })
                }
            },
            None => quiet(Notice::Malformed(in_id::PLUGIN_MESSAGE)),
        }
    }

    fn handle_update_time(&mut self, body: Vec<u8>) -> (r: Outcome)
        requires
            old(self).wf(),
        ensures
            final(self).wf(),
            (final(self)@, views(r.replies@)) == play_step(old(self)@, in_id::UPDATE_TIME, body@),
            notice_ok(Status::Play, in_id::UPDATE_TIME, body@, r.notice),
    {
        match update_time::parse(body) {
            Some((age, tod)) => {
                let tick_delta = match self.time {
                    Some(last) => {
                        let d: i128 = age as i128 - last.world_age as i128;
                        if -0x8000_0000_0000_0000 <= d && d <= 0x7fff_ffff_ffff_ffff {
                            Some(d as i64)
                        } else {
                            None
                        }
                    },
                    None => None,
                };
                self.time = Some(WorldTime { world_age: age, time_of_day: tod, day: day_of(age) });
                quiet(Notice::TimeUpdated { tick_delta })
            },
            None => quiet(Notice::Malformed(in_id::UPDATE_TIME)),
        }
    }

    fn handle_play_packet(&mut self, body: Vec<u8>, id: u8) -> (r: Outcome)
        requires
            old(self).wf(),
            old(self)@.status == Status::Play,
        ensures
            final(self).wf(),
            (final(self)@, views(r.replies@)) == play_step(old(self)@, id, body@),
            notice_ok(Status::Play, id, body@, r.notice),
    {
        if id == in_id::KEEP_LIVE {
            let reply = keep_alive_reply::new(body, self.compress);
            answer(Notice::KeepAlive, reply)
        } else if id == in_id::SYNC_PLAYER_POSITION {
            match sync_player_position::parse(body) {
                Some((x, y, z, yaw, pitch, _, tp_id)) => {
                    self.position = Some(Position { x, y, z, yaw, pitch });
                    let reply = confirm_tp::new(tp_id, self.compress);
                    answer(Notice::PositionSynced { teleport_id: tp_id }, reply)
                },
                None => quiet(Notice::Malformed(id)),
            }
        } else if id == in_id::CHANGE_DIFFICULTY {
            match change_difficulty::parse(body) {
                Some(d) => {
                    self.difficulty = Some(d);
                    quiet(Notice::DifficultyChanged)
                },
                None => quiet(Notice::Malformed(id)),
            }
        } else if id == in_id::SERVER_DATA {
            let copy = sub_vec(&body, 0, body.len());
            proof {
                assert(copy@ =~= body@);
            }
            match server_data::parse(copy) {
                Some((_, icon, enforce_chat)) => {
                    let raw = sub_vec(&body, 1, 1 + body[0] as usize);
                    let stripped = strip_text(&raw);
                    proof {
                        assert(stripped@.subrange(0, stripped@.len() as int) =~= stripped@);
                    }
                    match utf8_string(&stripped, 0, stripped.len()) {
                        Some(motd) => {
                            self.server = Some(ServerInfo { motd, icon, enforce_chat });
                            quiet(Notice::ServerData)
                        },
                        None => quiet(Notice::Malformed(id)),
                    }
                },
                None => quiet(Notice::Malformed(id)),
            }
        } else if id == in_id::PLUGIN_MESSAGE {
            self.handle_plugin_message(body)
        } else if id == in_id::UPDATE_TIME {
            self.handle_update_time(body)
        } else if id == in_id::SET_EXPERIENCE {
            match set_experience::parse(body) {
                Some((bar, level, total)) => {
                    self.experience = Some(Experience { bar, level, total });
                    quiet(Notice::ExperienceSet)
                },
                None => quiet(Notice::Malformed(id)),
            }
        } else if id == in_id::SET_HEALTH {
            match set_health::parse(body) {
                Some((health, food, saturation)) => {
                    self.health = Some(Health { health, food, saturation });
                    quiet(Notice::HealthSet)
                },
                None => quiet(Notice::Malformed(id)),
            }
        } else if id == in_id::DISGUISED_CHAT_MESSAGE {
            match disguised_chat_message::parse(body) {
                Some((message, _, _, _, _)) => quiet(Notice::DisguisedChat { message }),
                None => quiet(Notice::Malformed(id)),
            }
        } else {
            quiet(Notice::Ignored(id))
        }
    }

    /// Hands a resolved packet to the current phase's handler; see [`dispatch`].
    pub fn dispatch_packet(&mut self, id: u8, body: Vec<u8>) -> (r: Outcome)
        requires
            old(self).wf(),
        ensures
            final(self).wf(),
            (final(self)@, views(r.replies@)) == dispatch(old(self)@, id, body@),
            notice_ok(old(self)@.status, id, body@, r.notice),
    {
        match self.status {
            Status::Handshake => self.handle_handshake_packet(body, id),
            Status::Login => self.handle_login_packet(body, id),
            Status::Play => self.handle_play_packet(body, id),
        }
    }

    /// Resolves one whole frame under the session's threshold and dispatches it; a frame
    /// that does not resolve is dropped and changes nothing. See [`step_frame`].
    pub fn handle_packet(&mut self, packet: Vec<u8>) -> (r: Outcome)
        requires
            old(self).wf(),
        ensures
            final(self).wf(),
            (final(self)@, views(r.replies@)) == step_frame(old(self)@, packet@),
            match unwrap_spec(packet@, old(self)@.threshold) {
                Err(e) => r.notice == Notice::Dropped(e),
                Ok((id, body)) => notice_ok(old(self)@.status, id, body, r.notice),
            },
    {
        match unwrap_frame(&packet, self.threshold) {
            Ok(h) => self.dispatch_packet(h.packet_id, h.body),
            Err(e) => quiet(Notice::Dropped(e)),
        }
    }

    /// Takes the next chunk received from the server: reassembles the frames it completes
    /// and handles each in order. Returns one outcome per frame.
    pub fn receive(&mut self, chunk: Vec<u8>) -> (r: Vec<Outcome>)
        requires
            old(self).wf(),
        ensures
            final(self).wf(),
            ({
                let (st, frames) = consume_spec(old(self)@.stream, chunk@);
                let (v, replies) = step_frames(ClientView { stream: st, ..old(self)@ }, frames);
                final(self)@ == v && replies_of(r@) == replies
            }),
            (final(self)@, replies_of(r@)) == receive_all(old(self)@, seq![chunk@]),
    {
        let ghost chunk_view = chunk@;
        let frames = self.stream.consume(chunk);
        let ghost fs = views(frames@);
        let ghost start = self@;
        let mut outcomes: Vec<Outcome> = Vec::new();
        let mut i: usize = 0;
        proof {
            assert(fs.subrange(0, 0) =~= Seq::<Seq<u8>>::empty());
            assert(replies_of(outcomes@) =~= Seq::<Seq<Seq<u8>>>::empty());
        }
        while i < frames.len()
            invariant
                self.wf(),
                i <= frames.len(),
                fs == views(frames@),
                (self@, replies_of(outcomes@)) == step_frames(start, fs.subrange(0, i as int)),
            decreases frames.len() - i,
        {
            let frame = sub_vec(&frames[i], 0, frames[i].len());
            let ghost before = replies_of(outcomes@);
            let outcome = self.handle_packet(frame);
            outcomes.push(outcome);
            proof {
                let pre = fs.subrange(0, i + 1);
                assert(pre.drop_last() =~= fs.subrange(0, i as int));
                assert(pre.last() == frames@[i as int]@);
                assert(frames@[i as int]@.subrange(0, frames@[i as int]@.len() as int) =~= frames@[i as int]@);
                assert(replies_of(outcomes@) =~= before.push(views(outcome.replies@)));
            }
            i = i + 1;
        }
        proof {
            assert(fs.subrange(0, frames.len() as int) =~= fs);
            let cs = seq![chunk_view];
            assert(cs.drop_first() =~= Seq::<Seq<u8>>::empty());
            assert(cs[0] == chunk_view);
            let (st, fr) = consume_spec(old(self)@.stream, chunk_view);
            let (v1, r1) = step_frames(with_stream(old(self)@, st), fr);
            assert(receive_all(v1, cs.drop_first()) == (v1, Seq::<Seq<Seq<u8>>>::empty()));
            assert(r1 + Seq::<Seq<Seq<u8>>>::empty() =~= r1);
        }
        outcomes
    }

    /// The frames that open a session: the handshake (asking to log in) to `ip`:`port`,
    /// then the login start for this session's user.
    pub fn opening_frames(&self, ip: String, port: u16) -> (r: Vec<Vec<u8>>)
        ensures
            r@.len() == 2,
            r@[0]@ == outbound_frame(
                0x00,
                handshake_body(self@.protocol_version, ip@, port, true),
                false,
            ),
            r@[1]@ == outbound_frame(
                out_id::LOGIN_START,
                login_start_body(self@.username, Seq::empty()),
                false,
            ),
    {
        let mut frames: Vec<Vec<u8>> = Vec::new();
        frames.push(crate::msg::handshake::new(self.protocol_version, ip.as_str(), port, true));
        frames.push(login_start::new(self.username.clone(), Vec::new()));
        frames
    }

    /// The frame that a console command sends to the server, stamped with `timestamp`;
    /// see [`command_frame_spec`].
    pub fn command_frame(&self, command: &Command, timestamp: i64) -> (r: Option<Vec<u8>>)
        ensures
            frame_view(r) == command_frame_spec(command@, timestamp, self@.compress),
    {
        match command {
            Command::Respawn => Some(self.respawn()),
            Command::Chat(text) => Some(
                chat_message::new(text.clone(), timestamp, self.compress),
            ),
            Command::ChatCommand(text) => Some(
                chat_command::new(text.clone(), timestamp, self.compress),
            ),
            _ => None,
        }
    }

    /// The respawn request, framed for the current compression.
    pub fn respawn(&self) -> (r: Vec<u8>)
        ensures
            r@ == outbound_frame(out_id::RESPAWN, seq![0u8], self@.compress),
    {
        respawn::new(self.compress)
    }

    /// A chat message stamped with `timestamp` (seconds since the Unix epoch).
    pub fn chat_message(&self, msg: String, timestamp: i64) -> (r: Vec<u8>)
        ensures
            r@ == outbound_frame(
                out_id::CHAT_MESSAGE,
                chat_message::chat_message_body(msg@, timestamp),
                self@.compress,
            ),
    {
        chat_message::new(msg, timestamp, self.compress)
    }

    /// A chat command stamped with `timestamp` (seconds since the Unix epoch).
    pub fn chat_command(&self, command: String, timestamp: i64) -> (r: Vec<u8>)
        ensures
            r@ == outbound_frame(
                out_id::CHAT_COMMAND,
                chat_command::chat_command_body(command@, timestamp),
                self@.compress,
            ),
    {
        chat_command::new(command, timestamp, self.compress)
    }
}


/// Handling a frame neither reads nor changes the reassembler state.
proof fn lemma_step_frame_stream(v: ClientView, st: (Seq<u8>, int), f: Seq<u8>)
    ensures
        step_frame(v, f).0.stream == v.stream,
        step_frame(with_stream(v, st), f) == (
            with_stream(step_frame(v, f).0, st),
            step_frame(v, f).1,
        ),
{
}

/// Handling frames neither reads nor changes the reassembler state.
proof fn lemma_step_frames_stream(v: ClientView, st: (Seq<u8>, int), fs: Seq<Seq<u8>>)
    ensures
        step_frames(v, fs).0.stream == v.stream,
        step_frames(with_stream(v, st), fs) == (
            with_stream(step_frames(v, fs).0, st),
            step_frames(v, fs).1,
        ),
    decreases fs.len(),
{
    if fs.len() > 0 {
        lemma_step_frames_stream(v, st, fs.drop_last());
        let u = step_frames(v, fs.drop_last()).0;
        lemma_step_frame_stream(u, st, fs.last());
    }
}

/// Handling `a` and then `b` is handling `a + b`.
proof fn lemma_step_frames_concat(v: ClientView, a: Seq<Seq<u8>>, b: Seq<Seq<u8>>)
    ensures
        step_frames(v, a + b) == (
            step_frames(step_frames(v, a).0, b).0,
            step_frames(v, a).1 + step_frames(step_frames(v, a).0, b).1,
        ),
    decreases b.len(),
{
    if b.len() == 0 {
        assert(a + b =~= a);
        assert(step_frames(v, a).1 + Seq::<Seq<Seq<u8>>>::empty() =~= step_frames(v, a).1);
    } else {
        assert((a + b).drop_last() =~= a + b.drop_last());
        assert((a + b).last() == b.last());
        lemma_step_frames_concat(v, a, b.drop_last());
        let u = step_frames(v, a).0;
        let ra = step_frames(v, a).1;
        let rb = step_frames(u, b.drop_last()).1;
        let r = step_frame(step_frames(u, b.drop_last()).0, b.last()).1;
        assert((ra + rb).push(r) =~= ra + rb.push(r));
    }
}

/// Receiving chunks is reassembling them and then handling the frames they complete.
proof fn lemma_receive_all_feed(v: ClientView, chunks: Seq<Seq<u8>>)
    ensures
        receive_all(v, chunks) == (
            with_stream(step_frames(v, feed(v.stream, chunks).1).0, feed(v.stream, chunks).0),
            step_frames(v, feed(v.stream, chunks).1).1,
        ),
    decreases chunks.len(),
{
    if chunks.len() == 0 {
        assert(with_stream(v, v.stream) == v);
    } else {
        let (st1, f1) = consume_spec(v.stream, chunks[0]);
        lemma_step_frames_stream(v, st1, f1);
        let u = step_frames(v, f1).0;
        let v1 = with_stream(u, st1);
        lemma_receive_all_feed(v1, chunks.drop_first());
        let (st2, e2) = feed(st1, chunks.drop_first());
        lemma_step_frames_stream(u, st1, e2);
        lemma_step_frames_concat(v, f1, e2);
        assert(with_stream(step_frames(v1, e2).0, st2) == with_stream(step_frames(u, e2).0, st2));
    }
}

/// Reassembly gives back exactly the frames sent, at the session: a session holding no
/// bytes that receives the bytes of whole frames, cut into chunks anywhere (down to single
/// bytes), ends where handling those frames one by one, in order, would end, with the same
/// answers, and holds no bytes afterwards.
///
/// The last frame must be at least 4 bytes long, as a shorter tail is kept until more bytes
/// arrive.
pub proof fn lemma_receive_handles_frames(
    v: ClientView,
    frames: Seq<Seq<u8>>,
    chunks: Seq<Seq<u8>>,
)
    requires
        v.stream == (Seq::<u8>::empty(), 0int),
        forall|i: int| 0 <= i < frames.len() ==> well_formed_frame(#[trigger] frames[i]),
        frames.len() > 0 ==> frames.last().len() >= 4,
        flatten(chunks) == flatten(frames),
    ensures
        receive_all(v, chunks) == step_frames(v, frames),
{
    lemma_reassembly_recovers_frames(frames, chunks);
    lemma_receive_all_feed(v, chunks);
    lemma_step_frames_stream(v, v.stream, frames);
    assert(with_stream(step_frames(v, frames).0, v.stream) == step_frames(v, frames).0);
}

} // verus!
