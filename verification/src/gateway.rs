//! The conversation with the gateway: logging in, keeping the connection
//! alive, and learning how to reach the voice server of a call.

use crate::error::{Error, ReadError};
use crate::json::{
    json_as_i64, json_field, json_parsed, number_field, parse_json, text_field, Json,
    LONGEST_TEXT,
};
use crate::payload::{
    conveys, gateway_heartbeat, gateway_heartbeat_message, gateway_identify,
    gateway_identify_message, join_channel, join_channel_message, lemma_message_fields,
};
use crate::text::reads;
use url::ParseError as UrlError;
use vstd::prelude::*;
use vstd::string::StringExecFns;

verus! {

/// Where the gateway is reached.
pub const URL: &'static str = "wss://gateway.discord.gg/?v=9";

/// Why a text is no URL.
#[verifier::external_type_specification]
#[verifier::external_body]
pub struct ExUrlError(UrlError);

/// The URL that `url::Url::parse` finds in a text, written in its normal form.
pub uninterp spec fn url_parsed(text: Seq<char>) -> Option<Seq<char>>;

/// The host of a voice server has at most so many characters.
pub const LONGEST_HOST: usize = 0x7FFF_FFF0;

/// The text starts like the URL of a WebSocket, and its characters can be
/// counted in an `i32`.
pub open spec fn web_socket_text(text: Seq<char>) -> bool {
    &&& "wss://"@.is_prefix_of(text)
    &&& text.len() <= i32::MAX
}

/// `url::Url::parse`, with the URL turned back into a string. It counts the
/// characters in front of the host in an `i32`. That it does not panic is taken
/// for granted of WebSocket URLs alone; the host may be any text.
#[verifier::external_body]
pub(crate) fn parse_url(text: &str) -> (r: Result<String, UrlError>)
    requires
        web_socket_text(text@),
    ensures
        match r {
            Ok(url) => url_parsed(text@) == Some(url@),
            Err(_) => url_parsed(text@) is None,
        },
{
    url::Url::parse(text).map(String::from)
}

/// What is needed to join a call.
#[derive(Debug, Clone, PartialEq, Eq)]
pub struct CallInformation {
    /// The URL of the voice server.
    pub endpoint: String,
    pub server_id: String,
    pub user_id: String,
    pub session_id: String,
    pub token: String,
}

/// What a call information says.
#[verifier::ext_equal]
pub struct CallInformationView {
    pub endpoint: Seq<char>,
    pub server_id: Seq<char>,
    pub user_id: Seq<char>,
    pub session_id: Seq<char>,
    pub token: Seq<char>,
}

impl View for CallInformation {
    type V = CallInformationView;

    open spec fn view(&self) -> CallInformationView {
        CallInformationView {
            endpoint: self.endpoint@,
            server_id: self.server_id@,
            user_id: self.user_id@,
            session_id: self.session_id@,
            token: self.token@,
        }
    }
}

/// The part of a gateway message that is looked at. Fields that are missing or
/// of another type are `None`.
#[derive(Debug, PartialEq, Eq)]
pub struct GatewayFrame {
    pub op: Option<u64>,
    /// The number of a dispatch.
    pub sequence: Option<i64>,
    /// The kind of a dispatch.
    pub kind: Option<String>,
    pub session_id: Option<String>,
    pub user_id: Option<String>,
    pub endpoint: Option<String>,
    pub token: Option<String>,
    pub heartbeat_interval: Option<u64>,
}

/// What a gateway frame says.
#[verifier::ext_equal]
pub struct GatewayFrameView {
    pub op: Option<u64>,
    pub sequence: Option<i64>,
    pub kind: Option<Seq<char>>,
    pub session_id: Option<Seq<char>>,
    pub user_id: Option<Seq<char>>,
    pub endpoint: Option<Seq<char>>,
    pub token: Option<Seq<char>>,
    pub heartbeat_interval: Option<u64>,
}

/// The characters of a text that may be missing.
pub open spec fn chars(text: Option<String>) -> Option<Seq<char>> {
    match text {
        Some(s) => Some(s@),
        None => None,
    }
}

impl View for GatewayFrame {
    type V = GatewayFrameView;

    open spec fn view(&self) -> GatewayFrameView {
        GatewayFrameView {
            op: self.op,
            sequence: self.sequence,
            kind: chars(self.kind),
            session_id: chars(self.session_id),
            user_id: chars(self.user_id),
            endpoint: chars(self.endpoint),
            token: chars(self.token),
            heartbeat_interval: self.heartbeat_interval,
        }
    }
}

/// The frame in a JSON document.
pub open spec fn gateway_frame(document: Json) -> GatewayFrameView {
    let data = document.field("d"@);
    GatewayFrameView {
        op: document.field("op"@).as_u64(),
        sequence: document.field("s"@).as_i64(),
        kind: document.field("t"@).as_text(),
        session_id: data.field("session_id"@).as_text(),
        user_id: data.field("user_id"@).as_text(),
        endpoint: data.field("endpoint"@).as_text(),
        token: data.field("token"@).as_text(),
        heartbeat_interval: data.field("heartbeat_interval"@).as_u64(),
    }
}

impl GatewayFrame {
    /// Reads a frame from a text; gives nothing where the text is no JSON.
    pub fn parse(text: &str) -> (r: Option<GatewayFrame>)
        requires
            text@.len() <= LONGEST_TEXT,
        ensures
            match r {
                Some(frame) => json_parsed(text@) is Some && frame@ == gateway_frame(
                    json_parsed(text@).unwrap(),
                ),
                None => json_parsed(text@) is None,
            },
    {
        match parse_json(text) {
            Err(_) => None,
            Ok(document) => {
                let data = json_field(&document, "d");
                Some(
                    GatewayFrame {
                        op: number_field(&document, "op"),
                        sequence: json_as_i64(json_field(&document, "s")),
                        kind: text_field(&document, "t"),
                        session_id: text_field(data, "session_id"),
                        user_id: text_field(data, "user_id"),
                        endpoint: text_field(data, "endpoint"),
                        token: text_field(data, "token"),
                        heartbeat_interval: number_field(data, "heartbeat_interval"),
                    },
                )
            },
        }
    }
}

/// What a gateway message leads to. `S` sends a part of a call to whoever
/// asked for it.
#[derive(Debug, PartialEq, Eq)]
pub enum GatewayEvent<S> {
    /// The login was accepted.
    Ready,
    /// The call that was asked for has this session, which is to be sent.
    VoiceState { sender: S, session_id: String, user_id: String },
    /// The call that was asked for is held on this server, which is to be sent.
    VoiceServer { sender: S, endpoint: String, token: String },
    /// From now on a heartbeat is due every so many milliseconds.
    StartHeartbeat(u64),
    /// There is nothing to do.
    Nothing,
    /// A dispatch of a kind that is not used.
    UnhandledDispatch(String),
    /// An operation that is not used.
    UnhandledOp(u64),
}

/// What a gateway event says.
#[verifier::ext_equal]
pub enum GatewayEventView<S> {
    Ready,
    VoiceState { sender: S, session_id: Seq<char>, user_id: Seq<char> },
    VoiceServer { sender: S, endpoint: Seq<char>, token: Seq<char> },
    StartHeartbeat(u64),
    Nothing,
    UnhandledDispatch(Seq<char>),
    UnhandledOp(u64),
}

impl<S> View for GatewayEvent<S> {
    type V = GatewayEventView<S>;

    open spec fn view(&self) -> GatewayEventView<S> {
        match *self {
            GatewayEvent::Ready => GatewayEventView::Ready,
            GatewayEvent::VoiceState { sender, session_id, user_id } => {
                GatewayEventView::VoiceState {
                    sender,
                    session_id: session_id@,
                    user_id: user_id@,
                }
            },
            GatewayEvent::VoiceServer { sender, endpoint, token } => {
                GatewayEventView::VoiceServer { sender, endpoint: endpoint@, token: token@ }
            },
            GatewayEvent::StartHeartbeat(interval) => GatewayEventView::StartHeartbeat(interval),
            GatewayEvent::Nothing => GatewayEventView::Nothing,
            GatewayEvent::UnhandledDispatch(kind) => GatewayEventView::UnhandledDispatch(kind@),
            GatewayEvent::UnhandledOp(op) => GatewayEventView::UnhandledOp(op),
        }
    }
}

/// What is remembered of the conversation with the gateway.
#[derive(Debug, PartialEq, Eq)]
pub struct Gateway<S> {
    /// The number of the last dispatch; zero before the first.
    pub sequence: u32,
    /// A call was asked for and its session is not known yet; who wants it.
    pub voice_state_sender: Option<S>,
    /// A call was asked for and its server is not known yet; who wants it.
    pub voice_server_sender: Option<S>,
}

/// A request for a call.
#[derive(Debug, PartialEq, Eq)]
pub struct CallRequest<S> {
    /// The message to send.
    pub text: String,
    /// Who wanted the session of an earlier call, and will not get it.
    pub replaced_state: Option<S>,
    /// Who wanted the server of an earlier call, and will not get it.
    pub replaced_server: Option<S>,
}

/// The number of a dispatch, as far as it is remembered.
pub open spec fn remembered(sequence: i64) -> u32 {
    (sequence as int % 0x1_0000_0000) as u32
}

/// The gateway after a frame, and what the frame leads to.
pub open spec fn gateway_step<S>(gateway: Gateway<S>, frame: GatewayFrameView) -> (
    Gateway<S>,
    Result<GatewayEventView<S>, ReadError>,
) {
    match frame.op {
        None => (gateway, Err(ReadError::Malformed)),
        Some(op) => if op == 0 {
            match frame.sequence {
                None => (gateway, Err(ReadError::Malformed)),
                Some(sequence) => dispatch_step(
                    Gateway { sequence: remembered(sequence), ..gateway },
                    frame,
                ),
            }
        } else if op == 10 {
            match frame.heartbeat_interval {
                None => (gateway, Err(ReadError::Malformed)),
                Some(interval) => (gateway, Ok(GatewayEventView::StartHeartbeat(interval))),
            }
        } else if op == 11 {
            (gateway, Ok(GatewayEventView::Nothing))
        } else {
            (gateway, Ok(GatewayEventView::UnhandledOp(op)))
        },
    }
}

/// The gateway after a dispatch whose number it has stored already, and what
/// the dispatch leads to.
pub open spec fn dispatch_step<S>(gateway: Gateway<S>, frame: GatewayFrameView) -> (
    Gateway<S>,
    Result<GatewayEventView<S>, ReadError>,
) {
    match frame.kind {
        None => (gateway, Err(ReadError::Malformed)),
        Some(kind) => if kind == "READY"@ {
            (gateway, Ok(GatewayEventView::Ready))
        } else if kind == "VOICE_STATE_UPDATE"@ {
            match gateway.voice_state_sender {
                Some(sender) => (
                    Gateway { voice_state_sender: None, ..gateway },
                    match (frame.session_id, frame.user_id) {
                        (Some(session_id), Some(user_id)) => Ok(
                            GatewayEventView::VoiceState { sender, session_id, user_id },
                        ),
                        _ => Err(ReadError::Malformed),
                    },
                ),
                None => (gateway, Ok(GatewayEventView::Nothing)),
            }
        } else if kind == "VOICE_SERVER_UPDATE"@ {
            match gateway.voice_server_sender {
                Some(sender) => (
                    Gateway { voice_server_sender: None, ..gateway },
                    match (frame.endpoint, frame.token) {
                        (Some(endpoint), Some(token)) => Ok(
                            GatewayEventView::VoiceServer { sender, endpoint, token },
                        ),
                        _ => Err(ReadError::Malformed),
                    },
                ),
                None => (gateway, Ok(GatewayEventView::Nothing)),
            }
        } else {
            (gateway, Ok(GatewayEventView::UnhandledDispatch(kind)))
        },
    }
}

/// The event of a message, or its error, by what it says.
pub open spec fn outcome<S>(r: Result<GatewayEvent<S>, ReadError>) -> Result<
    GatewayEventView<S>,
    ReadError,
> {
    match r {
        Ok(event) => Ok(event@),
        Err(e) => Err(e),
    }
}

/// A gateway that takes in a text becomes `after`, with result `r`.
pub open spec fn gateway_reads<S>(
    before: Gateway<S>,
    text: Seq<char>,
    after: Gateway<S>,
    r: Result<GatewayEvent<S>, ReadError>,
) -> bool {
    match json_parsed(text) {
        Some(document) => (after, outcome(r)) == gateway_step(before, gateway_frame(document)),
        None => after == before && outcome(r) == Err::<GatewayEventView<S>, ReadError>(
            ReadError::Closed,
        ),
    }
}

/// The text is the heartbeat that is due.
pub open spec fn heartbeat_due<S>(gateway: Gateway<S>, text: Seq<char>) -> bool {
    conveys(text, gateway_heartbeat_message(gateway.sequence))
}

/// A gateway that asks for a call becomes `after`, with this request.
pub open spec fn requests<S>(
    before: Gateway<S>,
    channel_id: Seq<char>,
    senders: (S, S),
    after: Gateway<S>,
    request: CallRequest<S>,
) -> bool {
    &&& conveys(request.text@, join_channel_message(channel_id))
    &&& request.replaced_state == before.voice_state_sender
    &&& request.replaced_server == before.voice_server_sender
    &&& after == called(before, senders.0, senders.1)
}

/// The number of a dispatch, as far as it is remembered.
fn remember(sequence: i64) -> (r: u32)
    ensures
        r == remembered(sequence),
{
    let r = sequence as u32;
    assert(r == sequence % 0x1_0000_0000i64) by (bit_vector)
        requires
            r == sequence as u32,
    ;
    r
}

/// The URL of a voice server with the given host.
pub open spec fn endpoint_url(host: Seq<char>) -> Seq<char> {
    "wss://"@ + host + "/?v=7"@
}

/// Builds the URL of a voice server.
pub fn build_endpoint_url(host: &str) -> (r: String)
    ensures
        r@ == endpoint_url(host@),
        host@.len() <= LONGEST_HOST ==> web_socket_text(r@),
{
    proof {
        reveal_strlit("wss://");
        reveal_strlit("/?v=7");
    }
    let mut url = "wss://".to_owned();
    url.append(host);
    url.append("/?v=7");
    assert(url@.subrange(0, "wss://"@.len() as int) =~= "wss://"@);
    url
}

/// The characters of two texts that may be missing.
pub open spec fn chars_of_both(texts: Option<(String, String)>) -> Option<(Seq<char>, Seq<char>)> {
    match texts {
        Some(both) => Some((both.0@, both.1@)),
        None => None,
    }
}

/// What is known of a call on a server with the given URL, if it has one.
pub open spec fn call_at(
    endpoint: Option<Seq<char>>,
    server_id: Seq<char>,
    user_id: Seq<char>,
    session_id: Seq<char>,
    token: Seq<char>,
) -> Result<CallInformationView, Error> {
    match endpoint {
        Some(endpoint) => Ok(
            CallInformationView { endpoint, server_id, user_id, session_id, token },
        ),
        None => Err(Error::ApplicationError),
    }
}

/// What is known of a call in a channel whose session, as `(session, user)`,
/// and whose server, as `(host, token)`, are known or will not come.
pub open spec fn call_information(
    channel_id: Seq<char>,
    voice_state: Option<(Seq<char>, Seq<char>)>,
    voice_server: Option<(Seq<char>, Seq<char>)>,
) -> Result<CallInformationView, Error> {
    match (voice_state, voice_server) {
        (Some((session_id, user_id)), Some((host, token))) => call_at(
            url_parsed(endpoint_url(host)),
            channel_id,
            user_id,
            session_id,
            token,
        ),
        _ => Err(Error::ApplicationError),
    }
}

/// The information on a call, or the error, by what it says.
pub open spec fn call_outcome(r: Result<CallInformation, Error>) -> Result<
    CallInformationView,
    Error,
> {
    match r {
        Ok(info) => Ok(info@),
        Err(e) => Err(e),
    }
}

impl CallInformation {
    /// Puts together what is known of a call once its session, as `(session,
    /// user)`, and its server, as `(host, token)`, are known. A part that will
    /// not come, or a host that makes no URL, is an error.
    pub fn new(
        channel_id: String,
        voice_state: Option<(String, String)>,
        voice_server: Option<(String, String)>,
    ) -> (r: Result<CallInformation, Error>)
        requires
            voice_server matches Some(server) ==> server.0@.len() <= LONGEST_HOST,
        ensures
            call_outcome(r) == call_information(
                channel_id@,
                chars_of_both(voice_state),
                chars_of_both(voice_server),
            ),
    {
        match (voice_state, voice_server) {
            (Some((session_id, user_id)), Some((host, token))) => {
                let text = build_endpoint_url(host.as_str());
                let url = match parse_url(text.as_str()) {
                    Ok(url) => Some(url),
                    Err(_) => None,
                };
                CallInformation::at(url, channel_id, user_id, session_id, token)
            },
            _ => Err(Error::ApplicationError),
        }
    }

    /// Puts together what is known of a call on the server with the given URL,
    /// if it has one.
    pub fn at(
        endpoint: Option<String>,
        server_id: String,
        user_id: String,
        session_id: String,
        token: String,
    ) -> (r: Result<CallInformation, Error>)
        ensures
            call_outcome(r) == call_at(
                chars(endpoint),
                server_id@,
                user_id@,
                session_id@,
                token@,
            ),
    {
        match endpoint {
            Some(endpoint) => Ok(
                CallInformation { endpoint, server_id, user_id, session_id, token },
            ),
            None => Err(Error::ApplicationError),
        }
    }
}

impl<S> Gateway<S> {
    /// A gateway connection on which nothing was said yet, and the URL to
    /// connect to.
    pub fn new() -> (r: Result<(Gateway<S>, String), Error>)
        ensures
            match url_parsed(URL@) {
                Some(url) => r matches Ok(start) && start.0 == fresh::<S>() && start.1@ == url,
                None => r == Err::<(Gateway<S>, String), Error>(Error::ApplicationError),
            },
    {
        proof {
            reveal_strlit("wss://");
            reveal_strlit("wss://gateway.discord.gg/?v=9");
            assert(URL@.subrange(0, "wss://"@.len() as int) =~= "wss://"@);
        }
        let url = match parse_url(URL) {
            Ok(url) => Some(url),
            Err(_) => None,
        };
        Gateway::at(url)
    }

    /// A gateway connection on which nothing was said yet, and the URL to
    /// connect to, if there is one.
    pub fn at(url: Option<String>) -> (r: Result<(Gateway<S>, String), Error>)
        ensures
            match url {
                Some(url) => r == Ok::<(Gateway<S>, String), Error>((fresh(), url)),
                None => r == Err::<(Gateway<S>, String), Error>(Error::ApplicationError),
            },
    {
        match url {
            Some(url) => Ok(
                (
                    Gateway {
                        sequence: 0,
                        voice_state_sender: None,
                        voice_server_sender: None,
                    },
                    url,
                ),
            ),
            None => Err(Error::ApplicationError),
        }
    }

    /// Takes in a message from the gateway.
    pub fn read(&mut self, text: &str) -> (r: Result<GatewayEvent<S>, ReadError>)
        requires
            text@.len() <= LONGEST_TEXT,
        ensures
            gateway_reads(*old(self), text@, *final(self), r),
    {
        match GatewayFrame::parse(text) {
            Some(frame) => self.handle(frame),
            None => Err(ReadError::Closed),
        }
    }

    /// Takes in a frame from the gateway.
    pub fn handle(&mut self, frame: GatewayFrame) -> (r: Result<GatewayEvent<S>, ReadError>)
        ensures
            (*final(self), outcome(r)) == gateway_step(*old(self), frame@),
    {
        match frame.op {
            None => Err(ReadError::Malformed),
            Some(0) => match frame.sequence {
                None => Err(ReadError::Malformed),
                Some(sequence) => {
                    self.sequence = remember(sequence);
                    self.dispatch(frame)
                },
            },
            Some(10) => match frame.heartbeat_interval {
                None => Err(ReadError::Malformed),
                Some(interval) => Ok(GatewayEvent::StartHeartbeat(interval)),
            },
            Some(11) => Ok(GatewayEvent::Nothing),
            Some(op) => Ok(GatewayEvent::UnhandledOp(op)),
        }
    }

    /// Takes in a dispatch whose number is stored already.
    fn dispatch(&mut self, frame: GatewayFrame) -> (r: Result<GatewayEvent<S>, ReadError>)
        ensures
            (*final(self), outcome(r)) == dispatch_step(*old(self), frame@),
    {
        let kind = match frame.kind {
            None => {
                return Err(ReadError::Malformed);
            },
            Some(kind) => kind,
        };
        if reads(&kind, "READY") {
            Ok(GatewayEvent::Ready)
        } else if reads(&kind, "VOICE_STATE_UPDATE") {
            match self.voice_state_sender.take() {
                Some(sender) => match (frame.session_id, frame.user_id) {
                    (Some(session_id), Some(user_id)) => Ok(
                        GatewayEvent::VoiceState { sender, session_id, user_id },
                    ),
                    _ => Err(ReadError::Malformed),
                },
                None => Ok(GatewayEvent::Nothing),
            }
        } else if reads(&kind, "VOICE_SERVER_UPDATE") {
            match self.voice_server_sender.take() {
                Some(sender) => match (frame.endpoint, frame.token) {
                    (Some(endpoint), Some(token)) => Ok(
                        GatewayEvent::VoiceServer { sender, endpoint, token },
                    ),
                    _ => Err(ReadError::Malformed),
                },
                None => Ok(GatewayEvent::Nothing),
            }
        } else {
            Ok(GatewayEvent::UnhandledDispatch(kind))
        }
    }

    /// The heartbeat that is due now.
    pub fn heartbeat(&self) -> (text: String)
        ensures
            heartbeat_due(*self, text@),
    {
        gateway_heartbeat(self.sequence)
    }

    /// The message that logs in.
    pub fn identify(&self, token: String) -> (text: String)
        ensures
            conveys(text@, gateway_identify_message(token@)),
    {
        gateway_identify(token.as_str())
    }

    /// Asks for a call: from now on its session and its server are awaited.
    /// Whoever still waits for an earlier call is given up.
    pub fn start_call(
        &mut self,
        channel_id: &str,
        voice_state_sender: S,
        voice_server_sender: S,
    ) -> (request: CallRequest<S>)
        ensures
            requests(
                *old(self),
                channel_id@,
                (voice_state_sender, voice_server_sender),
                *final(self),
                request,
            ),
    {
        let replaced_state = self.voice_state_sender.take();
        let replaced_server = self.voice_server_sender.take();
        self.voice_state_sender = Some(voice_state_sender);
        self.voice_server_sender = Some(voice_server_sender);
        CallRequest { text: join_channel(channel_id), replaced_state, replaced_server }
    }
}

/// The gateway before anything was said.
pub open spec fn fresh<S>() -> Gateway<S> {
    Gateway { sequence: 0, voice_state_sender: None, voice_server_sender: None }
}

/// The gateway after a call was asked for.
pub open spec fn called<S>(
    gateway: Gateway<S>,
    voice_state_sender: S,
    voice_server_sender: S,
) -> Gateway<S> {
    Gateway {
        voice_state_sender: Some(voice_state_sender),
        voice_server_sender: Some(voice_server_sender),
        ..gateway
    }
}

/// The frame is a well-formed dispatch of the given kind.
pub open spec fn dispatches(frame: GatewayFrameView, kind: Seq<char>) -> bool {
    &&& frame.op == Some(0u64)
    &&& frame.sequence is Some
    &&& frame.kind == Some(kind)
}

/// A login is reported as accepted once for every `READY`, and for nothing
/// else.
pub proof fn lemma_ready_reports_login<S>(gateway: Gateway<S>, frame: GatewayFrameView)
    ensures
        gateway_step(gateway, frame).1 == Ok::<GatewayEventView<S>, ReadError>(
            GatewayEventView::Ready,
        ) <==> dispatches(frame, "READY"@),
{
}

/// Every heartbeat names the last dispatch: a dispatch with a number sets the
/// number, and nothing else changes it.
pub proof fn lemma_heartbeat_names_last_dispatch<S>(gateway: Gateway<S>, frame: GatewayFrameView)
    ensures
        gateway_step(gateway, frame).0.sequence == match (frame.op, frame.sequence) {
            (Some(0u64), Some(sequence)) => remembered(sequence),
            _ => gateway.sequence,
        },
        frame.op == Some(0u64) ==> (frame.sequence matches Some(sequence) ==> 0 < sequence
            < 0x1_0000_0000 ==> gateway_heartbeat_message(
            gateway_step(gateway, frame).0.sequence,
        ).field("d"@).as_u64() == Some(sequence as u64)),
{
    let sequence = gateway_step(gateway, frame).0.sequence;
    lemma_message_fields(1, Json::Unsigned(sequence as u64));
}

/// Before the first dispatch the heartbeat names none.
pub proof fn lemma_first_heartbeat_names_none<S>()
    ensures
        gateway_heartbeat_message(fresh::<S>().sequence).field("d"@) == Json::Null,
{
    lemma_message_fields(1, Json::Null);
}

/// Only dispatches change what is remembered.
pub proof fn lemma_only_dispatches_are_remembered<S>(gateway: Gateway<S>, frame: GatewayFrameView)
    requires
        frame.op != Some(0u64),
    ensures
        gateway_step(gateway, frame).0 == gateway,
{
}

/// A part of a call is delivered only to who waits for it, who then waits no
/// more; and reading never makes anybody wait.
pub proof fn lemma_delivered_to_who_waits<S>(gateway: Gateway<S>, frame: GatewayFrameView)
    ensures
        ({
            let (after, event) = gateway_step(gateway, frame);
            &&& event matches Ok(GatewayEventView::VoiceState { sender, .. }) ==> {
                &&& gateway.voice_state_sender == Some(sender)
                &&& after.voice_state_sender is None
            }
            &&& event matches Ok(GatewayEventView::VoiceServer { sender, .. }) ==> {
                &&& gateway.voice_server_sender == Some(sender)
                &&& after.voice_server_sender is None
            }
            &&& after.voice_state_sender is Some ==> after.voice_state_sender
                == gateway.voice_state_sender
            &&& after.voice_server_sender is Some ==> after.voice_server_sender
                == gateway.voice_server_sender
        }),
{
}

/// The gateway after a row of frames.
pub open spec fn after_frames<S>(gateway: Gateway<S>, frames: Seq<GatewayFrameView>) -> Gateway<S>
    decreases frames.len(),
{
    if frames.len() == 0 {
        gateway
    } else {
        gateway_step(after_frames(gateway, frames.drop_last()), frames.last()).0
    }
}

/// What the frame at position `i` of a row leads to.
pub open spec fn event_at<S>(
    gateway: Gateway<S>,
    frames: Seq<GatewayFrameView>,
    i: int,
) -> Result<GatewayEventView<S>, ReadError> {
    gateway_step(after_frames(gateway, frames.take(i)), frames[i]).1
}

/// No frame of a row is malformed.
pub open spec fn readable<S>(gateway: Gateway<S>, frames: Seq<GatewayFrameView>) -> bool {
    forall|i: int| 0 <= i < frames.len() ==> (#[trigger] event_at(gateway, frames, i)) is Ok
}

/// How many sessions and how many servers a row of frames delivers.
pub open spec fn delivered<S>(gateway: Gateway<S>, frames: Seq<GatewayFrameView>) -> (nat, nat)
    decreases frames.len(),
{
    if frames.len() == 0 {
        (0, 0)
    } else {
        let (states, servers) = delivered(gateway, frames.drop_last());
        match gateway_step(after_frames(gateway, frames.drop_last()), frames.last()).1 {
            Ok(GatewayEventView::VoiceState { .. }) => (states + 1, servers),
            Ok(GatewayEventView::VoiceServer { .. }) => (states, servers + 1),
            _ => (states, servers),
        }
    }
}

/// The session, as `(session, user)`, and the server, as `(host, token)`, that
/// a row of frames delivers, as far as it does.
pub open spec fn heard<S>(gateway: Gateway<S>, frames: Seq<GatewayFrameView>) -> (
    Option<(Seq<char>, Seq<char>)>,
    Option<(Seq<char>, Seq<char>)>,
)
    decreases frames.len(),
{
    if frames.len() == 0 {
        (None, None)
    } else {
        let (state, server) = heard(gateway, frames.drop_last());
        match gateway_step(after_frames(gateway, frames.drop_last()), frames.last()).1 {
            Ok(GatewayEventView::VoiceState { session_id, user_id, .. }) => (
                Some((session_id, user_id)),
                server,
            ),
            Ok(GatewayEventView::VoiceServer { endpoint, token, .. }) => (
                state,
                Some((endpoint, token)),
            ),
            _ => (state, server),
        }
    }
}

/// What is delivered goes to the given senders.
pub open spec fn addressed<S>(
    event: Result<GatewayEventView<S>, ReadError>,
    voice_state_sender: S,
    voice_server_sender: S,
) -> bool {
    match event {
        Ok(GatewayEventView::VoiceState { sender, .. }) => sender == voice_state_sender,
        Ok(GatewayEventView::VoiceServer { sender, .. }) => sender == voice_server_sender,
        _ => true,
    }
}

/// Whatever the gateway says, one call is answered with at most one session and
/// at most one server, and without a call neither comes.
pub proof fn lemma_one_answer_to_a_call<S>(gateway: Gateway<S>, frames: Seq<GatewayFrameView>)
    ensures
        delivered(gateway, frames).0 <= 1,
        delivered(gateway, frames).1 <= 1,
        gateway.voice_state_sender is None ==> delivered(gateway, frames).0 == 0,
        gateway.voice_server_sender is None ==> delivered(gateway, frames).1 == 0,
        after_frames(gateway, frames).voice_state_sender is Some ==> {
            &&& after_frames(gateway, frames).voice_state_sender == gateway.voice_state_sender
            &&& delivered(gateway, frames).0 == 0
        },
        after_frames(gateway, frames).voice_server_sender is Some ==> {
            &&& after_frames(gateway, frames).voice_server_sender == gateway.voice_server_sender
            &&& delivered(gateway, frames).1 == 0
        },
    decreases frames.len(),
{
    if frames.len() > 0 {
        lemma_one_answer_to_a_call(gateway, frames.drop_last());
        lemma_delivered_to_who_waits(
            after_frames(gateway, frames.drop_last()),
            frames.last(),
        );
    }
}

/// As long as no frame is malformed, a part of a call that was not delivered is
/// still waited for, by the same sender.
pub proof fn lemma_wait_goes_on<S>(gateway: Gateway<S>, frames: Seq<GatewayFrameView>)
    requires
        readable(gateway, frames),
    ensures
        after_frames(gateway, frames).voice_state_sender == (if heard(gateway, frames).0 is None {
            gateway.voice_state_sender
        } else {
            None
        }),
        after_frames(gateway, frames).voice_server_sender == (if heard(gateway, frames).1 is None {
            gateway.voice_server_sender
        } else {
            None
        }),
    decreases frames.len(),
{
    if frames.len() > 0 {
        let front = frames.drop_last();
        assert forall|i: int| 0 <= i < front.len() implies (#[trigger] event_at(
            gateway,
            front,
            i,
        )) is Ok by {
            assert(front.take(i) =~= frames.take(i));
            assert(event_at(gateway, frames, i) is Ok);
        }
        lemma_wait_goes_on(gateway, front);
        assert(frames.take(frames.len() - 1) =~= front);
        assert(event_at(gateway, frames, frames.len() - 1) is Ok);
    }
}

/// A second call replaces a first one that lacks its session or its server.
/// Who waits for the first is handed back to be given up, so that the first
/// call ends in an error. What comes afterwards goes to the second call alone,
/// which is held in the channel of the second.
pub proof fn lemma_second_call_replaces_first<S>(
    gateway: Gateway<S>,
    first: (S, S),
    first_channel: Seq<char>,
    before: Seq<GatewayFrameView>,
    second: (S, S),
    second_channel: Seq<char>,
    after: Seq<GatewayFrameView>,
)
    requires
        readable(called(gateway, first.0, first.1), before),
        ({
            let (state, server) = heard(called(gateway, first.0, first.1), before);
            state is None || server is None
        }),
    ensures
        ({
            let (state, server) = heard(called(gateway, first.0, first.1), before);
            let pending = after_frames(called(gateway, first.0, first.1), before);
            let replaced = called(pending, second.0, second.1);
            &&& pending.voice_state_sender == if state is None {
                Some(first.0)
            } else {
                None
            }
            &&& pending.voice_server_sender == if server is None {
                Some(first.1)
            } else {
                None
            }
            &&& call_information(first_channel, state, server) == Err::<
                CallInformationView,
                Error,
            >(Error::ApplicationError)
            &&& forall|i: int|
                0 <= i < after.len() ==> addressed(
                    #[trigger] event_at(replaced, after, i),
                    second.0,
                    second.1,
                )
            &&& call_information(
                second_channel,
                heard(replaced, after).0,
                heard(replaced, after).1,
            ) matches Ok(info) ==> info.server_id == second_channel
        }),
{
    let pending = after_frames(called(gateway, first.0, first.1), before);
    let replaced = called(pending, second.0, second.1);
    lemma_wait_goes_on(called(gateway, first.0, first.1), before);
    assert forall|i: int| 0 <= i < after.len() implies addressed(
        #[trigger] event_at(replaced, after, i),
        second.0,
        second.1,
    ) by {
        lemma_one_answer_to_a_call(replaced, after.take(i));
        lemma_delivered_to_who_waits(after_frames(replaced, after.take(i)), after[i]);
    }
}

/// Once a call was asked for, its session and its server are delivered, in
/// whatever order they arrive.
pub proof fn lemma_call_is_delivered<S>(
    gateway: Gateway<S>,
    senders: (S, S),
    state: GatewayFrameView,
    server: GatewayFrameView,
)
    requires
        dispatches(state, "VOICE_STATE_UPDATE"@),
        state.session_id is Some,
        state.user_id is Some,
        dispatches(server, "VOICE_SERVER_UPDATE"@),
        server.endpoint is Some,
        server.token is Some,
    ensures
        ({
            let session = Ok::<GatewayEventView<S>, ReadError>(
                GatewayEventView::VoiceState {
                    sender: senders.0,
                    session_id: state.session_id.unwrap(),
                    user_id: state.user_id.unwrap(),
                },
            );
            let host = Ok::<GatewayEventView<S>, ReadError>(
                GatewayEventView::VoiceServer {
                    sender: senders.1,
                    endpoint: server.endpoint.unwrap(),
                    token: server.token.unwrap(),
                },
            );
            let state_first = gateway_step(called(gateway, senders.0, senders.1), state);
            let server_first = gateway_step(called(gateway, senders.0, senders.1), server);
            &&& state_first.1 == session
            &&& gateway_step(state_first.0, server).1 == host
            &&& server_first.1 == host
            &&& gateway_step(server_first.0, state).1 == session
        }),
{
    reveal_strlit("READY");
    reveal_strlit("VOICE_STATE_UPDATE");
    reveal_strlit("VOICE_SERVER_UPDATE");
    assert("READY"@.len() < "VOICE_STATE_UPDATE"@.len() < "VOICE_SERVER_UPDATE"@.len());
}

} // verus!
