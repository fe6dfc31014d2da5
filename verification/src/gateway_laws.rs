//! What comes of the texts that the gateway sends, told from the documents in
//! them.

use crate::error::{Error, ReadError};
use crate::gateway::{
    call_information, call_outcome, chars_of_both, gateway_frame, gateway_reads, heartbeat_due,
    requests, url_parsed, CallInformation, CallRequest, Gateway, GatewayEvent, GatewayFrame,
};
use crate::json::{json_parsed, Json};
use crate::payload::{lemma_call_is_understood, lemma_heartbeat_is_understood};
use vstd::prelude::*;

verus! {

/// The value is the number `n`, and an `i64` holds it.
pub open spec fn is_whole(value: Json, n: int) -> bool {
    match value {
        Json::Unsigned(u) => u == n && n <= i64::MAX,
        Json::Signed(i) => i == n,
        _ => false,
    }
}

/// The document is a dispatch with number `n` and of the given kind.
pub open spec fn is_dispatch(document: Json, n: int, kind: Seq<char>) -> bool {
    &&& document.holds("op"@, Json::Unsigned(0))
    &&& is_whole(document.field("s"@), n)
    &&& document.holds("t"@, Json::Text(kind))
}

/// The text is there and reads like the member, or the member is no string and
/// the text is missing.
pub open spec fn is_text_of(text: Option<String>, member: Json) -> bool {
    match member {
        Json::Text(s) => text matches Some(found) && found@ == s,
        _ => text is None,
    }
}

/// The number is there and is that of the member, or the member is no such
/// number and the number is missing.
pub open spec fn is_number_of(number: Option<u64>, member: Json) -> bool {
    match member {
        Json::Unsigned(n) => number == Some(n),
        _ => number is None,
    }
}

/// A frame holds, each in its place, what the document holds under the names of
/// the gateway's protocol.
pub proof fn lemma_frame_holds_the_document(frame: GatewayFrame, document: Json)
    requires
        frame@ == gateway_frame(document),
    ensures
        is_number_of(frame.op, document.field("op"@)),
        frame.sequence matches Some(n) ==> is_whole(document.field("s"@), n as int),
        frame.sequence is None ==> forall|n: int| !is_whole(document.field("s"@), n),
        is_text_of(frame.kind, document.field("t"@)),
        is_text_of(frame.session_id, document.field("d"@).field("session_id"@)),
        is_text_of(frame.user_id, document.field("d"@).field("user_id"@)),
        is_text_of(frame.endpoint, document.field("d"@).field("endpoint"@)),
        is_text_of(frame.token, document.field("d"@).field("token"@)),
        is_number_of(
            frame.heartbeat_interval,
            document.field("d"@).field("heartbeat_interval"@),
        ),
{
}

/// The three kinds of dispatch that are used are told apart.
proof fn lemma_kinds_differ()
    ensures
        "READY"@ != "VOICE_STATE_UPDATE"@,
        "READY"@ != "VOICE_SERVER_UPDATE"@,
        "VOICE_STATE_UPDATE"@ != "VOICE_SERVER_UPDATE"@,
{
    reveal_strlit("READY");
    reveal_strlit("VOICE_STATE_UPDATE");
    reveal_strlit("VOICE_SERVER_UPDATE");
    assert("READY"@.len() < "VOICE_STATE_UPDATE"@.len() < "VOICE_SERVER_UPDATE"@.len());
}

/// After a dispatch with number `n` the heartbeat names `n`, whatever was said
/// before and whatever else the dispatch holds.
pub proof fn lemma_heartbeat_follows_dispatch<S>(
    before: Gateway<S>,
    text: Seq<char>,
    document: Json,
    n: u64,
    after: Gateway<S>,
    r: Result<GatewayEvent<S>, ReadError>,
    heartbeat: Seq<char>,
)
    requires
        gateway_reads(before, text, after, r),
        json_parsed(text) == Some(document),
        document.holds("op"@, Json::Unsigned(0)),
        document.holds("s"@, Json::Unsigned(n)),
        0 < n < 0x1_0000_0000,
        heartbeat_due(after, heartbeat),
    ensures
        json_parsed(heartbeat) is Some,
        json_parsed(heartbeat).unwrap().holds("op"@, Json::Unsigned(1)),
        json_parsed(heartbeat).unwrap().holds("d"@, Json::Unsigned(n)),
{
    lemma_dispatch_number_is_kept(before, text, document, n as int, after, r);
    lemma_heartbeat_is_understood(heartbeat, after.sequence);
}

/// A heartbeat without a dispatch before it names none.
pub proof fn lemma_heartbeat_names_nothing_at_first<S>(gateway: Gateway<S>, heartbeat: Seq<char>)
    requires
        gateway.sequence == 0,
        heartbeat_due(gateway, heartbeat),
    ensures
        json_parsed(heartbeat) is Some,
        json_parsed(heartbeat).unwrap().holds("op"@, Json::Unsigned(1)),
        json_parsed(heartbeat).unwrap().holds("d"@, Json::Null),
{
    lemma_heartbeat_is_understood(heartbeat, gateway.sequence);
}

/// Every number of a dispatch is kept, by its low 32 bits.
pub proof fn lemma_dispatch_number_is_kept<S>(
    before: Gateway<S>,
    text: Seq<char>,
    document: Json,
    n: int,
    after: Gateway<S>,
    r: Result<GatewayEvent<S>, ReadError>,
)
    requires
        gateway_reads(before, text, after, r),
        json_parsed(text) == Some(document),
        document.holds("op"@, Json::Unsigned(0)),
        is_whole(document.field("s"@), n),
    ensures
        (n - after.sequence) % 0x1_0000_0000 == 0,
        0 <= n < 0x1_0000_0000 ==> after.sequence == n,
{
}

/// A text that is no dispatch, or a dispatch without a number, changes
/// nothing.
pub proof fn lemma_only_dispatches_change_the_gateway<S>(
    before: Gateway<S>,
    text: Seq<char>,
    after: Gateway<S>,
    r: Result<GatewayEvent<S>, ReadError>,
)
    requires
        gateway_reads(before, text, after, r),
        json_parsed(text) matches Some(document) ==> !document.holds("op"@, Json::Unsigned(0))
            || forall|n: int| !is_whole(document.field("s"@), n),
    ensures
        after == before,
{
    if json_parsed(text) is Some {
        let document = json_parsed(text).unwrap();
        if document.holds("op"@, Json::Unsigned(0)) {
            match document.field("s"@) {
                Json::Unsigned(u) => {
                    assert(!is_whole(document.field("s"@), u as int));
                },
                Json::Signed(i) => {
                    assert(!is_whole(document.field("s"@), i as int));
                },
                _ => {},
            }
        }
    }
}

/// In every state a `READY` is noticed, and nobody who waits for a call is
/// forgotten over it.
pub proof fn lemma_login_is_noticed<S>(
    before: Gateway<S>,
    text: Seq<char>,
    document: Json,
    n: int,
    after: Gateway<S>,
    r: Result<GatewayEvent<S>, ReadError>,
)
    requires
        gateway_reads(before, text, after, r),
        json_parsed(text) == Some(document),
        is_dispatch(document, n, "READY"@),
    ensures
        r matches Ok(GatewayEvent::Ready),
        after.voice_state_sender == before.voice_state_sender,
        after.voice_server_sender == before.voice_server_sender,
{
    lemma_kinds_differ();
}

/// Whoever waits for the session of a call gets the session and the user that
/// the gateway names, whatever was said before; who waits for the server goes
/// on waiting.
pub proof fn lemma_session_reaches_who_waits<S>(
    before: Gateway<S>,
    text: Seq<char>,
    document: Json,
    n: int,
    session: Seq<char>,
    user: Seq<char>,
    after: Gateway<S>,
    r: Result<GatewayEvent<S>, ReadError>,
)
    requires
        gateway_reads(before, text, after, r),
        json_parsed(text) == Some(document),
        is_dispatch(document, n, "VOICE_STATE_UPDATE"@),
        document.field("d"@).holds("session_id"@, Json::Text(session)),
        document.field("d"@).holds("user_id"@, Json::Text(user)),
    ensures
        before.voice_state_sender matches Some(waiting) ==> {
            &&& r matches Ok(GatewayEvent::VoiceState { sender, session_id, user_id })
            &&& sender == waiting
            &&& session_id@ == session
            &&& user_id@ == user
        },
        before.voice_state_sender is None ==> (r matches Ok(GatewayEvent::Nothing)),
        after.voice_state_sender is None,
        after.voice_server_sender == before.voice_server_sender,
{
    lemma_kinds_differ();
}

/// Whoever waits for the server of a call gets the host and the token that the
/// gateway names, whatever was said before; who waits for the session goes on
/// waiting.
pub proof fn lemma_server_reaches_who_waits<S>(
    before: Gateway<S>,
    text: Seq<char>,
    document: Json,
    n: int,
    host: Seq<char>,
    secret: Seq<char>,
    after: Gateway<S>,
    r: Result<GatewayEvent<S>, ReadError>,
)
    requires
        gateway_reads(before, text, after, r),
        json_parsed(text) == Some(document),
        is_dispatch(document, n, "VOICE_SERVER_UPDATE"@),
        document.field("d"@).holds("endpoint"@, Json::Text(host)),
        document.field("d"@).holds("token"@, Json::Text(secret)),
    ensures
        before.voice_server_sender matches Some(waiting) ==> {
            &&& r matches Ok(GatewayEvent::VoiceServer { sender, endpoint, token })
            &&& sender == waiting
            &&& endpoint@ == host
            &&& token@ == secret
        },
        before.voice_server_sender is None ==> (r matches Ok(GatewayEvent::Nothing)),
        after.voice_server_sender is None,
        after.voice_state_sender == before.voice_state_sender,
{
    lemma_kinds_differ();
}

/// An update that lacks what is waited for is malformed, and ends the wait.
pub proof fn lemma_incomplete_update_is_malformed<S>(
    before: Gateway<S>,
    text: Seq<char>,
    document: Json,
    n: int,
    after: Gateway<S>,
    r: Result<GatewayEvent<S>, ReadError>,
)
    requires
        gateway_reads(before, text, after, r),
        json_parsed(text) == Some(document),
    ensures
        is_dispatch(document, n, "VOICE_STATE_UPDATE"@) && before.voice_state_sender is Some && (!(
        document.field("d"@).field("session_id"@) is Text) || !(document.field("d"@).field(
            "user_id"@,
        ) is Text)) ==> {
            &&& r matches Err(ReadError::Malformed)
            &&& after.voice_state_sender is None
            &&& after.voice_server_sender == before.voice_server_sender
        },
        is_dispatch(document, n, "VOICE_SERVER_UPDATE"@) && before.voice_server_sender is Some && (
        !(document.field("d"@).field("endpoint"@) is Text) || !(document.field("d"@).field(
            "token"@,
        ) is Text)) ==> {
            &&& r matches Err(ReadError::Malformed)
            &&& after.voice_server_sender is None
            &&& after.voice_state_sender == before.voice_state_sender
        },
        is_dispatch(document, n, "VOICE_STATE_UPDATE"@) && before.voice_state_sender is None ==> {
            &&& r matches Ok(GatewayEvent::Nothing)
            &&& after.voice_server_sender == before.voice_server_sender
        },
        is_dispatch(document, n, "VOICE_SERVER_UPDATE"@) && before.voice_server_sender is None
            ==> {
            &&& r matches Ok(GatewayEvent::Nothing)
            &&& after.voice_state_sender == before.voice_state_sender
        },
{
    lemma_kinds_differ();
}

/// A dispatch of another kind is reported by its kind, and nobody who waits is
/// forgotten over it.
pub proof fn lemma_other_dispatches_are_named<S>(
    before: Gateway<S>,
    text: Seq<char>,
    document: Json,
    n: int,
    kind: Seq<char>,
    after: Gateway<S>,
    r: Result<GatewayEvent<S>, ReadError>,
)
    requires
        gateway_reads(before, text, after, r),
        json_parsed(text) == Some(document),
        is_dispatch(document, n, kind),
        kind != "READY"@,
        kind != "VOICE_STATE_UPDATE"@,
        kind != "VOICE_SERVER_UPDATE"@,
    ensures
        r matches Ok(GatewayEvent::UnhandledDispatch(named)) && named@ == kind,
        after.voice_state_sender == before.voice_state_sender,
        after.voice_server_sender == before.voice_server_sender,
{
}

/// In every state a greeting starts the heartbeat, at the interval that it
/// names.
pub proof fn lemma_greeting_starts_heartbeat<S>(
    before: Gateway<S>,
    text: Seq<char>,
    document: Json,
    n: u64,
    after: Gateway<S>,
    r: Result<GatewayEvent<S>, ReadError>,
)
    requires
        gateway_reads(before, text, after, r),
        json_parsed(text) == Some(document),
        document.holds("op"@, Json::Unsigned(10)),
        document.field("d"@).holds("heartbeat_interval"@, Json::Unsigned(n)),
    ensures
        r matches Ok(GatewayEvent::StartHeartbeat(interval)) && interval == n,
        after == before,
{
}

/// An acknowledged heartbeat leads to nothing, and an operation that is not
/// used is reported by its number.
pub proof fn lemma_other_operations_are_named<S>(
    before: Gateway<S>,
    text: Seq<char>,
    document: Json,
    op: u64,
    after: Gateway<S>,
    r: Result<GatewayEvent<S>, ReadError>,
)
    requires
        gateway_reads(before, text, after, r),
        json_parsed(text) == Some(document),
        document.holds("op"@, Json::Unsigned(op)),
        op != 0,
        op != 10,
    ensures
        op == 11 ==> (r matches Ok(GatewayEvent::Nothing)),
        op != 11 ==> (r matches Ok(GatewayEvent::UnhandledOp(named)) && named == op),
        after == before,
{
}

/// A text that is no document closes the conversation. A document without an
/// operation, a dispatch without a number or a kind, and a greeting without an
/// interval are malformed.
pub proof fn lemma_unusable_texts_are_refused<S>(
    before: Gateway<S>,
    text: Seq<char>,
    after: Gateway<S>,
    r: Result<GatewayEvent<S>, ReadError>,
)
    requires
        gateway_reads(before, text, after, r),
    ensures
        (r matches Err(ReadError::Closed)) <==> json_parsed(text) is None,
        json_parsed(text) matches Some(document) ==> {
            &&& !(document.field("op"@) is Unsigned) ==> (r matches Err(ReadError::Malformed))
            &&& document.holds("op"@, Json::Unsigned(0)) && !(document.field("t"@) is Text)
                ==> (r matches Err(ReadError::Malformed)) && after.voice_state_sender
                == before.voice_state_sender && after.voice_server_sender
                == before.voice_server_sender
            &&& document.holds("op"@, Json::Unsigned(0)) && !(document.field("s"@) is Signed) && !(
            document.field("s"@) is Unsigned && document.field("s"@)->Unsigned_0 <= i64::MAX)
                ==> (r matches Err(ReadError::Malformed))
            &&& document.holds("op"@, Json::Unsigned(10)) && !(document.field("d"@).field(
                "heartbeat_interval"@,
            ) is Unsigned) ==> (r matches Err(ReadError::Malformed))
        },
{
}

/// A call that is asked for names its channel to the gateway. From then on
/// those who asked wait, and those who waited before are handed back.
pub proof fn lemma_call_makes_wait<S>(
    before: Gateway<S>,
    channel_id: Seq<char>,
    senders: (S, S),
    after: Gateway<S>,
    request: CallRequest<S>,
)
    requires
        requests(before, channel_id, senders, after, request),
    ensures
        ({
            let sent = json_parsed(request.text@).unwrap();
            &&& json_parsed(request.text@) is Some
            &&& sent.holds("op"@, Json::Unsigned(4))
            &&& sent.field("d"@).holds("channel_id"@, Json::Text(channel_id))
            &&& sent.field("d"@).holds("guild_id"@, Json::Null)
        }),
        after.voice_state_sender == Some(senders.0),
        after.voice_server_sender == Some(senders.1),
        after.sequence == before.sequence,
        request.replaced_state == before.voice_state_sender,
        request.replaced_server == before.voice_server_sender,
{
    lemma_call_is_understood(request.text@, channel_id);
}

/// From the request to the answers: once a call was asked for, the session and
/// the server in the next texts of the gateway reach those who asked, in
/// either order and in every state.
pub proof fn lemma_call_is_answered<S>(
    before: Gateway<S>,
    channel_id: Seq<char>,
    senders: (S, S),
    asked: Gateway<S>,
    request: CallRequest<S>,
    state: (Seq<char>, Json, int),
    session: Seq<char>,
    user: Seq<char>,
    server: (Seq<char>, Json, int),
    host: Seq<char>,
    secret: Seq<char>,
    between: Gateway<S>,
    first: Result<GatewayEvent<S>, ReadError>,
    after: Gateway<S>,
    second: Result<GatewayEvent<S>, ReadError>,
)
    requires
        requests(before, channel_id, senders, asked, request),
        json_parsed(state.0) == Some(state.1),
        is_dispatch(state.1, state.2, "VOICE_STATE_UPDATE"@),
        state.1.field("d"@).holds("session_id"@, Json::Text(session)),
        state.1.field("d"@).holds("user_id"@, Json::Text(user)),
        json_parsed(server.0) == Some(server.1),
        is_dispatch(server.1, server.2, "VOICE_SERVER_UPDATE"@),
        server.1.field("d"@).holds("endpoint"@, Json::Text(host)),
        server.1.field("d"@).holds("token"@, Json::Text(secret)),
    ensures
        gateway_reads(asked, state.0, between, first) && gateway_reads(
            between,
            server.0,
            after,
            second,
        ) ==> {
            &&& first matches Ok(GatewayEvent::VoiceState { sender, session_id, user_id })
            &&& sender == senders.0 && session_id@ == session && user_id@ == user
            &&& second matches Ok(GatewayEvent::VoiceServer { sender: other, endpoint, token })
            &&& other == senders.1 && endpoint@ == host && token@ == secret
        },
        gateway_reads(asked, server.0, between, first) && gateway_reads(
            between,
            state.0,
            after,
            second,
        ) ==> {
            &&& first matches Ok(GatewayEvent::VoiceServer { sender, endpoint, token })
            &&& sender == senders.1 && endpoint@ == host && token@ == secret
            &&& second matches Ok(GatewayEvent::VoiceState { sender: other, session_id, user_id })
            &&& other == senders.0 && session_id@ == session && user_id@ == user
        },
{
    lemma_kinds_differ();
    lemma_call_makes_wait(before, channel_id, senders, asked, request);
    if gateway_reads(asked, state.0, between, first) && gateway_reads(
        between,
        server.0,
        after,
        second,
    ) {
        lemma_session_reaches_who_waits(
            asked,
            state.0,
            state.1,
            state.2,
            session,
            user,
            between,
            first,
        );
        lemma_server_reaches_who_waits(
            between,
            server.0,
            server.1,
            server.2,
            host,
            secret,
            after,
            second,
        );
    }
    if gateway_reads(asked, server.0, between, first) && gateway_reads(
        between,
        state.0,
        after,
        second,
    ) {
        lemma_server_reaches_who_waits(
            asked,
            server.0,
            server.1,
            server.2,
            host,
            secret,
            between,
            first,
        );
        lemma_session_reaches_who_waits(
            between,
            state.0,
            state.1,
            state.2,
            session,
            user,
            after,
            second,
        );
    }
}

/// A call whose session and server are known is described by them: the host
/// with `wss://` before it and `/?v=7` behind it gives the endpoint, the
/// channel stands for the server, and user, session and token are those that
/// were delivered.
pub proof fn lemma_call_is_described(
    channel_id: Seq<char>,
    voice_state: Option<(String, String)>,
    voice_server: Option<(String, String)>,
    r: Result<CallInformation, Error>,
)
    requires
        call_outcome(r) == call_information(
            channel_id,
            chars_of_both(voice_state),
            chars_of_both(voice_server),
        ),
    ensures
        voice_state is None || voice_server is None ==> (r matches Err(Error::ApplicationError)),
        voice_state matches Some(state) ==> (voice_server matches Some(server) ==> {
            let url = url_parsed("wss://"@ + server.0@ + "/?v=7"@);
            &&& url is None ==> (r matches Err(Error::ApplicationError))
            &&& url is Some ==> {
                &&& r matches Ok(call)
                &&& call.endpoint@ == url.unwrap()
                &&& call.server_id@ == channel_id
                &&& call.session_id@ == state.0@
                &&& call.user_id@ == state.1@
                &&& call.token@ == server.1@
            }
        }),
{
}

} // verus!
