//! The messages that are sent over the two WebSockets.

use crate::json::{
    json_bool, json_contents, json_null, json_number, json_object, json_parsed, json_rendered,
    json_set, json_string, json_to_string, Json, READABLE_DEPTH,
};
use serde_json::Value;
use vstd::prelude::*;

verus! {

/// `text` is the JSON document for `tree`, and whoever parses it finds `tree`.
pub open spec fn conveys(text: Seq<char>, tree: Json) -> bool {
    &&& text == json_rendered(tree)
    &&& json_parsed(text) == Some(tree)
}

/// A message: an operation and its data.
pub open spec fn message(op: u64, data: Json) -> Json {
    Json::Object(map!["op"@ => Json::Unsigned(op), "d"@ => data])
}

/// The gateway message that logs in with a token.
pub open spec fn gateway_identify_message(token: Seq<char>) -> Json {
    message(
        2,
        Json::Object(
            map![
                "token"@ => Json::Text(token),
                "properties"@ => Json::Object(map![
                    "capabilities"@ => Json::Unsigned(1021),
                    "os"@ => Json::Text("Windows"@),
                    "browser"@ => Json::Text("Chrome"@),
                    "device"@ => Json::Text(""@),
                ]),
            ],
        ),
    )
}

/// The gateway message that joins a voice channel outside of any guild.
pub open spec fn join_channel_message(channel_id: Seq<char>) -> Json {
    message(
        4,
        Json::Object(
            map![
                "guild_id"@ => Json::Null,
                "channel_id"@ => Json::Text(channel_id),
                "self_mute"@ => Json::Bool(false),
                "self_deaf"@ => Json::Bool(false),
                "self_video"@ => Json::Bool(false),
            ],
        ),
    )
}

/// The gateway heartbeat after the dispatch with number `sequence`; zero
/// stands for no dispatch yet.
pub open spec fn gateway_heartbeat_message(sequence: u32) -> Json {
    message(
        1,
        if sequence > 0 {
            Json::Unsigned(sequence as u64)
        } else {
            Json::Null
        },
    )
}

/// The voice message that joins a call.
pub open spec fn voice_identify_message(
    server_id: Seq<char>,
    user_id: Seq<char>,
    session_id: Seq<char>,
    token: Seq<char>,
) -> Json {
    message(
        0,
        Json::Object(
            map![
                "server_id"@ => Json::Text(server_id),
                "user_id"@ => Json::Text(user_id),
                "session_id"@ => Json::Text(session_id),
                "token"@ => Json::Text(token),
            ],
        ),
    )
}

/// The voice message that names the address and the encryption for audio.
pub open spec fn select_protocol_message(address: Seq<char>, port: u16) -> Json {
    message(
        1,
        Json::Object(
            map![
                "protocol"@ => Json::Text("udp"@),
                "data"@ => Json::Object(map![
                    "address"@ => Json::Text(address),
                    "port"@ => Json::Unsigned(port as u64),
                    "mode"@ => Json::Text("xsalsa20_poly1305"@),
                ]),
            ],
        ),
    )
}

/// The voice heartbeat at a time in seconds.
pub open spec fn voice_heartbeat_message(seconds: u64) -> Json {
    message(3, Json::Unsigned(seconds))
}

/// The voice message that announces that we start or stop to speak.
pub open spec fn speaking_message(sending: bool, ssrc: u32) -> Json {
    message(
        5,
        Json::Object(
            map![
                "speaking"@ => Json::Unsigned(if sending { 1 } else { 0 }),
                "delay"@ => Json::Unsigned(5),
                "ssrc"@ => Json::Unsigned(ssrc as u64),
            ],
        ),
    )
}

/// A message has the operation and the data that it was made of.
pub proof fn lemma_message_fields(op: u64, data: Json)
    ensures
        message(op, data).field("op"@).as_u64() == Some(op),
        message(op, data).field("d"@) == data,
{
    reveal_strlit("op");
    reveal_strlit("d");
    assert("op"@.len() != "d"@.len());
}

/// The gateway login names the token.
pub proof fn lemma_gateway_identify_fields(token: Seq<char>)
    ensures
        gateway_identify_message(token).field("op"@).as_u64() == Some(2u64),
        gateway_identify_message(token).field("d"@).field("token"@).as_text() == Some(token),
{
    reveal_strlit("op");
    reveal_strlit("d");
    reveal_strlit("token");
    reveal_strlit("properties");
    assert("token"@.len() != "properties"@.len());
    assert("op"@.len() != "d"@.len());
}

/// The request for a call names the channel, and no guild.
pub proof fn lemma_join_channel_fields(channel_id: Seq<char>)
    ensures
        join_channel_message(channel_id).field("op"@).as_u64() == Some(4u64),
        join_channel_message(channel_id).field("d"@).field("channel_id"@).as_text() == Some(
            channel_id,
        ),
        join_channel_message(channel_id).field("d"@).field("guild_id"@) == Json::Null,
{
    reveal_strlit("op");
    reveal_strlit("d");
    reveal_strlit("guild_id");
    reveal_strlit("channel_id");
    reveal_strlit("self_mute");
    reveal_strlit("self_deaf");
    reveal_strlit("self_video");
    assert("op"@.len() != "d"@.len());
    assert("channel_id"@[0] != "self_video"@[0]);
    assert("channel_id"@.len() != "guild_id"@.len());
    assert("channel_id"@.len() != "self_mute"@.len());
    assert("channel_id"@.len() != "self_deaf"@.len());
    assert("guild_id"@.len() < "self_mute"@.len());
    assert("guild_id"@.len() < "self_deaf"@.len());
    assert("guild_id"@.len() < "self_video"@.len());
}

/// The message that joins a call names the server, the user, the session and
/// the token.
pub proof fn lemma_voice_identify_fields(
    server_id: Seq<char>,
    user_id: Seq<char>,
    session_id: Seq<char>,
    token: Seq<char>,
)
    ensures
        ({
            let sent = voice_identify_message(server_id, user_id, session_id, token);
            &&& sent.field("op"@).as_u64() == Some(0u64)
            &&& sent.field("d"@).field("server_id"@).as_text() == Some(server_id)
            &&& sent.field("d"@).field("user_id"@).as_text() == Some(user_id)
            &&& sent.field("d"@).field("session_id"@).as_text() == Some(session_id)
            &&& sent.field("d"@).field("token"@).as_text() == Some(token)
        }),
{
    reveal_strlit("op");
    reveal_strlit("d");
    reveal_strlit("server_id");
    reveal_strlit("user_id");
    reveal_strlit("session_id");
    reveal_strlit("token");
    assert("op"@.len() != "d"@.len());
    assert("token"@.len() < "user_id"@.len() < "server_id"@.len() < "session_id"@.len());
}

/// The answer to an address discovery names the address, the port and the
/// encryption.
pub proof fn lemma_select_protocol_fields(address: Seq<char>, port: u16)
    ensures
        ({
            let sent = select_protocol_message(address, port);
            let data = sent.field("d"@).field("data"@);
            &&& sent.field("op"@).as_u64() == Some(1u64)
            &&& sent.field("d"@).field("protocol"@).as_text() == Some("udp"@)
            &&& data.field("address"@).as_text() == Some(address)
            &&& data.field("port"@).as_u64() == Some(port as u64)
            &&& data.field("mode"@).as_text() == Some("xsalsa20_poly1305"@)
        }),
{
    reveal_strlit("op");
    reveal_strlit("d");
    reveal_strlit("protocol");
    reveal_strlit("data");
    reveal_strlit("address");
    reveal_strlit("port");
    reveal_strlit("mode");
    assert("op"@.len() != "d"@.len());
    assert("protocol"@.len() != "data"@.len());
    assert("port"@[0] != "mode"@[0]);
    assert("address"@.len() != "port"@.len());
    assert("address"@.len() != "mode"@.len());
}

/// The announcement says whether we speak and who we are.
pub proof fn lemma_speaking_fields(sending: bool, ssrc: u32)
    ensures
        ({
            let sent = speaking_message(sending, ssrc);
            &&& sent.field("op"@).as_u64() == Some(5u64)
            &&& sent.field("d"@).field("speaking"@).as_u64() == Some(
                if sending {
                    1u64
                } else {
                    0u64
                },
            )
            &&& sent.field("d"@).field("delay"@).as_u64() == Some(5u64)
            &&& sent.field("d"@).field("ssrc"@).as_u64() == Some(ssrc as u64)
        }),
{
    reveal_strlit("op");
    reveal_strlit("d");
    reveal_strlit("speaking");
    reveal_strlit("delay");
    reveal_strlit("ssrc");
    assert("op"@.len() != "d"@.len());
    assert("ssrc"@.len() < "delay"@.len() < "speaking"@.len());
}

/// The members of an object are exactly these.
pub open spec fn has_keys(tree: Json, keys: Set<Seq<char>>) -> bool {
    tree matches Json::Object(members) && members.dom() == keys
}

/// Whoever gets the gateway login finds the token and the properties that a
/// browser names, and nothing else.
pub proof fn lemma_login_is_understood(text: Seq<char>, token: Seq<char>)
    requires
        conveys(text, gateway_identify_message(token)),
    ensures
        ({
            let sent = json_parsed(text).unwrap();
            let data = sent.field("d"@);
            let properties = data.field("properties"@);
            &&& json_parsed(text) is Some
            &&& has_keys(sent, set!["op"@, "d"@])
            &&& sent.holds("op"@, Json::Unsigned(2))
            &&& has_keys(data, set!["token"@, "properties"@])
            &&& data.holds("token"@, Json::Text(token))
            &&& has_keys(properties, set!["capabilities"@, "os"@, "browser"@, "device"@])
            &&& properties.holds("capabilities"@, Json::Unsigned(1021))
            &&& properties.holds("os"@, Json::Text("Windows"@))
            &&& properties.holds("browser"@, Json::Text("Chrome"@))
            &&& properties.holds("device"@, Json::Text(""@))
        }),
{
    reveal_strlit("op");
    reveal_strlit("d");
    reveal_strlit("token");
    reveal_strlit("properties");
    reveal_strlit("capabilities");
    reveal_strlit("os");
    reveal_strlit("browser");
    reveal_strlit("device");
    assert("op"@.len() != "d"@.len());
    assert("token"@.len() != "properties"@.len());
    assert("os"@.len() < "device"@.len() < "browser"@.len() < "capabilities"@.len());
    let sent = json_parsed(text).unwrap();
    let data = sent.field("d"@);
    assert(sent->Object_0.dom() =~= set!["op"@, "d"@]);
    assert(data->Object_0.dom() =~= set!["token"@, "properties"@]);
    assert(data.field("properties"@)->Object_0.dom() =~= set![
        "capabilities"@, "os"@, "browser"@, "device"@,
    ]);
}

/// Whoever gets the request for a call finds the channel, no guild, and that
/// we are heard, hear, and are not seen.
pub proof fn lemma_call_is_understood(text: Seq<char>, channel_id: Seq<char>)
    requires
        conveys(text, join_channel_message(channel_id)),
    ensures
        ({
            let sent = json_parsed(text).unwrap();
            let data = sent.field("d"@);
            &&& json_parsed(text) is Some
            &&& has_keys(sent, set!["op"@, "d"@])
            &&& sent.holds("op"@, Json::Unsigned(4))
            &&& has_keys(
                data,
                set!["guild_id"@, "channel_id"@, "self_mute"@, "self_deaf"@, "self_video"@],
            )
            &&& data.holds("guild_id"@, Json::Null)
            &&& data.holds("channel_id"@, Json::Text(channel_id))
            &&& data.holds("self_mute"@, Json::Bool(false))
            &&& data.holds("self_deaf"@, Json::Bool(false))
            &&& data.holds("self_video"@, Json::Bool(false))
        }),
{
    reveal_strlit("op");
    reveal_strlit("d");
    reveal_strlit("guild_id");
    reveal_strlit("channel_id");
    reveal_strlit("self_mute");
    reveal_strlit("self_deaf");
    reveal_strlit("self_video");
    assert("op"@.len() != "d"@.len());
    assert("channel_id"@[0] != "self_video"@[0]);
    assert("self_mute"@[5] != "self_deaf"@[5]);
    assert("guild_id"@.len() < "self_mute"@.len() < "channel_id"@.len());
    assert("guild_id"@.len() < "self_deaf"@.len() < "self_video"@.len());
    let sent = json_parsed(text).unwrap();
    assert(sent->Object_0.dom() =~= set!["op"@, "d"@]);
    assert(sent.field("d"@)->Object_0.dom() =~= set![
        "guild_id"@, "channel_id"@, "self_mute"@, "self_deaf"@, "self_video"@,
    ]);
}

/// Whoever gets a gateway heartbeat finds the number of the last dispatch, or
/// null where there was none.
pub proof fn lemma_heartbeat_is_understood(text: Seq<char>, sequence: u32)
    requires
        conveys(text, gateway_heartbeat_message(sequence)),
    ensures
        ({
            let sent = json_parsed(text).unwrap();
            &&& json_parsed(text) is Some
            &&& has_keys(sent, set!["op"@, "d"@])
            &&& sent.holds("op"@, Json::Unsigned(1))
            &&& sequence == 0 ==> sent.holds("d"@, Json::Null)
            &&& sequence > 0 ==> sent.holds("d"@, Json::Unsigned(sequence as u64))
        }),
{
    reveal_strlit("op");
    reveal_strlit("d");
    assert("op"@.len() != "d"@.len());
    assert(json_parsed(text).unwrap()->Object_0.dom() =~= set!["op"@, "d"@]);
}

/// Whoever gets the message that joins a call finds the four parts of its
/// description, each under its name.
pub proof fn lemma_join_is_understood(
    text: Seq<char>,
    server_id: Seq<char>,
    user_id: Seq<char>,
    session_id: Seq<char>,
    token: Seq<char>,
)
    requires
        conveys(text, voice_identify_message(server_id, user_id, session_id, token)),
    ensures
        ({
            let sent = json_parsed(text).unwrap();
            let data = sent.field("d"@);
            &&& json_parsed(text) is Some
            &&& has_keys(sent, set!["op"@, "d"@])
            &&& sent.holds("op"@, Json::Unsigned(0))
            &&& has_keys(data, set!["server_id"@, "user_id"@, "session_id"@, "token"@])
            &&& data.holds("server_id"@, Json::Text(server_id))
            &&& data.holds("user_id"@, Json::Text(user_id))
            &&& data.holds("session_id"@, Json::Text(session_id))
            &&& data.holds("token"@, Json::Text(token))
        }),
{
    reveal_strlit("op");
    reveal_strlit("d");
    reveal_strlit("server_id");
    reveal_strlit("user_id");
    reveal_strlit("session_id");
    reveal_strlit("token");
    assert("op"@.len() != "d"@.len());
    assert("token"@.len() < "user_id"@.len() < "server_id"@.len() < "session_id"@.len());
    let sent = json_parsed(text).unwrap();
    assert(sent->Object_0.dom() =~= set!["op"@, "d"@]);
    assert(sent.field("d"@)->Object_0.dom() =~= set![
        "server_id"@, "user_id"@, "session_id"@, "token"@,
    ]);
}

/// Whoever gets the choice of protocol finds the address, the port and the
/// encryption.
pub proof fn lemma_protocol_is_understood(text: Seq<char>, address: Seq<char>, port: u16)
    requires
        conveys(text, select_protocol_message(address, port)),
    ensures
        ({
            let sent = json_parsed(text).unwrap();
            let data = sent.field("d"@);
            let endpoint = data.field("data"@);
            &&& json_parsed(text) is Some
            &&& has_keys(sent, set!["op"@, "d"@])
            &&& sent.holds("op"@, Json::Unsigned(1))
            &&& has_keys(data, set!["protocol"@, "data"@])
            &&& data.holds("protocol"@, Json::Text("udp"@))
            &&& has_keys(endpoint, set!["address"@, "port"@, "mode"@])
            &&& endpoint.holds("address"@, Json::Text(address))
            &&& endpoint.holds("port"@, Json::Unsigned(port as u64))
            &&& endpoint.holds("mode"@, Json::Text("xsalsa20_poly1305"@))
        }),
{
    reveal_strlit("op");
    reveal_strlit("d");
    reveal_strlit("protocol");
    reveal_strlit("data");
    reveal_strlit("address");
    reveal_strlit("port");
    reveal_strlit("mode");
    assert("op"@.len() != "d"@.len());
    assert("protocol"@.len() != "data"@.len());
    assert("port"@[0] != "mode"@[0]);
    assert("address"@.len() != "port"@.len());
    assert("address"@.len() != "mode"@.len());
    let sent = json_parsed(text).unwrap();
    let data = sent.field("d"@);
    assert(sent->Object_0.dom() =~= set!["op"@, "d"@]);
    assert(data->Object_0.dom() =~= set!["protocol"@, "data"@]);
    assert(data.field("data"@)->Object_0.dom() =~= set!["address"@, "port"@, "mode"@]);
}

/// Whoever gets a voice heartbeat finds the time.
pub proof fn lemma_time_is_understood(text: Seq<char>, seconds: u64)
    requires
        conveys(text, voice_heartbeat_message(seconds)),
    ensures
        ({
            let sent = json_parsed(text).unwrap();
            &&& json_parsed(text) is Some
            &&& has_keys(sent, set!["op"@, "d"@])
            &&& sent.holds("op"@, Json::Unsigned(3))
            &&& sent.holds("d"@, Json::Unsigned(seconds))
        }),
{
    reveal_strlit("op");
    reveal_strlit("d");
    assert("op"@.len() != "d"@.len());
    assert(json_parsed(text).unwrap()->Object_0.dom() =~= set!["op"@, "d"@]);
}

/// Whoever gets the announcement finds whether we speak, and who we are.
pub proof fn lemma_speaking_is_understood(text: Seq<char>, sending: bool, ssrc: u32)
    requires
        conveys(text, speaking_message(sending, ssrc)),
    ensures
        ({
            let sent = json_parsed(text).unwrap();
            let data = sent.field("d"@);
            &&& json_parsed(text) is Some
            &&& has_keys(sent, set!["op"@, "d"@])
            &&& sent.holds("op"@, Json::Unsigned(5))
            &&& has_keys(data, set!["speaking"@, "delay"@, "ssrc"@])
            &&& sending ==> data.holds("speaking"@, Json::Unsigned(1))
            &&& !sending ==> data.holds("speaking"@, Json::Unsigned(0))
            &&& data.holds("delay"@, Json::Unsigned(5))
            &&& data.holds("ssrc"@, Json::Unsigned(ssrc as u64))
        }),
{
    reveal_strlit("op");
    reveal_strlit("d");
    reveal_strlit("speaking");
    reveal_strlit("delay");
    reveal_strlit("ssrc");
    assert("op"@.len() != "d"@.len());
    assert("ssrc"@.len() < "delay"@.len() < "speaking"@.len());
    let sent = json_parsed(text).unwrap();
    assert(sent->Object_0.dom() =~= set!["op"@, "d"@]);
    assert(sent.field("d"@)->Object_0.dom() =~= set!["speaking"@, "delay"@, "ssrc"@]);
}

/// Writes down a message.
fn render(op: u64, data: Value) -> (text: String)
    requires
        json_contents(data).within((READABLE_DEPTH - 1) as nat),
    ensures
        conveys(text@, message(op, json_contents(data))),
{
    let mut document = json_object();
    let ghost tree = json_contents(data);
    json_set(&mut document, "op", json_number(op));
    json_set(&mut document, "d", data);
    assert(json_contents(document) == message(op, tree));
    assert(json_contents(document).within(READABLE_DEPTH as nat)) by {
        reveal_with_fuel(Json::within, 2);
    }
    json_to_string(&document)
}

/// Writes down `gateway_identify_message`.
pub fn gateway_identify(token: &str) -> (text: String)
    ensures
        conveys(text@, gateway_identify_message(token@)),
{
    let mut properties = json_object();
    json_set(&mut properties, "capabilities", json_number(1021));
    json_set(&mut properties, "os", json_string("Windows"));
    json_set(&mut properties, "browser", json_string("Chrome"));
    json_set(&mut properties, "device", json_string(""));
    let mut data = json_object();
    json_set(&mut data, "token", json_string(token));
    json_set(&mut data, "properties", properties);
    assert(json_contents(data).within((READABLE_DEPTH - 1) as nat)) by {
        reveal_with_fuel(Json::within, 3);
    }
    render(2, data)
}

/// Writes down `join_channel_message`.
pub fn join_channel(channel_id: &str) -> (text: String)
    ensures
        conveys(text@, join_channel_message(channel_id@)),
{
    let mut data = json_object();
    json_set(&mut data, "guild_id", json_null());
    json_set(&mut data, "channel_id", json_string(channel_id));
    json_set(&mut data, "self_mute", json_bool(false));
    json_set(&mut data, "self_deaf", json_bool(false));
    json_set(&mut data, "self_video", json_bool(false));
    assert(json_contents(data).within((READABLE_DEPTH - 1) as nat)) by {
        reveal_with_fuel(Json::within, 2);
    }
    render(4, data)
}

/// Writes down `gateway_heartbeat_message`.
pub fn gateway_heartbeat(sequence: u32) -> (text: String)
    ensures
        conveys(text@, gateway_heartbeat_message(sequence)),
{
    if sequence > 0 {
        render(1, json_number(sequence as u64))
    } else {
        render(1, json_null())
    }
}

/// Writes down `voice_identify_message`.
pub fn voice_identify(server_id: &str, user_id: &str, session_id: &str, token: &str) -> (text:
    String)
    ensures
        conveys(text@, voice_identify_message(server_id@, user_id@, session_id@, token@)),
{
    let mut data = json_object();
    json_set(&mut data, "server_id", json_string(server_id));
    json_set(&mut data, "user_id", json_string(user_id));
    json_set(&mut data, "session_id", json_string(session_id));
    json_set(&mut data, "token", json_string(token));
    assert(json_contents(data).within((READABLE_DEPTH - 1) as nat)) by {
        reveal_with_fuel(Json::within, 2);
    }
    render(0, data)
}

/// Writes down `select_protocol_message`.
pub fn select_protocol(address: &str, port: u16) -> (text: String)
    ensures
        conveys(text@, select_protocol_message(address@, port)),
{
    let mut endpoint = json_object();
    json_set(&mut endpoint, "address", json_string(address));
    json_set(&mut endpoint, "port", json_number(port as u64));
    json_set(&mut endpoint, "mode", json_string("xsalsa20_poly1305"));
    let mut data = json_object();
    json_set(&mut data, "protocol", json_string("udp"));
    json_set(&mut data, "data", endpoint);
    assert(json_contents(data).within((READABLE_DEPTH - 1) as nat)) by {
        reveal_with_fuel(Json::within, 3);
    }
    render(1, data)
}

/// Writes down `voice_heartbeat_message`.
pub fn voice_heartbeat(seconds: u64) -> (text: String)
    ensures
        conveys(text@, voice_heartbeat_message(seconds)),
{
    render(3, json_number(seconds))
}

/// Writes down `speaking_message`.
pub fn speaking(sending: bool, ssrc: u32) -> (text: String)
    ensures
        conveys(text@, speaking_message(sending, ssrc)),
{
    let mut data = json_object();
    json_set(
        &mut data,
        "speaking",
        json_number(
            if sending {
                1
            } else {
                0
            },
        ),
    );
    json_set(&mut data, "delay", json_number(5));
    json_set(&mut data, "ssrc", json_number(ssrc as u64));
    assert(json_contents(data).within((READABLE_DEPTH - 1) as nat)) by {
        reveal_with_fuel(Json::within, 2);
    }
    render(5, data)
}

} // verus!
