use discord_voice::error::Error;
use discord_voice::gateway::CallInformation;
use discord_voice::gui::{Action, GatewayState, Message, Tone, VoiceState, GUI};

type Window = GUI<u8, char>;

fn call() -> CallInformation {
    CallInformation {
        endpoint: "wss://h/?v=7".to_owned(),
        server_id: "1".to_owned(),
        user_id: "2".to_owned(),
        session_id: "3".to_owned(),
        token: "4".to_owned(),
    }
}

fn window() -> Window {
    Window::new().0
}

#[test]
fn window_starts_by_connecting() {
    let (gui, action) = Window::new();
    assert_eq!(action, Action::ConnectGateway);
    assert_eq!((gui.token.as_str(), gui.channel_id.as_str(), gui.speaking), ("", "", false));
    assert!(matches!(gui.gateway_state, GatewayState::Connecting));
    assert!(matches!(gui.voice_state, VoiceState::Disconnected));
    assert_eq!(gui.title(), "DiscordVoiceTest");
}

#[test]
fn login_needs_a_connection_and_uses_the_token() {
    let mut gui = window();
    assert_eq!(gui.update(Message::TokenChanged("secret".to_owned())), Action::Nothing);
    assert_eq!(gui.update(Message::LoginPressed), Action::Nothing);
    assert!(!gui.screen().login_enabled);
    assert_eq!(gui.update(Message::GatewayConnected(Ok(5))), Action::Nothing);
    assert!(gui.screen().login_enabled);
    assert_eq!(gui.update(Message::LoginPressed), Action::Identify("secret".to_owned()));
    assert!(matches!(gui.gateway_state, GatewayState::Connected(5)));
}

#[test]
fn call_needs_a_login_and_uses_the_channel() {
    let mut gui = window();
    gui.update(Message::ChannelIdChanged("77".to_owned()));
    gui.update(Message::GatewayConnected(Ok(5)));
    assert_eq!(gui.update(Message::CallPressed), Action::Nothing);
    assert!(!gui.screen().call_enabled);
    gui.update(Message::GatewayReady);
    assert!(matches!(gui.gateway_state, GatewayState::Ready(5)));
    assert!(gui.screen().call_enabled && !gui.screen().login_enabled);
    assert_eq!(gui.update(Message::LoginPressed), Action::Nothing);
    assert_eq!(gui.update(Message::CallPressed), Action::StartCall("77".to_owned()));
}

#[test]
fn ready_without_a_connection_changes_nothing() {
    let mut gui = window();
    gui.update(Message::GatewayReady);
    assert!(matches!(gui.gateway_state, GatewayState::Connecting));
    gui.update(Message::GatewayConnected(Err(Error::GatewayError)));
    gui.update(Message::GatewayReady);
    assert!(matches!(gui.gateway_state, GatewayState::Error));
    assert_eq!(gui.screen().gateway.text, "Gateway error");
    assert_eq!(gui.screen().gateway.tone, Tone::Bad);
}

#[test]
fn started_call_is_joined() {
    let mut gui = window();
    assert_eq!(gui.update(Message::CallStarted(Ok(call()))), Action::ConnectVoice(call()));
    assert_eq!(gui.screen().voice.text, "Voice connecting...");
    assert_eq!(gui.update(Message::VoiceConnected(Ok('v'))), Action::Nothing);
    assert!(matches!(gui.voice_state, VoiceState::Connected('v')));
    assert_eq!(gui.screen().voice.tone, Tone::Good);
}

#[test]
fn failed_call_is_shown() {
    let mut gui = window();
    assert_eq!(
        gui.update(Message::CallStarted(Err(Error::ApplicationError))),
        Action::Nothing
    );
    assert_eq!(gui.screen().voice.text, "Voice error");
    let mut gui = window();
    assert_eq!(gui.update(Message::VoiceConnected(Err(Error::SocketError))), Action::Nothing);
    assert_eq!(gui.screen().voice.text, "Voice error");
}

#[test]
fn speaking_needs_a_call_and_toggles() {
    let mut gui = window();
    assert_eq!(gui.update(Message::SpeakPressed), Action::Nothing);
    assert!(!gui.speaking && !gui.screen().speak_enabled);
    gui.update(Message::VoiceConnected(Ok('v')));
    assert_eq!(gui.screen().speak.text, "Start speaking");
    assert_eq!(gui.update(Message::SpeakPressed), Action::SetSending(true));
    assert_eq!(gui.screen().speak.text, "Stop speaking");
    assert_eq!(gui.screen().speak.tone, Tone::Bad);
    assert_eq!(gui.update(Message::SpeakPressed), Action::SetSending(false));
    assert!(!gui.speaking);
}

#[test]
fn states_are_shown() {
    let mut gui = window();
    assert_eq!(gui.screen().gateway.text, "Gateway connecting...");
    assert_eq!(gui.screen().gateway.tone, Tone::Plain);
    assert_eq!(gui.screen().voice.text, "Voice disconnected");
    gui.update(Message::GatewayConnected(Ok(1)));
    assert_eq!(gui.screen().gateway.text, "Gateway connected");
    assert_eq!(gui.screen().gateway.tone, Tone::Good);
    gui.update(Message::GatewayReady);
    assert_eq!(gui.screen().gateway.text, "Gateway ready");
    gui.update(Message::VoiceConnected(Ok('v')));
    assert_eq!(gui.screen().voice.text, "Voice connected");
}

#[test]
fn first_screen_is_empty() {
    let gui = window();
    let screen = gui.screen();
    assert_eq!((screen.token.placeholder, screen.token.value), ("Token", ""));
    assert_eq!((screen.channel_id.placeholder, screen.channel_id.value), ("Channel ID", ""));
    assert_eq!((screen.login, screen.call), ("Login", "Call"));
    assert_eq!(screen.speak.text, "Start speaking");
    assert!(!screen.login_enabled && !screen.call_enabled && !screen.speak_enabled);
}

#[test]
fn typed_text_is_shown() {
    let mut gui = window();
    gui.update(Message::TokenChanged("secret".to_owned()));
    gui.update(Message::ChannelIdChanged("77".to_owned()));
    assert_eq!(gui.screen().token.value, "secret");
    assert_eq!(gui.screen().channel_id.value, "77");
}
