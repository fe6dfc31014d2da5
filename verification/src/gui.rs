//! The window: what it shows, and what its buttons and the network do to it.
//!
//! The handles of the connections, `G` for the gateway and `V` for the call,
//! are only kept here.

use crate::error::Error;
use crate::gateway::CallInformation;
use vstd::prelude::*;

verus! {

/// How far the connection to the gateway is.
#[derive(Debug)]
pub enum GatewayState<G> {
    Connecting,
    /// Connected, but not logged in.
    Connected(G),
    /// Logged in.
    Ready(G),
    Error,
}

/// How far the call is.
#[derive(Debug)]
pub enum VoiceState<V> {
    Disconnected,
    Connecting,
    Connected(V),
    Error,
}

/// The state of the window.
#[derive(Debug)]
pub struct GUI<G, V> {
    pub token: String,
    pub channel_id: String,
    pub gateway_state: GatewayState<G>,
    pub voice_state: VoiceState<V>,
    pub speaking: bool,
}

/// What happens to the window.
#[derive(Debug)]
pub enum Message<G, V> {
    TokenChanged(String),
    ChannelIdChanged(String),
    LoginPressed,
    CallPressed,
    SpeakPressed,
    GatewayConnected(Result<G, Error>),
    GatewayReady,
    CallStarted(Result<CallInformation, Error>),
    VoiceConnected(Result<V, Error>),
}

/// What the window wants done.
#[derive(Debug, PartialEq, Eq)]
pub enum Action {
    Nothing,
    /// Connect to the gateway.
    ConnectGateway,
    /// Log in with this token.
    Identify(String),
    /// Call in this channel.
    StartCall(String),
    /// Join this call.
    ConnectVoice(CallInformation),
    /// Start or stop to speak.
    SetSending(bool),
}

/// The mood in which a text is shown.
#[derive(Debug, Clone, Copy, PartialEq, Eq, Structural)]
pub enum Tone {
    Plain,
    Good,
    Bad,
}

/// A text to be shown.
#[derive(Debug, Clone, Copy)]
pub struct Label {
    pub text: &'static str,
    pub tone: Tone,
}

/// A line in which text is typed.
#[derive(Debug, Clone, Copy)]
pub struct Input<'a> {
    /// What is shown as long as nothing is typed.
    pub placeholder: &'static str,
    /// What is typed.
    pub value: &'a str,
}

/// What the window shows.
#[derive(Debug, Clone, Copy)]
pub struct Screen<'a> {
    pub gateway: Label,
    pub voice: Label,
    pub token: Input<'a>,
    /// The button that logs in.
    pub login: &'static str,
    /// Whether it can be pressed.
    pub login_enabled: bool,
    pub channel_id: Input<'a>,
    /// The button that calls.
    pub call: &'static str,
    /// Whether it can be pressed.
    pub call_enabled: bool,
    /// The button that starts and stops to speak.
    pub speak: Label,
    /// Whether it can be pressed.
    pub speak_enabled: bool,
}

/// The text on the state of the gateway.
pub open spec fn gateway_label<G>(state: GatewayState<G>) -> (Seq<char>, Tone) {
    match state {
        GatewayState::Connecting => ("Gateway connecting..."@, Tone::Plain),
        GatewayState::Connected(_) => ("Gateway connected"@, Tone::Good),
        GatewayState::Ready(_) => ("Gateway ready"@, Tone::Good),
        GatewayState::Error => ("Gateway error"@, Tone::Bad),
    }
}

/// The text on the state of the call.
pub open spec fn voice_label<V>(state: VoiceState<V>) -> (Seq<char>, Tone) {
    match state {
        VoiceState::Disconnected => ("Voice disconnected"@, Tone::Plain),
        VoiceState::Connecting => ("Voice connecting..."@, Tone::Plain),
        VoiceState::Connected(_) => ("Voice connected"@, Tone::Good),
        VoiceState::Error => ("Voice error"@, Tone::Bad),
    }
}

/// The text on the button that starts and stops to speak.
pub open spec fn speak_label(speaking: bool) -> (Seq<char>, Tone) {
    if speaking {
        ("Stop speaking"@, Tone::Bad)
    } else {
        ("Start speaking"@, Tone::Plain)
    }
}

impl View for Label {
    type V = (Seq<char>, Tone);

    open spec fn view(&self) -> (Seq<char>, Tone) {
        (self.text@, self.tone)
    }
}

impl<'a> View for Input<'a> {
    type V = (Seq<char>, Seq<char>);

    open spec fn view(&self) -> (Seq<char>, Seq<char>) {
        (self.placeholder@, self.value@)
    }
}

/// The window shows this screen.
pub open spec fn shows<G, V>(gui: GUI<G, V>, screen: Screen<'_>) -> bool {
    &&& screen.gateway@ == gateway_label(gui.gateway_state)
    &&& screen.voice@ == voice_label(gui.voice_state)
    &&& screen.token@ == ("Token"@, gui.token@)
    &&& screen.login@ == "Login"@
    &&& screen.login_enabled == (gui.gateway_state is Connected)
    &&& screen.channel_id@ == ("Channel ID"@, gui.channel_id@)
    &&& screen.call@ == "Call"@
    &&& screen.call_enabled == (gui.gateway_state is Ready)
    &&& screen.speak@ == speak_label(gui.speaking)
    &&& screen.speak_enabled == (gui.voice_state is Connected)
}

/// The window after a message, and what it wants done.
pub open spec fn updated<G, V>(gui: GUI<G, V>, message: Message<G, V>) -> (GUI<G, V>, Action) {
    match message {
        Message::TokenChanged(token) => (GUI { token, ..gui }, Action::Nothing),
        Message::ChannelIdChanged(channel_id) => (GUI { channel_id, ..gui }, Action::Nothing),
        Message::LoginPressed => (
            gui,
            if gui.gateway_state is Connected {
                Action::Identify(gui.token)
            } else {
                Action::Nothing
            },
        ),
        Message::CallPressed => (
            gui,
            if gui.gateway_state is Ready {
                Action::StartCall(gui.channel_id)
            } else {
                Action::Nothing
            },
        ),
        Message::SpeakPressed => if gui.voice_state is Connected {
            (GUI { speaking: !gui.speaking, ..gui }, Action::SetSending(!gui.speaking))
        } else {
            (gui, Action::Nothing)
        },
        Message::GatewayConnected(result) => (
            GUI {
                gateway_state: match result {
                    Ok(gateway) => GatewayState::Connected(gateway),
                    Err(_) => GatewayState::Error,
                },
                ..gui
            },
            Action::Nothing,
        ),
        Message::GatewayReady => (
            GUI {
                gateway_state: match gui.gateway_state {
                    GatewayState::Connected(gateway) => GatewayState::Ready(gateway),
                    state => state,
                },
                ..gui
            },
            Action::Nothing,
        ),
        Message::CallStarted(result) => match result {
            Ok(call) => (
                GUI { voice_state: VoiceState::Connecting, ..gui },
                Action::ConnectVoice(call),
            ),
            Err(_) => (GUI { voice_state: VoiceState::Error, ..gui }, Action::Nothing),
        },
        Message::VoiceConnected(result) => (
            GUI {
                voice_state: match result {
                    Ok(voice) => VoiceState::Connected(voice),
                    Err(_) => VoiceState::Error,
                },
                ..gui
            },
            Action::Nothing,
        ),
    }
}

impl<G, V> GUI<G, V> {
    /// The window at the start, and what it wants done.
    pub fn new() -> (r: (GUI<G, V>, Action))
        ensures
            r.0.token@ == Seq::<char>::empty(),
            r.0.channel_id@ == Seq::<char>::empty(),
            r.0.gateway_state == GatewayState::<G>::Connecting,
            r.0.voice_state == VoiceState::<V>::Disconnected,
            !r.0.speaking,
            r.1 == Action::ConnectGateway,
    {
        (
            GUI {
                token: String::new(),
                channel_id: String::new(),
                gateway_state: GatewayState::Connecting,
                voice_state: VoiceState::Disconnected,
                speaking: false,
            },
            Action::ConnectGateway,
        )
    }

    /// The title of the window.
    pub fn title(&self) -> (r: String)
        ensures
            r@ == "DiscordVoiceTest"@,
    {
        "DiscordVoiceTest".to_owned()
    }

    /// Takes in what happens to the window, and says what it wants done.
    pub fn update(&mut self, message: Message<G, V>) -> (action: Action)
        ensures
            (*final(self), action) == updated(*old(self), message),
    {
        match message {
            Message::TokenChanged(token) => {
                self.token = token;
            },
            Message::ChannelIdChanged(id) => {
                self.channel_id = id;
            },
            Message::LoginPressed => {
                if let GatewayState::Connected(_) = &self.gateway_state {
                    return Action::Identify(self.token.clone());
                }
            },
            Message::CallPressed => {
                if let GatewayState::Ready(_) = &self.gateway_state {
                    return Action::StartCall(self.channel_id.clone());
                }
            },
            Message::SpeakPressed => {
                if let VoiceState::Connected(_) = &self.voice_state {
                    self.speaking = !self.speaking;
                    return Action::SetSending(self.speaking);
                }
            },
            Message::GatewayConnected(gateway) => {
                self.gateway_state = match gateway {
                    Ok(gateway) => GatewayState::Connected(gateway),
                    Err(_) => GatewayState::Error,
                };
            },
            Message::GatewayReady => {
                let mut state: GatewayState<G> = GatewayState::Connecting;
                std::mem::swap(&mut state, &mut self.gateway_state);
                self.gateway_state = match state {
                    GatewayState::Connected(gateway) => GatewayState::Ready(gateway),
                    state => state,
                };
            },
            Message::CallStarted(call_information) => match call_information {
                Ok(call_information) => {
                    self.voice_state = VoiceState::Connecting;
                    return Action::ConnectVoice(call_information);
                },
                Err(_) => {
                    self.voice_state = VoiceState::Error;
                },
            },
            Message::VoiceConnected(voice) => {
                self.voice_state = match voice {
                    Ok(voice) => VoiceState::Connected(voice),
                    Err(_) => VoiceState::Error,
                };
            },
        }
        Action::Nothing
    }

    /// What the window shows.
    pub fn screen(&self) -> (r: Screen<'_>)
        ensures
            shows(*self, r),
    {
        let gateway = match &self.gateway_state {
            GatewayState::Connecting => Label {
                text: "Gateway connecting...",
                tone: Tone::Plain,
            },
            GatewayState::Connected(_) => Label { text: "Gateway connected", tone: Tone::Good },
            GatewayState::Ready(_) => Label { text: "Gateway ready", tone: Tone::Good },
            GatewayState::Error => Label { text: "Gateway error", tone: Tone::Bad },
        };
        let voice = match &self.voice_state {
            VoiceState::Disconnected => Label { text: "Voice disconnected", tone: Tone::Plain },
            VoiceState::Connecting => Label { text: "Voice connecting...", tone: Tone::Plain },
            VoiceState::Connected(_) => Label { text: "Voice connected", tone: Tone::Good },
            VoiceState::Error => Label { text: "Voice error", tone: Tone::Bad },
        };
        let speak = if self.speaking {
            Label { text: "Stop speaking", tone: Tone::Bad }
        } else {
            Label { text: "Start speaking", tone: Tone::Plain }
        };
        Screen {
            gateway,
            voice,
            token: Input { placeholder: "Token", value: self.token.as_str() },
            login: "Login",
            login_enabled: matches!(&self.gateway_state, GatewayState::Connected(_)),
            channel_id: Input { placeholder: "Channel ID", value: self.channel_id.as_str() },
            call: "Call",
            call_enabled: matches!(&self.gateway_state, GatewayState::Ready(_)),
            speak,
            speak_enabled: matches!(&self.voice_state, VoiceState::Connected(_)),
        }
    }
}

/// A button can be pressed exactly when pressing it leads to something, and
/// pressing one that cannot be pressed would change nothing.
pub proof fn lemma_enabled_buttons_act<G, V>(gui: GUI<G, V>)
    ensures
        gui.gateway_state is Connected <==> updated(gui, Message::LoginPressed).1
            != Action::Nothing,
        gui.gateway_state is Ready <==> updated(gui, Message::CallPressed).1 != Action::Nothing,
        gui.voice_state is Connected <==> updated(gui, Message::SpeakPressed).1
            != Action::Nothing,
        updated(gui, Message::LoginPressed).0 == gui,
        updated(gui, Message::CallPressed).0 == gui,
        !(gui.voice_state is Connected) ==> updated(gui, Message::SpeakPressed).0 == gui,
{
}

/// On the screen a button can be pressed exactly when pressing it leads to
/// something, and the inputs show what was typed.
pub proof fn lemma_screen_shows_what_can_be_done<G, V>(gui: GUI<G, V>, screen: Screen<'_>)
    requires
        shows(gui, screen),
    ensures
        screen.login_enabled <==> updated(gui, Message::LoginPressed).1 != Action::Nothing,
        screen.call_enabled <==> updated(gui, Message::CallPressed).1 != Action::Nothing,
        screen.speak_enabled <==> updated(gui, Message::SpeakPressed).1 != Action::Nothing,
        gui.gateway_state is Connected <==> screen.login_enabled,
        gui.gateway_state is Ready <==> screen.call_enabled,
        gui.voice_state is Connected <==> screen.speak_enabled,
        screen.token.value@ == gui.token@,
        screen.token.placeholder@ == "Token"@,
        screen.login@ == "Login"@,
        screen.channel_id.value@ == gui.channel_id@,
        screen.channel_id.placeholder@ == "Channel ID"@,
        screen.call@ == "Call"@,
{
}

/// The screen names the state of the gateway, of the call and of our speech,
/// each in a text and a tone of its own.
pub proof fn lemma_screen_names_the_state<G, V>(gui: GUI<G, V>, screen: Screen<'_>)
    requires
        shows(gui, screen),
    ensures
        gui.gateway_state is Connecting ==> screen.gateway.text@ == "Gateway connecting..."@
            && screen.gateway.tone == Tone::Plain,
        gui.gateway_state is Connected ==> screen.gateway.text@ == "Gateway connected"@
            && screen.gateway.tone == Tone::Good,
        gui.gateway_state is Ready ==> screen.gateway.text@ == "Gateway ready"@
            && screen.gateway.tone == Tone::Good,
        gui.gateway_state is Error ==> screen.gateway.text@ == "Gateway error"@
            && screen.gateway.tone == Tone::Bad,
        gui.voice_state is Disconnected ==> screen.voice.text@ == "Voice disconnected"@
            && screen.voice.tone == Tone::Plain,
        gui.voice_state is Connecting ==> screen.voice.text@ == "Voice connecting..."@
            && screen.voice.tone == Tone::Plain,
        gui.voice_state is Connected ==> screen.voice.text@ == "Voice connected"@
            && screen.voice.tone == Tone::Good,
        gui.voice_state is Error ==> screen.voice.text@ == "Voice error"@ && screen.voice.tone
            == Tone::Bad,
        gui.speaking ==> screen.speak.text@ == "Stop speaking"@ && screen.speak.tone == Tone::Bad,
        !gui.speaking ==> screen.speak.text@ == "Start speaking"@ && screen.speak.tone
            == Tone::Plain,
{
}

/// Whatever the window showed before, a finished connection or its failure is
/// taken over, with the handle that came, and the rest of the window stays.
pub proof fn lemma_window_follows_the_network<G, V>(
    gui: GUI<G, V>,
    gateway: G,
    voice: V,
    call: CallInformation,
    error: Error,
)
    ensures
        updated(gui, Message::GatewayConnected(Ok(gateway))) == (
            GUI { gateway_state: GatewayState::Connected(gateway), ..gui },
            Action::Nothing,
        ),
        updated(gui, Message::GatewayConnected(Err(error))) == (
            GUI { gateway_state: GatewayState::Error, ..gui },
            Action::Nothing,
        ),
        updated(gui, Message::CallStarted(Ok(call))) == (
            GUI { voice_state: VoiceState::Connecting, ..gui },
            Action::ConnectVoice(call),
        ),
        updated(gui, Message::CallStarted(Err(error))) == (
            GUI { voice_state: VoiceState::Error, ..gui },
            Action::Nothing,
        ),
        updated(gui, Message::VoiceConnected(Ok(voice))) == (
            GUI { voice_state: VoiceState::Connected(voice), ..gui },
            Action::Nothing,
        ),
        updated(gui, Message::VoiceConnected(Err(error))) == (
            GUI { voice_state: VoiceState::Error, ..gui },
            Action::Nothing,
        ),
        gui.gateway_state matches GatewayState::Connected(old_gateway) ==> updated(
            gui,
            Message::GatewayReady,
        ) == (GUI { gateway_state: GatewayState::Ready(old_gateway), ..gui }, Action::Nothing),
        !(gui.gateway_state is Connected) ==> updated(gui, Message::GatewayReady) == (
            gui,
            Action::Nothing,
        ),
{
}

/// Typing changes the text that is typed, to exactly what was typed, and
/// nothing else.
pub proof fn lemma_typing_changes_one_text<G, V>(gui: GUI<G, V>, text: String)
    ensures
        updated(gui, Message::TokenChanged(text)) == (GUI { token: text, ..gui }, Action::Nothing),
        updated(gui, Message::ChannelIdChanged(text)) == (
            GUI { channel_id: text, ..gui },
            Action::Nothing,
        ),
{
}

/// The button that starts to speak also stops.
pub proof fn lemma_speaking_toggles<G, V>(gui: GUI<G, V>)
    requires
        gui.voice_state is Connected,
    ensures
        ({
            let once = updated(gui, Message::SpeakPressed);
            let twice = updated(once.0, Message::SpeakPressed);
            &&& once.0 == (GUI { speaking: !gui.speaking, ..gui })
            &&& once.1 == Action::SetSending(!gui.speaking)
            &&& twice.1 == Action::SetSending(gui.speaking)
            &&& twice.0 == gui
        }),
{
}

/// What was typed last is what the buttons use.
pub proof fn lemma_typed_text_is_used<G, V>(gui: GUI<G, V>, text: String)
    ensures
        gui.gateway_state is Connected ==> updated(
            updated(gui, Message::TokenChanged(text)).0,
            Message::LoginPressed,
        ).1 == Action::Identify(text),
        gui.gateway_state is Ready ==> updated(
            updated(gui, Message::ChannelIdChanged(text)).0,
            Message::CallPressed,
        ).1 == Action::StartCall(text),
{
}

/// Logging in works once: when it has, the button to log in gives way to the
/// one to call.
pub proof fn lemma_login_enables_call<G, V>(gui: GUI<G, V>)
    requires
        gui.gateway_state is Connected,
    ensures
        updated(gui, Message::GatewayReady).0.gateway_state is Ready,
        updated(gui, Message::GatewayReady).0.gateway_state->Ready_0
            == gui.gateway_state->Connected_0,
{
}

} // verus!
