//! The engine's surface: events from the application and the glue, actions
//! for them, the closing mood, and the opaque handles.
use vstd::prelude::*;
use vstd::string::*;
use vstd::utf8::*;
use crate::event::{Code, Key};

verus! {

/// A JSON document as serde_json holds it; carried through, never read.
#[verifier::external_type_specification]
#[verifier::external_body]
pub struct ExValue(serde_json::Value);

/// Events from the application.
#[derive(Debug, PartialEq, Eq)]
pub enum APIEvent {
    Start,
    /// The number of words of the code to allocate.
    AllocateCode(usize),
    InputCode,
    InputHelperRefreshNameplates,
    InputHelperChooseNameplate(String),
    InputHelperChooseWords(String),
    SetCode(Code),
    Close,
    Send(Vec<u8>),
}

/// Misuse of the interactive code input helper.
#[derive(Debug, PartialEq, Eq, Clone, Copy)]
pub enum InputHelperError {
    Inactive,
    MustChooseNameplateFirst,
    AlreadyChoseNameplate,
    AlreadyChoseWords,
}

pub open spec fn input_error_message(e: InputHelperError) -> Seq<char> {
    match e {
        InputHelperError::Inactive => "Inactive"@,
        InputHelperError::MustChooseNameplateFirst => "Should Choose Nameplate first"@,
        InputHelperError::AlreadyChoseNameplate => "nameplate already chosen, can't go back"@,
        InputHelperError::AlreadyChoseWords => "Words are already chosen"@,
    }
}

pub open spec fn input_error_description(e: InputHelperError) -> Seq<char> {
    match e {
        InputHelperError::Inactive => "Input is not yet started"@,
        InputHelperError::MustChooseNameplateFirst => "You should input name plate first!"@,
        InputHelperError::AlreadyChoseNameplate => "Nameplate is already chosen, you can't go back!"@,
        InputHelperError::AlreadyChoseWords => "Words are already chosen you can't go back!"@,
    }
}

impl InputHelperError {
    /// The short text shown to a user.
    pub fn message(&self) -> (r: String)
        ensures
            r@ == input_error_message(*self),
    {
        match self {
            InputHelperError::Inactive => "Inactive".to_owned(),
            InputHelperError::MustChooseNameplateFirst => "Should Choose Nameplate first".to_owned(),
            InputHelperError::AlreadyChoseNameplate => "nameplate already chosen, can't go back".to_owned(),
            InputHelperError::AlreadyChoseWords => "Words are already chosen".to_owned(),
        }
    }

    /// The longer explanation of the misuse.
    pub fn description(&self) -> (r: &'static str)
        ensures
            r@ == input_error_description(*self),
    {
        match self {
            InputHelperError::Inactive => "Input is not yet started",
            InputHelperError::MustChooseNameplateFirst => "You should input name plate first!",
            InputHelperError::AlreadyChoseNameplate => "Nameplate is already chosen, you can't go back!",
            InputHelperError::AlreadyChoseWords => "Words are already chosen you can't go back!",
        }
    }
}

/// A fatal error of the transport or the server.
#[derive(Debug, PartialEq, Eq, Clone)]
pub enum WormholeError {
    ConnectionError(String),
    ServerError(String),
}

/// Why a session closed.
#[derive(Debug, PartialEq, Eq, Clone)]
pub enum Mood {
    Happy,
    Lonely,
    Errory(WormholeError),
    Scared,
    Unwelcome,
}

/// The word for a mood on the wire.
pub open spec fn mood_word(m: Mood) -> Seq<char> {
    match m {
        Mood::Happy => "happy"@,
        Mood::Lonely => "lonely"@,
        Mood::Errory(_) => "errory"@,
        Mood::Scared => "scary"@,
        Mood::Unwelcome => "unwelcome"@,
    }
}

impl WormholeError {
    /// An equal copy.
    pub fn copy(&self) -> (r: WormholeError)
        ensures
            r == *self,
    {
        match self {
            WormholeError::ConnectionError(m) => WormholeError::ConnectionError(m.clone()),
            WormholeError::ServerError(m) => WormholeError::ServerError(m.clone()),
        }
    }
}

impl Mood {
    /// An equal copy.
    pub fn copy(&self) -> (r: Mood)
        ensures
            r == *self,
    {
        match self {
            Mood::Happy => Mood::Happy,
            Mood::Lonely => Mood::Lonely,
            Mood::Errory(e) => Mood::Errory(e.copy()),
            Mood::Scared => Mood::Scared,
            Mood::Unwelcome => Mood::Unwelcome,
        }
    }

    /// The word sent to the server when closing.
    pub fn to_protocol_string(self) -> (r: String)
        ensures
            r@ == mood_word(self),
    {
        match self {
            Mood::Happy => "happy".to_owned(),
            Mood::Lonely => "lonely".to_owned(),
            Mood::Errory(_) => "errory".to_owned(),
            Mood::Scared => "scary".to_owned(),
            Mood::Unwelcome => "unwelcome".to_owned(),
        }
    }
}

/// Actions for the application.
#[derive(PartialEq)]
pub enum APIAction {
    GotWelcome(serde_json::Value),
    GotCode(Code),
    GotUnverifiedKey(Key),
    GotVerifier(Vec<u8>),
    GotVersions(serde_json::Value),
    GotMessage(Vec<u8>),
    GotClosed(Result<Mood, WormholeError>),
}

/// The lowercase hex digit of `n` (below 16).
pub open spec fn hex_digit(n: int) -> char {
    seq!['0', '1', '2', '3', '4', '5', '6', '7', '8', '9', 'a', 'b', 'c', 'd', 'e', 'f'][n]
}

/// Two lowercase hex digits per byte, high nibble first.
pub open spec fn hex_of(b: Seq<u8>) -> Seq<char>
    decreases b.len(),
{
    if b.len() == 0 {
        Seq::empty()
    } else {
        seq![hex_digit(b[0] as int / 16), hex_digit(b[0] as int % 16)].add(hex_of(b.drop_first()))
    }
}

/// What `{:?}` writes for a string: quoted, with escapes.
pub uninterp spec fn debug_quoted(s: Seq<char>) -> Seq<char>;

/// Relies on hex::encode: two lowercase hex digits per byte, high nibble first.
#[verifier::external_body]
fn hex_encode(b: &Vec<u8>) -> (r: String)
    ensures
        r@ == hex_of(b@),
{
    hex::encode(b)
}

/// Relies on std::str::from_utf8: it succeeds exactly on valid UTF-8 and
/// then holds the decoded text.
#[verifier::external_body]
fn utf8_text(b: &Vec<u8>) -> (r: Option<String>)
    ensures
        r is Some <==> valid_utf8(b@),
        r is Some ==> r->0@ == decode_utf8(b@),
{
    match std::str::from_utf8(b) {
        Ok(t) => Some(t.to_owned()),
        Err(_) => None,
    }
}

/// Relies on std's `Debug` for `str`: the text quoted and escaped.
#[verifier::external_body]
fn quote_debug(s: &str) -> (r: String)
    ensures
        r@ == debug_quoted(s@),
{
    format!("{:?}", s)
}

/// Relies on serde_json's `Debug` for `Value`; nothing is stated of the text.
#[verifier::external_body]
fn json_debug(v: &serde_json::Value) -> (r: String) {
    format!("{:?}", v)
}

/// `a`, then `mid`, then `c`.
fn surround(a: &str, mid: &str, c: &str) -> (r: String)
    ensures
        r@ == a@ + mid@ + c@,
{
    let mut r = String::from_str(a);
    r.append(mid);
    r.append(c);
    r
}

/// Bytes as text where they are UTF-8, else as hex.
pub open spec fn bytes_text(b: Seq<u8>) -> Seq<char> {
    if valid_utf8(b) {
        "(s="@ + decode_utf8(b) + ")"@
    } else {
        "(hex="@ + hex_of(b) + ")"@
    }
}

pub open spec fn error_text(e: WormholeError) -> Seq<char> {
    match e {
        WormholeError::ConnectionError(m) => "ConnectionError("@ + debug_quoted(m@) + ")"@,
        WormholeError::ServerError(m) => "ServerError("@ + debug_quoted(m@) + ")"@,
    }
}

pub open spec fn mood_text(m: Mood) -> Seq<char> {
    match m {
        Mood::Happy => "Happy"@,
        Mood::Lonely => "Lonely"@,
        Mood::Errory(e) => "Errory("@ + error_text(e) + ")"@,
        Mood::Scared => "Scared"@,
        Mood::Unwelcome => "Unwelcome"@,
    }
}

pub open spec fn closed_text(r: Result<Mood, WormholeError>) -> Seq<char> {
    match r {
        Ok(m) => mood_text(m),
        Err(e) => error_text(e),
    }
}

/// The description of an action; `None` where it shows a JSON document,
/// whose text is serde_json's.
pub open spec fn action_text(a: APIAction) -> Option<Seq<char>> {
    match a {
        APIAction::GotCode(c) => Some("APIAction::GotCode(Code("@ + debug_quoted(c.0@) + "))"@),
        APIAction::GotUnverifiedKey(_) => Some("APIAction::GotUnverifiedKey(REDACTED)"@),
        APIAction::GotVerifier(v) => Some("APIAction::GotVerifier("@ + hex_of(v@) + ")"@),
        APIAction::GotMessage(m) => Some("APIAction::GotMessage("@ + bytes_text(m@) + ")"@),
        APIAction::GotClosed(r) => Some("APIAction::GotClosed("@ + closed_text(r) + ")"@),
        _ => None,
    }
}

/// Bytes as `(s=<text>)` where they are UTF-8, else as `(hex=<digits>)`.
pub fn maybe_utf8(b: &Vec<u8>) -> (r: String)
    ensures
        r@ == bytes_text(b@),
{
    match utf8_text(b) {
        Some(t) => surround("(s=", t.as_str(), ")"),
        None => {
            let h = hex_encode(b);
            surround("(hex=", h.as_str(), ")")
        },
    }
}

/// The decimal digit `d` (below 10).
pub open spec fn digit(d: nat) -> char {
    seq!['0', '1', '2', '3', '4', '5', '6', '7', '8', '9'][d as int]
}

/// `n` in decimal, without leading zeros.
pub open spec fn decimal(n: nat) -> Seq<char>
    decreases n,
{
    if n < 10 {
        seq![digit(n)]
    } else {
        decimal(n / 10) + seq![digit(n % 10)]
    }
}

fn digit_text(d: usize) -> (r: &'static str)
    requires
        d < 10,
    ensures
        r@ == seq![digit(d as nat)],
{
    let r = match d {
        0 => "0",
        1 => "1",
        2 => "2",
        3 => "3",
        4 => "4",
        5 => "5",
        6 => "6",
        7 => "7",
        8 => "8",
        _ => "9",
    };
    proof {
        reveal_strlit("0");
        reveal_strlit("1");
        reveal_strlit("2");
        reveal_strlit("3");
        reveal_strlit("4");
        reveal_strlit("5");
        reveal_strlit("6");
        reveal_strlit("7");
        reveal_strlit("8");
        reveal_strlit("9");
    }
    r
}

/// `n` written in decimal.
pub fn decimal_text(n: usize) -> (r: String)
    ensures
        r@ == decimal(n as nat),
    decreases n,
{
    if n < 10 {
        String::from_str(digit_text(n))
    } else {
        let mut r = decimal_text(n / 10);
        r.append(digit_text(n % 10));
        r
    }
}

pub open spec fn event_text(e: APIEvent) -> Seq<char> {
    match e {
        APIEvent::Start => "APIEvent::Start"@,
        APIEvent::AllocateCode(n) => "APIEvent::AllocateCode("@ + decimal(n as nat) + ")"@,
        APIEvent::InputCode => "APIEvent::InputCode"@,
        APIEvent::InputHelperRefreshNameplates => "APIEvent::InputHelperRefreshNameplates"@,
        APIEvent::InputHelperChooseNameplate(np) => "APIEvent::InputHelperChooseNameplate("@ + np@ + ")"@,
        APIEvent::InputHelperChooseWords(w) => "APIEvent::InputHelperChooseWords("@ + w@ + ")"@,
        APIEvent::SetCode(c) => "APIEvent::SetCode(Code("@ + debug_quoted(c.0@) + "))"@,
        APIEvent::Close => "APIEvent::Close"@,
        APIEvent::Send(m) => "APIEvent::Send("@ + bytes_text(m@) + ")"@,
    }
}

impl APIEvent {
    /// A one-line description for logs; a payload shows as text where it is
    /// UTF-8, else in hex.
    pub fn describe(&self) -> (r: String)
        ensures
            r@ == event_text(*self),
    {
        match self {
            APIEvent::Start => String::from_str("APIEvent::Start"),
            APIEvent::AllocateCode(n) => {
                let t = decimal_text(*n);
                surround("APIEvent::AllocateCode(", t.as_str(), ")")
            },
            APIEvent::InputCode => String::from_str("APIEvent::InputCode"),
            APIEvent::InputHelperRefreshNameplates => String::from_str("APIEvent::InputHelperRefreshNameplates"),
            APIEvent::InputHelperChooseNameplate(np) => {
                surround("APIEvent::InputHelperChooseNameplate(", np.as_str(), ")")
            },
            APIEvent::InputHelperChooseWords(w) => {
                surround("APIEvent::InputHelperChooseWords(", w.as_str(), ")")
            },
            APIEvent::SetCode(c) => {
                let q = quote_debug(c.0.as_str());
                surround("APIEvent::SetCode(Code(", q.as_str(), "))")
            },
            APIEvent::Close => String::from_str("APIEvent::Close"),
            APIEvent::Send(m) => {
                let t = maybe_utf8(m);
                surround("APIEvent::Send(", t.as_str(), ")")
            },
        }
    }
}

impl WormholeError {
    /// The error as `ConnectionError("...")` or `ServerError("...")`.
    pub fn describe(&self) -> (r: String)
        ensures
            r@ == error_text(*self),
    {
        match self {
            WormholeError::ConnectionError(m) => {
                let q = quote_debug(m.as_str());
                surround("ConnectionError(", q.as_str(), ")")
            },
            WormholeError::ServerError(m) => {
                let q = quote_debug(m.as_str());
                surround("ServerError(", q.as_str(), ")")
            },
        }
    }
}

impl Mood {
    /// The mood by its variant's name.
    pub fn describe(&self) -> (r: String)
        ensures
            r@ == mood_text(*self),
    {
        match self {
            Mood::Happy => String::from_str("Happy"),
            Mood::Lonely => String::from_str("Lonely"),
            Mood::Errory(e) => {
                let t = e.describe();
                surround("Errory(", t.as_str(), ")")
            },
            Mood::Scared => String::from_str("Scared"),
            Mood::Unwelcome => String::from_str("Unwelcome"),
        }
    }
}

impl APIAction {
    /// A one-line description for logs. The key of `GotUnverifiedKey` is
    /// never shown; the verifier is shown in hex; a message as text where it
    /// is UTF-8.
    pub fn describe(&self) -> (r: String)
        ensures
            action_text(*self) is Some ==> r@ == action_text(*self)->0,
            self is GotWelcome ==> exists|j: Seq<char>| r@ == "APIAction::GotWelcome("@ + j + ")"@,
            self is GotVersions ==> exists|j: Seq<char>| r@ == "APIAction::GotVersions("@ + j + ")"@,
    {
        match self {
            APIAction::GotWelcome(w) => {
                let t = json_debug(w);
                let r = surround("APIAction::GotWelcome(", t.as_str(), ")");
                assert(r@ == "APIAction::GotWelcome("@ + t@ + ")"@);
                r
            },
            APIAction::GotCode(c) => {
                let q = quote_debug(c.0.as_str());
                surround("APIAction::GotCode(Code(", q.as_str(), "))")
            },
            APIAction::GotUnverifiedKey(_) => String::from_str("APIAction::GotUnverifiedKey(REDACTED)"),
            APIAction::GotVerifier(v) => {
                let h = hex_encode(v);
                surround("APIAction::GotVerifier(", h.as_str(), ")")
            },
            APIAction::GotVersions(v) => {
                let t = json_debug(v);
                let r = surround("APIAction::GotVersions(", t.as_str(), ")");
                assert(r@ == "APIAction::GotVersions("@ + t@ + ")"@);
                r
            },
            APIAction::GotMessage(m) => {
                let t = maybe_utf8(m);
                surround("APIAction::GotMessage(", t.as_str(), ")")
            },
            APIAction::GotClosed(r) => {
                let t = match r {
                    Ok(m) => m.describe(),
                    Err(e) => e.describe(),
                };
                surround("APIAction::GotClosed(", t.as_str(), ")")
            },
        }
    }
}

/// Keeps code outside the engine from forging handles.
#[derive(Debug, Copy, Clone, PartialEq, Eq, Hash, Structural)]
struct Private {}

/// A timer, made by the engine; the glue can compare and hash it.
#[derive(Debug, Copy, Clone, PartialEq, Eq, Hash, Structural)]
pub struct TimerHandle {
    id: u32,
    private: Private,
}

impl TimerHandle {
    pub closed spec fn id(&self) -> u32 {
        self.id
    }

    pub(crate) fn new(id: u32) -> (r: TimerHandle)
        ensures
            r.id() == id,
    {
        TimerHandle { id, private: Private {} }
    }
}

/// A connection, made by the engine; the glue can compare and hash it.
#[derive(Debug, Copy, Clone, PartialEq, Eq, Hash, Structural)]
pub struct WSHandle {
    id: u32,
    private: Private,
}

impl WSHandle {
    pub closed spec fn id(&self) -> u32 {
        self.id
    }

    pub(crate) fn new(id: u32) -> (r: WSHandle)
        ensures
            r.id() == id,
    {
        WSHandle { id, private: Private {} }
    }
}

/// Handles are equal exactly when their ids are: two timer handles made
/// from the same id are the same handle.
pub proof fn timer_handles_equal_by_id(a: TimerHandle, b: TimerHandle)
    ensures
        a == b <==> a.id() == b.id(),
{
    assert(a.private == b.private);
}

/// Handles are equal exactly when their ids are: two connection handles
/// made from the same id are the same handle.
pub proof fn ws_handles_equal_by_id(a: WSHandle, b: WSHandle)
    ensures
        a == b <==> a.id() == b.id(),
{
    assert(a.private == b.private);
}

/// Events from the I/O glue.
#[derive(Debug, PartialEq, Eq)]
pub enum IOEvent {
    TimerExpired(TimerHandle),
    WebSocketConnectionMade(WSHandle),
    WebSocketMessageReceived(WSHandle, String),
    /// With a description of the error.
    WebSocketConnectionLost(WSHandle, String),
}

} // verus!
