//! The events that the machines consume and emit.
use vstd::prelude::*;
use crate::api::Mood;

verus! {

/// A short server-assigned identifier, the numeric prefix of a code.
#[derive(Debug, PartialEq, Eq)]
pub struct Nameplate(pub String);

/// The peer's side identifier.
#[derive(Debug, PartialEq, Eq)]
pub struct TheirSide(pub String);

/// This endpoint's side identifier.
#[derive(Debug, PartialEq, Eq)]
pub struct MySide(pub String);

/// The tag of a mailbox message: `pake`, `version`, or a decimal count.
#[derive(Debug, PartialEq, Eq)]
pub struct Phase(pub String);

/// A shared secret derived by the key exchange.
#[derive(Debug, PartialEq, Eq)]
pub struct Key(pub Vec<u8>);

/// A server-assigned mailbox id.
#[derive(Debug, PartialEq, Eq)]
pub struct Mailbox(pub String);

impl Key {
    /// A copy with the same bytes.
    pub fn copy(&self) -> (r: Key)
        ensures
            r.0@ == self.0@,
    {
        let bytes = self.0.clone();
        assert(bytes@ =~= self.0@);
        Key(bytes)
    }
}

/// The user-visible secret `<nameplate>-<word>-<word>`.
#[derive(Debug, PartialEq, Eq)]
pub struct Code(pub String);

/// Events the Lister machine consumes.
#[derive(Debug, PartialEq, Eq)]
pub enum ListerEvent {
    Connected,
    Lost,
    RxNameplates(Vec<Nameplate>),
    Refresh,
}

/// Events the Order machine consumes.
#[derive(Debug, PartialEq, Eq)]
pub enum OrderEvent {
    GotMessage(TheirSide, Phase, Vec<u8>),
}

/// Events the Send machine consumes.
#[derive(Debug, PartialEq, Eq)]
pub enum SendEvent {
    GotVerifiedKey(Key),
    Send(Phase, Vec<u8>),
}

/// Events for the Input helper.
#[derive(Debug, PartialEq, Eq)]
pub enum InputEvent {
    GotNameplates(Vec<Nameplate>),
}

/// Commands for the Rendezvous connection.
#[derive(Debug, PartialEq, Eq)]
pub enum RendezvousEvent {
    TxList,
    TxAllocate,
    TxClaim(Nameplate),
    TxRelease(Nameplate),
    TxOpen(Mailbox),
    TxAdd(Phase, Vec<u8>),
    TxClose(Mailbox, Mood),
    Stop,
}

/// Events for the Nameplate machine.
#[derive(Debug, PartialEq, Eq)]
pub enum NameplateEvent {
    Connected,
    Lost,
    /// The nameplate is known: allocated or taken from a code.
    SetNameplate(Nameplate),
    RxClaimed(Mailbox),
    /// The session closes, or the mailbox no longer needs the nameplate.
    Release,
    RxReleased,
}

/// Events for the Mailbox machine.
#[derive(Debug, PartialEq, Eq)]
pub enum MailboxEvent {
    Connected,
    Lost,
    GotMailbox(Mailbox),
    /// An outgoing message of this phase.
    AddMessage(Phase, Vec<u8>),
    /// The server echoed our own message of this phase: it is delivered.
    RxOwnMessage(Phase),
    Close(Mood),
    RxClosed,
}

/// Events for the Boss.
#[derive(Debug, PartialEq, Eq)]
pub enum BossEvent {
    Closed(Mood),
    /// The peer's version message opened: the key is verified.
    GotVersions(Vec<u8>),
    /// A verified application message.
    GotMessage(Phase, Vec<u8>),
    /// A peer message did not open: the codes differ or the peer is hostile.
    Scared,
}

/// Events the Terminator consumes.
#[derive(Debug, PartialEq, Eq)]
pub enum TerminatorEvent {
    Close(Mood),
    NameplateDone,
    MailboxDone,
    Stopped,
}

/// Events the Allocator consumes.
#[derive(Debug, PartialEq, Eq)]
pub enum AllocatorEvent {
    Connected,
    Lost,
    /// The application asks for a code of this many words.
    Allocate(usize),
    /// The nameplate the server allocated, with the words drawn for the code.
    RxAllocated(Nameplate, Vec<String>),
}

/// Events for the Code machine.
#[derive(Debug, PartialEq, Eq)]
pub enum CodeEvent {
    Allocated(Code),
}

/// Events for the Key machine.
#[derive(Debug, PartialEq, Eq)]
pub enum KeyEvent {
    GotPake(Vec<u8>),
}

/// Events for the Receive machine.
#[derive(Debug, PartialEq, Eq)]
pub enum ReceiveEvent {
    /// A sealed peer message.
    GotMessage(TheirSide, Phase, Vec<u8>),
    /// The shared key, before it is verified.
    GotKey(Key),
    /// The outcome of opening a peer message: its plaintext, or `None` where
    /// it did not open under the key of its phase.
    Opened(TheirSide, Phase, Option<Vec<u8>>),
}

/// Requests to the secretbox collaborator: derive the key of `phase` from
/// `side` and `key`, seal `plaintext` under it with a fresh nonce, and hand
/// the sealed body to the Mailbox as an outgoing message of `phase`.
#[derive(Debug, PartialEq, Eq)]
pub enum CryptoEvent {
    SealAndAdd(MySide, Key, Phase, Vec<u8>),
    /// Derive the key of `phase` from the peer's side and `key`, open the
    /// sealed body under it, and hand the outcome back to Receive as `Opened`.
    Open(TheirSide, Key, Phase, Vec<u8>),
}

/// The tagged union of every event that one machine emits for another.
#[derive(Debug, PartialEq, Eq)]
pub enum Event {
    Input(InputEvent),
    Lister(ListerEvent),
    Order(OrderEvent),
    Rendezvous(RendezvousEvent),
    Code(CodeEvent),
    Nameplate(NameplateEvent),
    Mailbox(MailboxEvent),
    Boss(BossEvent),
    Terminator(TerminatorEvent),
    Key(KeyEvent),
    Receive(ReceiveEvent),
    Crypto(CryptoEvent),
}

/// The work queue of events produced by one step.
pub type Events = Vec<Event>;

} // verus!
