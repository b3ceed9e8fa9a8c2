//! The lifecycle of one client-to-server message: from pending, over the
//! network, to exactly one terminal outcome.

use vstd::prelude::*;

use crate::client_message_listener::ClientMessageListener;

verus! {

/// The completion state of a message.
#[derive(Clone, Copy, Debug, PartialEq, Eq, Structural)]
pub enum MessageState {
    /// Accepted for sending; no bytes out yet.
    Pending,
    /// The bytes went out; no outcome from the server yet.
    OnNetwork,
    /// The server processed the message.
    Processed,
    /// The metadata adapter denied the message.
    Denied,
    /// The server discarded the message after an earlier in-sequence failure.
    Discarded,
    /// The server failed on the message with an internal error.
    Errored,
    /// The message was given up before an outcome was received.
    Aborted,
}

/// Whether a state is terminal: one of the five outcomes.
pub open spec fn is_terminal(s: MessageState) -> bool {
    match s {
        MessageState::Pending => false,
        MessageState::OnNetwork => false,
        _ => true,
    }
}

/// The legal steps of a message's life: pending to on-network, and either of
/// the two live states to any terminal outcome.
pub open spec fn message_step(a: MessageState, b: MessageState) -> bool {
    ||| (a == MessageState::Pending && b == MessageState::OnNetwork)
    ||| (!is_terminal(a) && is_terminal(b))
}

/// A trajectory a message may take: it starts pending and every move is a
/// legal step.
pub open spec fn valid_trajectory(t: Seq<MessageState>) -> bool {
    &&& t.len() > 0
    &&& t[0] == MessageState::Pending
    &&& forall|i: int| 0 < i < t.len() ==> message_step(t[i - 1], #[trigger] t[i])
}

/// Exactly one outcome: in any legal trajectory a terminal state can only
/// stand at the end, so at most one terminal event ever fires, and one has
/// fired exactly when the trajectory ends terminal.
pub proof fn lemma_message_single_outcome(t: Seq<MessageState>, i: int)
    requires
        valid_trajectory(t),
        0 <= i < t.len(),
        is_terminal(t[i]),
    ensures
        i == t.len() - 1,
{
    if i < t.len() - 1 {
        assert(message_step(t[i], t[i + 1]));
        assert(false);
    }
}

/// One terminal event fired on a message's listener.
pub enum MessageOutcome {
    /// `on_processed` fired.
    ProcessedEv,
    /// `on_deny` fired.
    DeniedEv,
    /// `on_discarded` fired.
    DiscardedEv,
    /// `on_error` fired.
    ErroredEv,
    /// `on_abort` fired, with whether the bytes had gone out.
    AbortedEv(bool),
}

/// One message handed to `sendMessage`, with its listener and its completion
/// state.  The five completion methods each require a live message, so for
/// every message exactly one of `on_processed`, `on_deny`, `on_discarded`,
/// `on_error` and `on_abort` can ever fire; the outcome log records which.
pub struct Message {
    text: String,
    sequence: Option<String>,
    state: MessageState,
    listener: Option<Box<dyn ClientMessageListener>>,
    outcomes: Ghost<Seq<MessageOutcome>>,
}

/// The mathematical content of a `Message`.
pub struct MessageView {
    pub text: Seq<char>,
    pub sequence: Option<Seq<char>>,
    pub state: MessageState,
    pub has_listener: bool,
    /// The terminal events fired on the listener, in order; the single-
    /// outcome discipline keeps it at one event at most.
    pub outcomes: Seq<MessageOutcome>,
}

impl View for Message {
    type V = MessageView;

    closed spec fn view(&self) -> MessageView {
        MessageView {
            text: self.text@,
            sequence: self.sequence.deep_view(),
            state: self.state,
            has_listener: self.listener is Some,
            outcomes: self.outcomes@,
        }
    }
}

/// Exactly one outcome: a live message has fired nothing, a completed one
/// exactly its single terminal event.
pub open spec fn outcome_discipline(v: MessageView) -> bool {
    v.outcomes.len() == if is_terminal(v.state) {
        1int
    } else {
        0int
    }
}

impl Message {
    /// A new message, pending transmission.  `sequence` names the FIFO
    /// ordering partition, or is absent for unordered delivery.
    pub fn new(text: String, sequence: Option<String>, listener: Option<
        Box<dyn ClientMessageListener>,
    >) -> (r: Message)
        ensures
            r@ == (MessageView {
                text: text@,
                sequence: sequence.deep_view(),
                state: MessageState::Pending,
                has_listener: listener is Some,
                outcomes: Seq::<MessageOutcome>::empty(),
            }),
            outcome_discipline(r@),
    {
        Message {
            text,
            sequence,
            state: MessageState::Pending,
            listener,
            outcomes: Ghost(Seq::empty()),
        }
    }

    /// The message text.
    pub fn get_text(&self) -> (r: &String)
        ensures
            r@ == self@.text,
    {
        &self.text
    }

    /// The ordering sequence, when one was given.
    pub fn get_sequence(&self) -> (r: Option<&String>)
        ensures
            r.deep_view() == self@.sequence,
    {
        self.sequence.as_ref()
    }

    /// The completion state.
    pub fn get_state(&self) -> (r: MessageState)
        ensures
            r == self@.state,
    {
        self.state
    }

    /// Records that the bytes of the message went out.
    pub fn mark_on_network(&mut self)
        requires
            old(self)@.state == MessageState::Pending,
        ensures
            final(self)@ == (MessageView { state: MessageState::OnNetwork, ..old(self)@ }),
            outcome_discipline(old(self)@) ==> outcome_discipline(final(self)@),
    {
        self.state = MessageState::OnNetwork;
    }

    /// The server processed the message; `on_processed` fires.
    pub fn complete_processed(&mut self, response: Option<&str>)
        requires
            !is_terminal(old(self)@.state),
        ensures
            final(self)@ == (MessageView {
                state: MessageState::Processed,
                outcomes: old(self)@.outcomes.push(MessageOutcome::ProcessedEv),
                ..old(self)@
            }),
            outcome_discipline(old(self)@) ==> outcome_discipline(final(self)@),
    {
        self.state = MessageState::Processed;
        self.outcomes = Ghost(self.outcomes@.push(MessageOutcome::ProcessedEv));
        if let Some(listener) = &self.listener {
            listener.on_processed(self.text.as_str(), response);
        }
    }

    /// The metadata adapter denied the message; `on_deny` fires.
    pub fn complete_denied(&mut self, code: i32, error: &str)
        requires
            !is_terminal(old(self)@.state),
        ensures
            final(self)@ == (MessageView {
                state: MessageState::Denied,
                outcomes: old(self)@.outcomes.push(MessageOutcome::DeniedEv),
                ..old(self)@
            }),
            outcome_discipline(old(self)@) ==> outcome_discipline(final(self)@),
    {
        self.state = MessageState::Denied;
        self.outcomes = Ghost(self.outcomes@.push(MessageOutcome::DeniedEv));
        if let Some(listener) = &self.listener {
            listener.on_deny(self.text.as_str(), code, error);
        }
    }

    /// An earlier message of the sequence failed, so the server discarded
    /// this one; `on_discarded` fires.
    pub fn complete_discarded(&mut self)
        requires
            !is_terminal(old(self)@.state),
        ensures
            final(self)@ == (MessageView {
                state: MessageState::Discarded,
                outcomes: old(self)@.outcomes.push(MessageOutcome::DiscardedEv),
                ..old(self)@
            }),
            outcome_discipline(old(self)@) ==> outcome_discipline(final(self)@),
    {
        self.state = MessageState::Discarded;
        self.outcomes = Ghost(self.outcomes@.push(MessageOutcome::DiscardedEv));
        if let Some(listener) = &self.listener {
            listener.on_discarded(self.text.as_str());
        }
    }

    /// The server failed on the message; `on_error` fires.
    pub fn complete_errored(&mut self)
        requires
            !is_terminal(old(self)@.state),
        ensures
            final(self)@ == (MessageView {
                state: MessageState::Errored,
                outcomes: old(self)@.outcomes.push(MessageOutcome::ErroredEv),
                ..old(self)@
            }),
            outcome_discipline(old(self)@) ==> outcome_discipline(final(self)@),
    {
        self.state = MessageState::Errored;
        self.outcomes = Ghost(self.outcomes@.push(MessageOutcome::ErroredEv));
        if let Some(listener) = &self.listener {
            listener.on_error(self.text.as_str());
        }
    }

    /// The session ended or the message expired before an outcome arrived;
    /// `on_abort` fires, saying whether the bytes had already gone out.
    pub fn complete_aborted(&mut self)
        requires
            !is_terminal(old(self)@.state),
        ensures
            final(self)@ == (MessageView {
                state: MessageState::Aborted,
                outcomes: old(self)@.outcomes.push(
                    MessageOutcome::AbortedEv(old(self)@.state == MessageState::OnNetwork),
                ),
                ..old(self)@
            }),
            outcome_discipline(old(self)@) ==> outcome_discipline(final(self)@),
    {
        let sent_on_network = matches!(self.state, MessageState::OnNetwork);
        self.state = MessageState::Aborted;
        self.outcomes = Ghost(
            self.outcomes@.push(MessageOutcome::AbortedEv(sent_on_network)),
        );
        if let Some(listener) = &self.listener {
            listener.on_abort(self.text.as_str(), sent_on_network);
        }
    }
}

} // verus!
