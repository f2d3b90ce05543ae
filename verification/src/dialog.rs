//! The decisions of the dialog loops, shared by the textual, variable-size binary and
//! fixed-size binary framings: on each turn the loop either writes an outgoing message or
//! reads incoming bytes, and decides whether the connection goes on.

use vstd::prelude::*;

verus! {

/// What happened on one turn of a dialog loop.
#[derive(PartialEq, Eq, Debug, Clone, Copy)]
pub enum DialogEvent {
    /// An outgoing message was written to the socket.
    Written,
    /// Writing an outgoing message to the socket failed.
    WriteFailed,
    /// The stream of outgoing messages ended: the peer was flushed-and-closed or cancelled.
    SenderEnded,
    /// Some bytes were read from the socket.
    BytesReceived,
    /// Reading gave zero bytes: the remote end closed the connection.
    EndOfStream,
    /// Reading would block: nothing to do this turn.
    WouldBlock,
    /// Reading failed.
    ReadFailed,
    /// The remote peer broke the framing (announced an empty payload).
    ProtocolViolation,
}

/// The decision taken after a turn.
#[derive(PartialEq, Eq, Debug, Clone, Copy)]
pub struct DialogStep {
    /// Mark the connection as closed.
    pub report_closed: bool,
    /// Leave the dialog loop.
    pub end_dialog: bool,
}

/// The decision for each event: I/O failures and the remote end closing mark the connection
/// closed and end the dialog; the end of the outgoing stream ends it without marking it.
pub open spec fn spec_dialog_step(event: DialogEvent) -> DialogStep {
    match event {
        DialogEvent::Written => DialogStep { report_closed: false, end_dialog: false },
        DialogEvent::WriteFailed => DialogStep { report_closed: true, end_dialog: true },
        DialogEvent::SenderEnded => DialogStep { report_closed: false, end_dialog: true },
        DialogEvent::BytesReceived => DialogStep { report_closed: false, end_dialog: false },
        DialogEvent::EndOfStream => DialogStep { report_closed: true, end_dialog: true },
        DialogEvent::WouldBlock => DialogStep { report_closed: false, end_dialog: false },
        DialogEvent::ReadFailed => DialogStep { report_closed: true, end_dialog: true },
        DialogEvent::ProtocolViolation => DialogStep { report_closed: true, end_dialog: true },
    }
}

/// Decides how the dialog goes on after `event`.
pub fn dialog_step(event: DialogEvent) -> (step: DialogStep)
    ensures
        step == spec_dialog_step(event),
{
    match event {
        DialogEvent::Written => DialogStep { report_closed: false, end_dialog: false },
        DialogEvent::WriteFailed => DialogStep { report_closed: true, end_dialog: true },
        DialogEvent::SenderEnded => DialogStep { report_closed: false, end_dialog: true },
        DialogEvent::BytesReceived => DialogStep { report_closed: false, end_dialog: false },
        DialogEvent::EndOfStream => DialogStep { report_closed: true, end_dialog: true },
        DialogEvent::WouldBlock => DialogStep { report_closed: false, end_dialog: false },
        DialogEvent::ReadFailed => DialogStep { report_closed: true, end_dialog: true },
        DialogEvent::ProtocolViolation => DialogStep { report_closed: true, end_dialog: true },
    }
}

/// What became of informing the remote peer of a local failure.
#[derive(PartialEq, Eq, Debug, Clone, Copy)]
pub enum PeerNotice {
    /// The message type carries no error message: the peer was not informed.
    NotSent,
    /// The error message was enqueued for the peer.
    Sent,
    /// Enqueuing the error message failed; `abort` tells whether the sender asked to drop the
    /// connection (the peer reads too slowly).
    SendFailed { abort: bool },
}

/// The peer reads so slowly that informing it failed and the connection is to be dropped.
pub open spec fn is_slow_reader(notice: PeerNotice) -> bool {
    notice == (PeerNotice::SendFailed { abort: true })
}

/// A received message could not be handed to the local processor (textual and variable-size
/// binary framings): the dialog ends -- marking the connection closed -- when the processor
/// sender or the notice to the peer asked to abort.
pub fn on_processor_failure(abort_processor: bool, notice: PeerNotice) -> (step: DialogStep)
    ensures
        step.end_dialog == (abort_processor || is_slow_reader(notice)),
        step.report_closed == step.end_dialog,
{
    let abort = abort_processor || match notice {
        PeerNotice::SendFailed { abort } => abort,
        _ => false,
    };
    DialogStep { report_closed: abort, end_dialog: abort }
}

/// A received line could not be deserialized (textual framing): the peer is told, and the
/// dialog ends only if that failed with an abort.
pub fn on_undecodable_message(notice: PeerNotice) -> (step: DialogStep)
    ensures
        step.end_dialog == is_slow_reader(notice),
        step.report_closed == step.end_dialog,
{
    let abort = match notice {
        PeerNotice::SendFailed { abort } => abort,
        _ => false,
    };
    DialogStep { report_closed: abort, end_dialog: abort }
}

/// Why no slot could be reserved to receive the next fixed-size message.
#[derive(PartialEq, Eq, Debug, Clone, Copy)]
pub enum ReservationFailure {
    /// Informing the peer failed because it reads too slowly.
    SlowReader,
    /// The processor sender asked to drop the connection.
    ProcessorAborted,
    /// The processor sender did not ask to abort, but there is nowhere to receive the next
    /// message into: the connection is dropped anyway, as the last line of defense.
    NoSlotLeft,
}

/// The outcome of a failed slot reservation (fixed-size binary framing).
#[derive(PartialEq, Eq, Debug, Clone, Copy)]
pub struct ReservationVerdict {
    /// Mark the connection as closed.
    pub report_closed: bool,
    /// The reason reported; the dialog always ends.
    pub reason: ReservationFailure,
}

/// No slot could be reserved for the next fixed-size message: the dialog always ends; the
/// connection is marked closed if the peer is a slow reader or the processor asked to abort,
/// and the reason reported is the first of these that holds.
pub fn on_slot_reservation_failure(abort_processor: bool, notice: PeerNotice) -> (verdict: ReservationVerdict)
    ensures
        verdict.report_closed == (abort_processor || is_slow_reader(notice)),
        verdict.reason == (if is_slow_reader(notice) {
            ReservationFailure::SlowReader
        } else if abort_processor {
            ReservationFailure::ProcessorAborted
        } else {
            ReservationFailure::NoSlotLeft
        }),
{
    let slow_reader = match notice {
        PeerNotice::SendFailed { abort } => abort,
        _ => false,
    };
    let reason = if slow_reader {
        ReservationFailure::SlowReader
    } else if abort_processor {
        ReservationFailure::ProcessorAborted
    } else {
        ReservationFailure::NoSlotLeft
    };
    ReservationVerdict { report_closed: slow_reader || abort_processor, reason }
}

/// A dialog never ends on its own accord while messages flow: only failures, the remote end
/// closing or the outgoing stream ending stop it, and every stop caused by the remote side or
/// by I/O marks the connection closed.
pub proof fn lemma_dialog_ends_only_on_failure_or_close(event: DialogEvent)
    ensures
        spec_dialog_step(event).end_dialog <==> (event != DialogEvent::Written && event != DialogEvent::BytesReceived
            && event != DialogEvent::WouldBlock),
        spec_dialog_step(event).report_closed ==> spec_dialog_step(event).end_dialog,
        spec_dialog_step(event).end_dialog && !spec_dialog_step(event).report_closed <==> event == DialogEvent::SenderEnded,
{
}

/// What the dialog loop does next within a turn that decoded some messages out of the bytes it
/// read.
#[derive(PartialEq, Eq, Debug, Clone, Copy)]
pub enum TurnAction {
    /// Hand the next decoded message to the local processor, then apply the decision that
    /// delivery gives.
    DeliverNext,
    /// Every message was delivered and none ended the dialog: apply this decision for the
    /// turn's event.
    Finish(DialogStep),
    /// The last delivery ended the dialog: nothing else happens, not even the event's decision.
    Stop,
}

/// The abstract state of a turn.
pub struct TurnState {
    /// What happened on the turn.
    pub event: DialogEvent,
    /// How many messages were decoded.
    pub messages: nat,
    /// The decisions given by the deliveries so far, in order.
    pub deliveries: Seq<DialogStep>,
}

/// What a turn does next: messages are delivered in order until one delivery ends the dialog;
/// only when all were delivered does the event's decision apply.
pub open spec fn turn_action(turn: TurnState) -> TurnAction {
    if turn.deliveries.len() > 0 && turn.deliveries.last().end_dialog {
        TurnAction::Stop
    } else if turn.deliveries.len() < turn.messages {
        TurnAction::DeliverNext
    } else {
        TurnAction::Finish(spec_dialog_step(turn.event))
    }
}

impl TurnState {
    /// No more messages were delivered than decoded, and only the last delivery may have ended
    /// the dialog.
    pub open spec fn well_formed(self) -> bool {
        &&& self.deliveries.len() <= self.messages
        &&& forall|i: int| 0 <= i < self.deliveries.len() - 1 ==> !(#[trigger] self.deliveries[i]).end_dialog
    }
}

/// One turn of a dialog loop: after reading bytes that decode to some messages, each is
/// delivered in turn, stopping at the first delivery that ends the dialog; the decision for
/// the turn's event applies only after all of them.
pub struct DialogTurn {
    event: DialogEvent,
    messages: usize,
    delivered: usize,
    stopped: bool,
    deliveries: Ghost<Seq<DialogStep>>,
}

impl View for DialogTurn {
    type V = TurnState;

    closed spec fn view(&self) -> TurnState {
        TurnState { event: self.event, messages: self.messages as nat, deliveries: self.deliveries@ }
    }
}

impl DialogTurn {
    /// A turn whose `event` produced `messages` decoded messages, none delivered yet.
    pub fn new(event: DialogEvent, messages: usize) -> (turn: Self)
        ensures
            turn@ == (TurnState { event, messages: messages as nat, deliveries: Seq::<DialogStep>::empty() }),
            turn.is_consistent(),
    {
        DialogTurn { event, messages, delivered: 0, stopped: false, deliveries: Ghost(Seq::<DialogStep>::empty()) }
    }

    /// The turn's bookkeeping matches its abstract state, which is well formed.
    pub closed spec fn is_consistent(&self) -> bool {
        &&& self.delivered == self.deliveries@.len()
        &&& self.stopped == (self.deliveries@.len() > 0 && self.deliveries@.last().end_dialog)
        &&& self@.well_formed()
    }

    /// What to do next.
    pub fn next_action(&self) -> (action: TurnAction)
        requires
            self.is_consistent(),
        ensures
            action == turn_action(self@),
    {
        if self.stopped {
            TurnAction::Stop
        } else if self.delivered < self.messages {
            TurnAction::DeliverNext
        } else {
            TurnAction::Finish(dialog_step(self.event))
        }
    }

    /// Records the decision `step` given by delivering the next message.
    pub fn on_delivered(&mut self, step: DialogStep)
        requires
            old(self).is_consistent(),
            turn_action(old(self)@) == TurnAction::DeliverNext,
        ensures
            final(self).is_consistent(),
            final(self)@ == (TurnState { deliveries: old(self)@.deliveries.push(step), ..old(self)@ }),
    {
        let ghost before = self.deliveries@;
        self.deliveries = Ghost(before.push(step));
        self.delivered = self.delivered + 1;
        self.stopped = step.end_dialog;
        assert forall|i: int| 0 <= i < self.deliveries@.len() - 1 implies !(#[trigger] self.deliveries@[i]).end_dialog by {
            assert(self.deliveries@[i] == before[i]);
            if i == before.len() - 1 {
                assert(!before.last().end_dialog);
            }
        }
    }
}

/// How a turn ends: the event's decision applies exactly when every decoded message was
/// delivered and none of those deliveries ended the dialog; otherwise the turn stopped at the
/// first delivery that ended it, with no message delivered after it.
pub proof fn lemma_turn_stops_at_first_end(turn: TurnState)
    requires
        turn.well_formed(),
    ensures
        turn_action(turn) is Finish ==> turn.deliveries.len() == turn.messages
            && (forall|i: int| 0 <= i < turn.deliveries.len() ==> !(#[trigger] turn.deliveries[i]).end_dialog)
            && turn_action(turn) == TurnAction::Finish(spec_dialog_step(turn.event)),
        turn_action(turn) is Stop ==> turn.deliveries.len() > 0
            && turn.deliveries.last().end_dialog
            && (forall|i: int| 0 <= i < turn.deliveries.len() - 1 ==> !(#[trigger] turn.deliveries[i]).end_dialog),
        turn_action(turn) is DeliverNext ==> turn.deliveries.len() < turn.messages,
{
    if turn_action(turn) is Finish && turn.deliveries.len() > 0 {
        assert forall|i: int| 0 <= i < turn.deliveries.len() implies !(#[trigger] turn.deliveries[i]).end_dialog by {
            if i < turn.deliveries.len() - 1 {
            } else {
                assert(turn.deliveries[i] == turn.deliveries.last());
            }
        }
    }
}

} // verus!
