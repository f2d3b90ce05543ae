//! Responsive processors: the messages their streams yield are answers, routed back to the
//! remote peer -- some of them meaning "no answer" or "answer, then disconnect".

use vstd::prelude::*;

verus! {

/// Message types that responsive processors yield tell which of them are special.
pub trait ResponsiveMessages<LocalPeerMessages> {
    /// Whether `processor_answer` asks to close the connection (after sending it, unless it is
    /// also a "no answer" message).
    fn is_disconnect_message(processor_answer: &LocalPeerMessages) -> bool;

    /// Whether `processor_answer` stands for "no answer": nothing is sent.
    fn is_no_answer_message(processor_answer: &LocalPeerMessages) -> bool;
}

/// What to do with one answer yielded by a responsive processor.
#[derive(PartialEq, Eq, Debug, Clone, Copy)]
pub enum AnswerPlan {
    /// Send the answer to the peer.
    Send,
    /// Send the answer, then close the connection.
    SendThenClose,
    /// Close the connection without sending anything.
    CloseWithoutSending,
    /// Send nothing and keep the connection.
    Skip,
}

/// The plan for an answer, from what it says of itself.
pub open spec fn spec_plan_answer(is_disconnect: bool, is_no_answer: bool) -> AnswerPlan {
    if !is_disconnect && !is_no_answer {
        AnswerPlan::Send
    } else if is_disconnect && !is_no_answer {
        AnswerPlan::SendThenClose
    } else if is_disconnect {
        AnswerPlan::CloseWithoutSending
    } else {
        AnswerPlan::Skip
    }
}

/// Decides what to do with an answer, given whether it is a "disconnect" and whether it is a
/// "no answer" message.
pub fn plan_answer(is_disconnect: bool, is_no_answer: bool) -> (plan: AnswerPlan)
    ensures
        plan == spec_plan_answer(is_disconnect, is_no_answer),
{
    if !is_disconnect && !is_no_answer {
        AnswerPlan::Send
    } else if is_disconnect {
        if !is_no_answer {
            AnswerPlan::SendThenClose
        } else {
            AnswerPlan::CloseWithoutSending
        }
    } else {
        AnswerPlan::Skip
    }
}

/// Whether the plan sends the answer.
pub open spec fn sends(plan: AnswerPlan) -> bool {
    plan == AnswerPlan::Send || plan == AnswerPlan::SendThenClose
}

/// Whether the connection is closed once the answer was handled, where `send_failed_with_abort`
/// tells that sending it failed and the sender asked to drop the connection.
pub fn closes_connection(plan: AnswerPlan, send_failed_with_abort: bool) -> (close: bool)
    ensures
        close == match plan {
            AnswerPlan::Send => send_failed_with_abort,
            AnswerPlan::SendThenClose => true,
            AnswerPlan::CloseWithoutSending => true,
            AnswerPlan::Skip => false,
        },
{
    match plan {
        AnswerPlan::Send => send_failed_with_abort,
        AnswerPlan::SendThenClose => true,
        AnswerPlan::CloseWithoutSending => true,
        AnswerPlan::Skip => false,
    }
}

/// An answer is sent exactly when it is not a "no answer" message, and the connection is
/// closed after a disconnect message whatever became of sending it.
pub proof fn lemma_answer_plan_laws(is_disconnect: bool, is_no_answer: bool)
    ensures
        sends(spec_plan_answer(is_disconnect, is_no_answer)) <==> !is_no_answer,
        is_disconnect ==> spec_plan_answer(is_disconnect, is_no_answer) != AnswerPlan::Send
            && spec_plan_answer(is_disconnect, is_no_answer) != AnswerPlan::Skip,
{
}

} // verus!
