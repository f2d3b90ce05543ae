//! The serialization contracts that message types plug into the dialogs.

use vstd::prelude::*;

verus! {

/// Turns local messages into the bytes sent to the remote peer.
pub trait ReactiveMessagingSerializer<LocalMessages> {
    /// Whether this implementation promises that `serialize` writes `serialized` (see there).
    /// Only a verified implementation can make that promise; by default none is made.
    open spec fn obeys_serialized() -> bool {
        false
    }

    /// The bytes that serialize `local_message`, for an implementation that obeys it.
    open spec fn serialized(local_message: LocalMessages) -> Seq<u8> {
        Seq::empty()
    }

    /// Writes the serialized form of `local_message` into `buffer`: for an implementation that
    /// obeys `serialized`, started on an empty buffer, it leaves there exactly those bytes.
    fn serialize(local_message: &LocalMessages, buffer: &mut Vec<u8>)
        ensures
            Self::obeys_serialized() && old(buffer)@.len() == 0 ==> final(buffer)@
                == Self::serialized(*local_message),
    ;
}

/// Checks (and reads) the bytes received from the remote peer.
pub trait ReactiveMessagingDeserializer<RemoteMessages> {
    /// Reads a message out of its serialized form, telling why not on error.
    fn deserialize(serialized: &[u8]) -> Result<RemoteMessages, String>;

    /// Whether this implementation promises that `validate` gives `validation` (see there).
    /// Only a verified implementation can make that promise; by default none is made.
    open spec fn obeys_validation() -> bool {
        false
    }

    /// The verdict on whether `raw` holds a well-formed serialized message, for an
    /// implementation that obeys it.
    open spec fn validation(raw: Seq<u8>) -> Result<(), String> {
        Ok(())
    }

    /// Checks that `raw` holds a well-formed serialized message, telling why not on error; for
    /// an implementation that obeys `validation`, the verdict is that of `validation` on the bytes.
    fn validate(raw: &[u8]) -> (verdict: Result<(), String>)
        ensures
            Self::obeys_validation() ==> verdict == Self::validation(raw@),
    ;
}

/// Tells which message, if any, informs the remote peer that the local processor failed.
pub trait ReactiveMessagingConfig<LocalMessages> {
    /// The message that carries `err` to the remote peer; `None` keeps the peer uninformed.
    fn processor_error_message(err: String) -> Option<LocalMessages>;
}

} // verus!
