//! Types that name the messages of a socket server, to ease generic programming over servers.

use vstd::prelude::*;
use crate::serde::{ReactiveMessagingDeserializer, ReactiveMessagingSerializer};

verus! {

/// The message and stream types of an unresponsive socket server.
pub trait UnresponsiveSocketServerGenericTypes {
    /// Messages received from the clients, which know how to read themselves.
    type RemoteMessages: ReactiveMessagingDeserializer<Self::RemoteMessages> + Send + Sync + 'static;
    /// Messages sent to the clients, which know how to write themselves.
    type LocalMessages: ReactiveMessagingSerializer<Self::LocalMessages> + Send + Sync + 'static;
    /// The items yielded by the processors' streams.
    type StreamItemType;
    /// The processors' streams.
    type StreamType;
}

} // verus!
