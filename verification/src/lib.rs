//! A single-actor message-processing core: one stateful handler, a bounded
//! inbox, two forms of backpressure and a reply path per message.
use vstd::prelude::*;

pub mod process;
pub mod rt;
pub mod scheduling;

pub use crate::process::Process;
pub use crate::process::Ref;
pub use crate::process::Settings;
pub use crate::rt::Context;
pub use crate::rt::HandleError;
pub use crate::rt::Running;
pub use crate::rt::SendFuture;

verus! {

/// A payload that can be handed from a caller to the driver and, on
/// rejection, handed back unchanged.
pub trait Message: Send {

}

impl<M> Message for M where M: Send {

}

} // verus!
