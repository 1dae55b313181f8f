use crate::hook::{HookCommand, HookSender};
use vstd::prelude::*;

verus! {

/// A receipt that the hook queue took a command, recording the command's
/// program and arguments. Only `try_enqueue` in this file makes one, so a
/// receipt exists only for a command that was really offered and taken.
pub struct Queued {
    arguments: Ghost<Seq<String>>,
}

impl Queued {
    /// The program and arguments of the command that the queue took.
    pub closed spec fn arguments(&self) -> Seq<String> {
        self.arguments@
    }
}

/// A record that the hook queue refused a command, because it was full or
/// its receiving end was gone, naming the command's program and arguments.
/// Only `try_enqueue` in this file makes one, so a record exists only for a
/// command that was really offered and refused.
pub struct Refusal {
    arguments: Ghost<Seq<String>>,
}

impl Refusal {
    /// The program and arguments of the command that the queue refused.
    pub closed spec fn arguments(&self) -> Seq<String> {
        self.arguments@
    }
}

/// Calls `tokio::sync::mpsc::Sender::try_send`. Gives a receipt for the
/// command when the queue took it, or a record of the refusal together with
/// the command handed back when the queue refused it because it is full or
/// its receiving end is gone. Claimed: the receipt and the refusal record name
/// the offered command, and a command handed back is the one that was
/// offered, as `try_send` returns it inside its error. Whether the
/// queue takes it depends on how full the queue is and on the worker that
/// empties it, so nothing is claimed of which answer comes.
#[verifier::external_body]
pub(crate) fn try_enqueue(sender: &HookSender, command: HookCommand) -> (sent: Result<
    Queued,
    (Refusal, HookCommand),
>)
    ensures
        match sent {
            Ok(queued) => queued.arguments() == command.arguments(),
            Err((refusal, returned)) => refusal.arguments() == command.arguments() && returned
                == command,
        },
{
    let arguments = Ghost(command.arguments());
    match sender.try_send(command) {
        Ok(()) => Ok(Queued { arguments }),
        Err(error) => Err((Refusal { arguments }, error.into_inner())),
    }
}

} // verus!
