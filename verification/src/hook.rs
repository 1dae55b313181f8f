use crate::sending::{try_enqueue, Queued, Refusal};
use tokio::sync::mpsc::{self, Receiver, Sender};
use vstd::prelude::*;

verus! {

#[verifier::external_type_specification]
#[verifier::external_body]
#[verifier::reject_recursive_types(T)]
pub struct ExSender<T>(Sender<T>);

#[verifier::external_type_specification]
#[verifier::external_body]
#[verifier::reject_recursive_types(T)]
pub struct ExReceiver<T>(Receiver<T>);

/// How many hooks may wait in the queue before further ones are dropped.
pub const HOOK_QUEUE_CAPACITY: usize = 64;

/// A command line waiting to be run: the program, then its arguments.
pub struct HookCommand {
    argv: Vec<String>,
}

/// The sending end of the hook queue.
pub type HookSender = Sender<HookCommand>;

/// The receiving end of the hook queue, read by the worker that runs hooks.
pub type HookReceiver = Receiver<HookCommand>;

impl HookCommand {
    /// The program, then its arguments.
    pub closed spec fn arguments(&self) -> Seq<String> {
        self.argv@
    }

    /// The program to run and the arguments to give it; `None` for an empty
    /// command line, which names no program.
    pub fn program_and_args(&self) -> (split: Option<(&String, &[String])>)
        ensures
            match split {
                None => self.arguments().len() == 0,
                Some((program, args)) => {
                    &&& self.arguments().len() > 0
                    &&& *program == self.arguments()[0]
                    &&& args@ == self.arguments().drop_first()
                },
            },
    {
        if self.argv.len() == 0 {
            None
        } else {
            let (_, args) = self.argv.as_slice().split_at(1);
            Some((&self.argv[0], args))
        }
    }
}

/// What `tokio::sync::mpsc::Sender::max_capacity` returns for a sending end:
/// the bound its queue was made with, which stays the same for its lifetime.
pub uninterp spec fn sender_max_capacity(sender: Sender<HookCommand>) -> nat;

/// What `tokio::sync::mpsc::Receiver::max_capacity` returns for a receiving
/// end: the bound its queue was made with, which stays the same for its lifetime.
pub uninterp spec fn receiver_max_capacity(receiver: Receiver<HookCommand>) -> nat;

/// Calls `tokio::sync::mpsc::channel`, which makes a bounded queue that holds
/// up to `capacity` items. Claimed: both ends report `capacity` as their
/// `max_capacity`, as tokio sets the bound of the queue to it. Nothing is
/// claimed of what the queue holds, which changes as the ends are used.
/// Tokio panics when the capacity is 0 or above `usize::MAX >> 3`, so those
/// are excluded.
#[verifier::external_body]
fn bounded_channel(capacity: usize) -> (ends: (HookSender, HookReceiver))
    requires
        0 < capacity <= usize::MAX / 8,
    ensures
        sender_max_capacity(ends.0) == capacity,
        receiver_max_capacity(ends.1) == capacity,
{
    mpsc::channel(capacity)
}

/// Makes the hook queue, with room for `HOOK_QUEUE_CAPACITY` commands.
pub fn create_hook_channel() -> (ends: (HookSender, HookReceiver))
    ensures
        sender_max_capacity(ends.0) == HOOK_QUEUE_CAPACITY,
        receiver_max_capacity(ends.1) == HOOK_QUEUE_CAPACITY,
{
    bounded_channel(HOOK_QUEUE_CAPACITY)
}

/// The command lines that are not empty, in order.
pub open spec fn runnable(commands: Seq<Seq<String>>) -> Seq<Seq<String>> {
    commands.filter(|argv: Seq<String>| argv.len() > 0)
}

/// The queue entries for a list of command lines: one for each command line
/// that is not empty, in order; empty ones name no program and are skipped.
pub fn hook_commands(commands: &[Vec<String>]) -> (queued: Vec<HookCommand>)
    ensures
        queued@.map_values(|command: HookCommand| command.arguments()) == runnable(
            commands@.map_values(|argv: Vec<String>| argv@),
        ),
{
    let ghost lines = commands@.map_values(|argv: Vec<String>| argv@);
    let ghost nonempty = |argv: Seq<String>| argv.len() > 0;
    let mut queued: Vec<HookCommand> = Vec::new();
    let mut index: usize = 0;
    while index < commands.len()
        invariant
            index <= commands@.len(),
            lines == commands@.map_values(|argv: Vec<String>| argv@),
            nonempty == (|argv: Seq<String>| argv.len() > 0),
            queued@.map_values(|command: HookCommand| command.arguments()) == lines.take(
                index as int,
            ).filter(nonempty),
        decreases commands@.len() - index,
    {
        let ghost before = queued@;
        let argv = &commands[index];
        if argv.len() > 0 {
            let copy = argv.clone();
            assert(copy@ =~= argv@);
            queued.push(HookCommand { argv: copy });
        }
        proof {
            assert(lines.take(index + 1) == lines.take(index as int).push(argv@));
            lines.take(index as int).lemma_filter_push(argv@, nonempty);
            assert(queued@.map_values(|command: HookCommand| command.arguments()) == if nonempty(
                argv@,
            ) {
                before.map_values(|command: HookCommand| command.arguments()).push(argv@)
            } else {
                before.map_values(|command: HookCommand| command.arguments())
            });
        }
        index = index + 1;
    }
    assert(lines.take(commands@.len() as int) == lines);
    queued
}

/// The entries of `whole` whose mark in `taken` is `side`, in order.
pub open spec fn picked(whole: Seq<Seq<String>>, taken: Seq<bool>, side: bool) -> Seq<Seq<String>>
    decreases whole.len(),
{
    if whole.len() == 0 {
        Seq::empty()
    } else {
        let earlier = picked(whole.drop_last(), taken.drop_last(), side);
        if taken.last() == side {
            earlier.push(whole.last())
        } else {
            earlier
        }
    }
}

/// The non-empty command lines of a list of commands, in order.
pub open spec fn runnable_lines(commands: Seq<Vec<String>>) -> Seq<Seq<String>> {
    runnable(commands.map_values(|argv: Vec<String>| argv@))
}

/// The commands recorded by a list of receipts.
pub open spec fn receipt_lines(receipts: Seq<Queued>) -> Seq<Seq<String>> {
    receipts.map_values(|receipt: Queued| receipt.arguments())
}

/// The commands named by a list of refusal records.
pub open spec fn refusal_lines(refusals: Seq<Refusal>) -> Seq<Seq<String>> {
    refusals.map_values(|refusal: Refusal| refusal.arguments())
}

/// The command lines of a list of queue entries.
pub open spec fn command_lines_of(commands: Seq<HookCommand>) -> Seq<Seq<String>> {
    commands.map_values(|command: HookCommand| command.arguments())
}

/// `taken` marks each entry of `whole`; `marked` holds, in order, the entries
/// marked `true`, and `unmarked` those marked `false`.
pub open spec fn split_by_marks(
    whole: Seq<Seq<String>>,
    taken: Seq<bool>,
    marked: Seq<Seq<String>>,
    unmarked: Seq<Seq<String>>,
) -> bool {
    &&& taken.len() == whole.len()
    &&& marked == picked(whole, taken, true)
    &&& unmarked == picked(whole, taken, false)
}

/// Marking splits a list without loss: the entries marked `true` and those
/// marked `false` together are as many as the list holds. So every command
/// that is offered to the queue is either taken or handed back.
pub proof fn law_every_offer_is_answered(whole: Seq<Seq<String>>, taken: Seq<bool>)
    requires
        taken.len() == whole.len(),
    ensures
        picked(whole, taken, true).len() + picked(whole, taken, false).len() == whole.len(),
    decreases whole.len(),
{
    if whole.len() > 0 {
        law_every_offer_is_answered(whole.drop_last(), taken.drop_last());
    }
}

/// Each command handed back as refused comes with the queue's own record of
/// refusing it: there are as many records as refused commands, and each names
/// the command at its position.
pub proof fn law_refused_commands_were_refused_by_the_queue(
    refusals: Seq<Refusal>,
    refused: Seq<HookCommand>,
)
    requires
        refusal_lines(refusals) == command_lines_of(refused),
    ensures
        refusals.len() == refused.len(),
        forall|i: int|
            0 <= i < refused.len() ==> (#[trigger] refusals[i]).arguments()
                == refused[i].arguments(),
{
    assert(refusal_lines(refusals).len() == refusals.len());
    assert(command_lines_of(refused).len() == refused.len());
    assert forall|i: int| 0 <= i < refused.len() implies (#[trigger] refusals[i]).arguments()
        == refused[i].arguments() by {
        assert(refusal_lines(refusals)[i] == command_lines_of(refused)[i]);
    }
}

/// What offering a list of command lines to the hook queue came to.
pub struct EnqueueOutcome {
    /// How many command lines were empty and so skipped.
    pub skipped: usize,
    /// Receipts for the commands the queue took, in the order they were offered.
    pub queued: Vec<Queued>,
    /// The commands the queue refused, because it was full or closed, in the
    /// order they were offered.
    pub refused: Vec<HookCommand>,
    /// The queue's records of those refusals, one for each refused command,
    /// in the same order.
    pub refusals: Vec<Refusal>,
}

/// Offers each command line that is not empty to the hook queue, in order.
/// Empty command lines are skipped. Every other one is offered: the queue
/// either takes it, and the outcome holds its receipt, or refuses it, and the
/// outcome hands it back; each list keeps the order of the offers.
pub fn enqueue_hooks(hook_sender: &HookSender, commands: &[Vec<String>]) -> (outcome: EnqueueOutcome)
    ensures
        outcome.skipped == commands@.len() - runnable(
            commands@.map_values(|argv: Vec<String>| argv@),
        ).len(),
        exists|taken: Seq<bool>|
            #[trigger] split_by_marks(
                runnable_lines(commands@),
                taken,
                receipt_lines(outcome.queued@),
                command_lines_of(outcome.refused@),
            ),
        refusal_lines(outcome.refusals@) == command_lines_of(outcome.refused@),
{
    let queued_commands = hook_commands(commands);
    let ghost offered = queued_commands@.map_values(|command: HookCommand| command.arguments());
    proof {
        commands@.map_values(|argv: Vec<String>| argv@).lemma_filter_len(
            |argv: Seq<String>| argv.len() > 0,
        );
    }
    let skipped = commands.len() - queued_commands.len();
    let mut queued: Vec<Queued> = Vec::new();
    let mut refused: Vec<HookCommand> = Vec::new();
    let mut refusals: Vec<Refusal> = Vec::new();
    let ghost mut taken: Seq<bool> = Seq::empty();
    for command in iter: queued_commands
        invariant
            iter.seq().map_values(|command: HookCommand| command.arguments()) == offered,
            taken.len() == iter.index(),
            queued@.map_values(|receipt: Queued| receipt.arguments()) == picked(
                offered.take(iter.index() as int),
                taken,
                true,
            ),
            refused@.map_values(|command: HookCommand| command.arguments()) == picked(
                offered.take(iter.index() as int),
                taken,
                false,
            ),
            refusal_lines(refusals@) == command_lines_of(refused@),
    {
        let ghost position = iter.index() as int;
        let ghost arguments = command.arguments();
        let ghost queued_before = queued@;
        let ghost refused_before = refused@;
        let ghost taken_before = taken;
        let ghost prefix = offered.take(position + 1);
        assert(offered[position] == arguments);
        assert(prefix.drop_last() == offered.take(position));
        assert(prefix.last() == arguments);
        match try_enqueue(hook_sender, command) {
            Ok(receipt) => {
                queued.push(receipt);
                proof {
                    taken = taken.push(true);
                    assert(taken.drop_last() == taken_before);
                    assert(queued@.map_values(|receipt: Queued| receipt.arguments())
                        == queued_before.map_values(|receipt: Queued| receipt.arguments()).push(
                        arguments,
                    ));
                    assert(refused@.map_values(|command: HookCommand| command.arguments())
                        == refused_before.map_values(|command: HookCommand| command.arguments()));
                }
            },
            Err((refusal, returned)) => {
                let ghost refusals_before = refusals@;
                refused.push(returned);
                refusals.push(refusal);
                proof {
                    taken = taken.push(false);
                    assert(taken.drop_last() == taken_before);
                    assert(refused@.map_values(|command: HookCommand| command.arguments())
                        == refused_before.map_values(|command: HookCommand| command.arguments()).push(
                        arguments,
                    ));
                    assert(queued@.map_values(|receipt: Queued| receipt.arguments())
                        == queued_before.map_values(|receipt: Queued| receipt.arguments()));
                    assert(refusal_lines(refusals@) == refusal_lines(refusals_before).push(
                        arguments,
                    ));
                    assert(command_lines_of(refused@) == command_lines_of(refused_before).push(
                        arguments,
                    ));
                }
            },
        }
    }
    proof {
        assert(offered == runnable_lines(commands@));
        assert(offered.take(offered.len() as int) == offered);
    }
    let outcome = EnqueueOutcome { skipped, queued, refused, refusals };
    assert(split_by_marks(
        runnable_lines(commands@),
        taken,
        receipt_lines(outcome.queued@),
        command_lines_of(outcome.refused@),
    ));
    outcome
}

} // verus!
