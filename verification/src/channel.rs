//! The bounded queue that carries commands from a handle to the render side.
//!
//! The queue is a single-producer, single-consumer ring buffer of the
//! `ringbuf` crate. Whole, it is a [`CommandQueue`], of which everything is
//! known: what it holds, and so what each push and pop gives. Split, it is a
//! [`CommandProducer`] for a handle and a [`CommandConsumer`] for the render
//! side; each end then knows only its own doings, since the other end may be
//! at work at any moment.
//!
//! The channel ends with the resource that receives by it: once the
//! receiving end is let go of, the sending end refuses every command as if
//! the queue were full. A sending end can be shared as a [`SharedProducer`]
//! by a handle, its clones and the handles of what it made.

use crate::command::{Command, CommandQueueFull};
use crate::sync::{held, locked, share, try_lock};
use ringbuf::{Consumer, Producer, RingBuffer};
use std::sync::{Arc, Mutex};
use vstd::prelude::*;

verus! {

#[verifier::external_type_specification]
#[verifier::external_body]
#[verifier::reject_recursive_types(T)]
pub struct ExProducer<T>(Producer<T>);

#[verifier::external_type_specification]
#[verifier::external_body]
#[verifier::reject_recursive_types(T)]
pub struct ExConsumer<T>(Consumer<T>);

/// All commands that were put into the ring buffer through this end since
/// the buffer was made, oldest first. `Producer::push` puts one in.
pub uninterp spec fn ring_sent(producer: Producer<Command>) -> Seq<Command>;

/// All commands that were taken out of the ring buffer through this end
/// since the buffer was made, oldest first. `Consumer::pop` takes one out.
pub uninterp spec fn ring_taken(consumer: Consumer<Command>) -> Seq<Command>;

/// The capacity that `RingBuffer::new` made the buffer behind this end with.
pub uninterp spec fn ring_capacity(producer: Producer<Command>) -> nat;

/// Whether `RingBuffer::split` made the two out of one ring buffer.
pub uninterp spec fn ring_joined(producer: Producer<Command>, consumer: Consumer<Command>) -> bool;

/// The number of commands that wait in the ring buffer between its two ends:
/// those that were sent and not yet taken.
pub open spec fn ring_count(producer: Producer<Command>, consumer: Consumer<Command>) -> int {
    ring_sent(producer).len() - ring_taken(consumer).len()
}

/// `RingBuffer::new` followed by `RingBuffer::split`: the two ends of a new,
/// empty ring buffer with room for `capacity` commands. `RingBuffer::new`
/// makes one slot more than the capacity, so the capacity cannot be the
/// largest number there is.
#[verifier::external_body]
fn ring_split(capacity: usize) -> (ends: (Producer<Command>, Consumer<Command>))
    requires
        capacity < usize::MAX,
    ensures
        ring_joined(ends.0, ends.1),
        ring_capacity(ends.0) == capacity,
        ring_sent(ends.0) == Seq::<Command>::empty(),
        ring_taken(ends.1) == Seq::<Command>::empty(),
{
    RingBuffer::new(capacity).split()
}

/// `Producer::push`: appends the command to the buffer and returns `Ok`, or,
/// if the buffer is full, leaves the buffer alone and hands the command back.
///
/// The buffer is full when it holds as many commands as its capacity. How
/// many it holds is known only to a caller who also holds the other end and
/// shows it (`partner`), so that nothing can be taken out meanwhile: it is
/// what was sent less what was taken. The call itself does not touch the
/// other end, and it returns in every case: it cannot panic.
///
/// Without the other end this much is still known: a buffer into which fewer
/// commands were ever put than it has room for cannot be full, whatever was
/// taken out of it, so the push succeeds.
#[verifier::external_body]
fn ring_push(
    producer: &mut Producer<Command>,
    partner: Option<&Consumer<Command>>,
    command: Command,
) -> (pushed: Result<(), Command>)
    ensures
        ring_capacity(*final(producer)) == ring_capacity(*old(producer)),
        ring_sent(*old(producer)).len() < ring_capacity(*old(producer)) ==> pushed is Ok,
        match pushed {
            Ok(()) => ring_sent(*final(producer)) == ring_sent(*old(producer)).push(command),
            Err(back) => back == command && ring_sent(*final(producer)) == ring_sent(
                *old(producer),
            ),
        },
        partner matches Some(consumer) ==> ring_joined(*old(producer), *consumer) ==> {
            &&& ring_joined(*final(producer), *consumer)
            &&& pushed is Ok <==> ring_count(*old(producer), *consumer) < ring_capacity(
                *old(producer),
            )
        },
    no_unwind
{
    producer.push(command)
}

/// `Consumer::pop`: takes the oldest command out of the buffer and returns
/// it, or returns `None` if the buffer is empty.
///
/// Which command is the oldest is known only to a caller who also holds the
/// other end and shows it (`partner`), so that nothing can be put in
/// meanwhile: commands come out in the order in which they were sent, so the
/// next one is the first that was sent and not yet taken. The call itself
/// does not touch the other end, and it returns in every case: it cannot
/// panic.
#[verifier::external_body]
fn ring_pop(consumer: &mut Consumer<Command>, partner: Option<&Producer<Command>>) -> (popped:
    Option<Command>)
    ensures
        match popped {
            Some(command) => ring_taken(*final(consumer)) == ring_taken(*old(consumer)).push(
                command,
            ),
            None => ring_taken(*final(consumer)) == ring_taken(*old(consumer)),
        },
        partner matches Some(producer) ==> ring_joined(*producer, *old(consumer)) ==> {
            &&& ring_joined(*producer, *final(consumer))
            &&& popped == if ring_count(*producer, *old(consumer)) > 0 {
                Some(ring_sent(*producer)[ring_taken(*old(consumer)).len() as int])
            } else {
                None
            }
        },
    no_unwind
{
    consumer.pop()
}

/// `std::sync::Arc::strong_count`: the number of pointers to the value that
/// there are at the moment. Any of them may be let go of, or a new one made,
/// at any time, so nothing is known of the number.
#[verifier::external_body]
fn holders(link: &Arc<()>) -> (count: usize) {
    Arc::strong_count(link)
}

/// What a command queue is: the commands that wait in it, oldest first, and
/// the number of commands that it has room for.
pub struct QueueModel {
    pub items: Seq<Command>,
    pub capacity: nat,
}

impl QueueModel {
    /// An empty queue.
    pub open spec fn empty(capacity: nat) -> QueueModel {
        QueueModel { items: Seq::empty(), capacity }
    }

    /// A queue never holds more than its capacity.
    pub open spec fn wf(self) -> bool {
        self.items.len() <= self.capacity
    }

    pub open spec fn is_full(self) -> bool {
        self.items.len() >= self.capacity
    }

    /// The queue after an attempt to push: a full queue stays what it was.
    pub open spec fn push(self, command: Command) -> QueueModel {
        if self.is_full() {
            self
        } else {
            QueueModel { items: self.items.push(command), ..self }
        }
    }

    /// The command that the next pop gives.
    pub open spec fn front(self) -> Option<Command> {
        if self.items.len() > 0 {
            Some(self.items[0])
        } else {
            None
        }
    }

    /// The queue after a pop.
    pub open spec fn pop(self) -> QueueModel {
        if self.items.len() > 0 {
            QueueModel { items: self.items.drop_first(), ..self }
        } else {
            self
        }
    }

    /// The queue after an attempt to push each of the commands, in order.
    pub open spec fn push_all(self, commands: Seq<Command>) -> QueueModel
        decreases commands.len(),
    {
        if commands.len() == 0 {
            self
        } else {
            self.push_all(commands.drop_last()).push(commands.last())
        }
    }

    /// The queue after `n` pops.
    pub open spec fn pop_n(self, n: nat) -> QueueModel
        decreases n,
    {
        if n == 0 {
            self
        } else {
            self.pop_n((n - 1) as nat).pop()
        }
    }
}

/// Whether `taken` is the beginning of `sent`.
pub open spec fn is_prefix(taken: Seq<Command>, sent: Seq<Command>) -> bool {
    taken.len() <= sent.len() && taken == sent.subrange(0, taken.len() as int)
}

/// A command queue of which both ends are in one hand.
pub struct CommandQueue {
    producer: Producer<Command>,
    consumer: Consumer<Command>,
    capacity: usize,
}

impl View for CommandQueue {
    type V = QueueModel;

    closed spec fn view(&self) -> QueueModel {
        QueueModel {
            items: ring_sent(self.producer).skip(ring_taken(self.consumer).len() as int),
            capacity: ring_capacity(self.producer),
        }
    }
}

impl CommandQueue {
    /// Both ends belong to one buffer, and what was taken is the beginning
    /// of what was sent.
    #[verifier::type_invariant]
    spec fn inv(self) -> bool {
        &&& ring_joined(self.producer, self.consumer)
        &&& ring_capacity(self.producer) == self.capacity
        &&& is_prefix(ring_taken(self.consumer), ring_sent(self.producer))
        &&& ring_count(self.producer, self.consumer) <= ring_capacity(self.producer)
    }

    /// All commands that were ever pushed and accepted, oldest first.
    pub closed spec fn sent(&self) -> Seq<Command> {
        ring_sent(self.producer)
    }

    /// All commands that were ever popped, oldest first.
    pub closed spec fn taken(&self) -> Seq<Command> {
        ring_taken(self.consumer)
    }

    /// An empty queue with room for `capacity` commands.
    pub fn new(capacity: usize) -> (queue: CommandQueue)
        requires
            capacity < usize::MAX,
        ensures
            queue@ == QueueModel::empty(capacity as nat),
            queue.sent() == Seq::<Command>::empty(),
            queue.taken() == Seq::<Command>::empty(),
    {
        let (producer, consumer) = ring_split(capacity);
        assert(ring_sent(producer).skip(0) =~= Seq::<Command>::empty());
        assert(ring_taken(consumer) =~= ring_sent(producer).subrange(0, 0));
        CommandQueue { producer, consumer, capacity }
    }

    /// Appends `command`, unless the queue is full. Never waits.
    pub fn push(&mut self, command: Command) -> (pushed: Result<(), CommandQueueFull>)
        ensures
            final(self)@ == old(self)@.push(command),
            pushed is Ok <==> !old(self)@.is_full(),
            final(self)@.wf(),
    {
        proof {
            use_type_invariant(&*self);
        }
        let ghost sent = ring_sent(self.producer);
        let ghost taken = ring_taken(self.consumer);
        proof {
            assert(sent.push(command).skip(taken.len() as int) =~= sent.skip(
                taken.len() as int,
            ).push(command));
            assert(taken =~= sent.push(command).subrange(0, taken.len() as int));
        }
        let pushed = ring_push(&mut self.producer, Some(&self.consumer), command);
        match pushed {
            Ok(()) => {
                assert(sent.push(command).skip(taken.len() as int) =~= sent.skip(
                    taken.len() as int,
                ).push(command));
                assert(taken =~= sent.push(command).subrange(0, taken.len() as int));
                Ok(())
            },
            Err(_) => Err(CommandQueueFull),
        }
    }

    /// Takes the oldest command out, if there is one. Never waits.
    pub fn pop(&mut self) -> (popped: Option<Command>)
        ensures
            popped == old(self)@.front(),
            final(self)@ == old(self)@.pop(),
            final(self)@.wf(),
    {
        proof {
            use_type_invariant(&*self);
        }
        let ghost sent = ring_sent(self.producer);
        let ghost taken = ring_taken(self.consumer);
        proof {
            if taken.len() < sent.len() {
                let command = sent[taken.len() as int];
                assert(sent.skip(taken.len() as int + 1) =~= sent.skip(
                    taken.len() as int,
                ).drop_first());
                assert(taken.push(command) =~= sent.subrange(0, taken.len() as int + 1));
            }
        }
        let popped = ring_pop(&mut self.consumer, Some(&self.producer));
        proof {
            if popped is Some {
                let command = popped.unwrap();
                assert(sent.skip(taken.len() as int + 1) =~= sent.skip(
                    taken.len() as int,
                ).drop_first());
                assert(taken.push(command) =~= sent.subrange(0, taken.len() as int + 1));
            }
        }
        popped
    }

    /// The number of commands that the queue has room for.
    pub fn capacity(&self) -> (capacity: usize)
        ensures
            capacity == self@.capacity,
    {
        proof {
            use_type_invariant(self);
        }
        self.capacity
    }

    /// Parts the queue into the end that a handle sends by and the end that
    /// the render side receives by. What waits in the queue is what the one
    /// has sent and the other has not yet taken.
    pub fn split(self) -> (ends: (CommandProducer, CommandConsumer))
        ensures
            ends.0.sent() == self.sent(),
            ends.0.limit() == self@.capacity,
            ends.1.taken() == self.taken(),
            ends.0.sent().skip(ends.1.taken().len() as int) == self@.items,
            is_prefix(ends.1.taken(), ends.0.sent()),
            ends.1.limit() == self@.capacity,
    {
        proof {
            use_type_invariant(&self);
        }
        let link: Arc<()> = Arc::new(());
        (
            CommandProducer { end: self.producer, link: share(&link) },
            CommandConsumer { end: self.consumer, capacity: self.capacity, link },
        )
    }
}

/// The end of a command queue that a handle sends by.
///
/// The channel lives as long as the receiving end does. Once the resource
/// that holds the receiving end is removed, and the end with it, this end
/// sees that it alone still holds the link between the two, and refuses
/// every command as if the queue were full.
pub struct CommandProducer {
    end: Producer<Command>,
    /// Held by both ends; this end is alone when the count of its holders
    /// is below two.
    link: Arc<()>,
}

impl CommandProducer {
    /// The commands that this end has put into the queue, oldest first.
    pub closed spec fn sent(&self) -> Seq<Command> {
        ring_sent(self.end)
    }

    /// The number of commands that the queue has room for.
    pub closed spec fn limit(&self) -> nat {
        ring_capacity(self.end)
    }

    /// Whether the receiving end is still there, as far as can be seen at
    /// the moment.
    fn is_open(&self) -> (open: bool) {
        holders(&self.link) >= 2
    }

    /// Appends `command` to the queue, unless the receiving end is gone or
    /// the queue is full. Never waits. Both depend on the render side, so
    /// only this is said here: a command that was accepted is the last one
    /// sent, and one that was refused is not sent at all.
    pub fn push(&mut self, command: Command) -> (pushed: Result<(), CommandQueueFull>)
        ensures
            final(self).limit() == old(self).limit(),
            final(self).sent() == sent_after(old(self).sent(), command, pushed),
    {
        let open: bool = self.is_open();
        self.push_if_open(open, command)
    }

    /// What `push` does once it has seen whether the receiving end is still
    /// there (`open`). A channel whose receiving end is gone refuses every
    /// command, like a full queue, whatever room it has. An open one accepts
    /// the command unless the queue is full; whether it is depends on how
    /// far the render side has come, but as long as this end has sent fewer
    /// commands than the queue has room for, it cannot be.
    pub fn push_if_open(&mut self, open: bool, command: Command) -> (pushed: Result<
        (),
        CommandQueueFull,
    >)
        ensures
            final(self).limit() == old(self).limit(),
            final(self).sent() == sent_after(old(self).sent(), command, pushed),
            !open ==> pushed is Err,
            open && old(self).sent().len() < old(self).limit() ==> pushed is Ok,
    {
        if !open {
            return Err(CommandQueueFull);
        }
        match ring_push(&mut self.end, None, command) {
            Ok(()) => Ok(()),
            Err(_) => Err(CommandQueueFull),
        }
    }
}

/// A sending end that several handles share: a handle and its clones, and
/// the handles of what the handle made. One of them sends at a time; a push
/// that comes while another is under way does not wait, and is refused like
/// one into a full queue.
///
/// What the others sent in between is not known here, so each push says
/// what the channel had sent, by all of them together, right before and
/// right after it.
pub struct SharedProducer {
    end: Arc<Mutex<CommandProducer>>,
    before: Ghost<Seq<Command>>,
    after: Ghost<Seq<Command>>,
}

impl SharedProducer {
    /// The sending end that this handle shares with the others.
    pub closed spec fn channel(&self) -> Arc<Mutex<CommandProducer>> {
        self.end
    }

    /// What the channel had sent right before the last push through this
    /// handle.
    pub closed spec fn before(&self) -> Seq<Command> {
        self.before@
    }

    /// What the channel had sent right after the last push through this
    /// handle.
    pub closed spec fn after(&self) -> Seq<Command> {
        self.after@
    }

    /// Makes the sending end one that can be shared.
    pub fn new(end: CommandProducer) -> (shared: SharedProducer)
        ensures
            shared.before() == end.sent(),
            shared.after() == end.sent(),
    {
        let ghost sent = end.sent();
        SharedProducer { end: Arc::new(locked(end)), before: Ghost(sent), after: Ghost(sent) }
    }

    /// Another handle on the same sending end.
    pub fn share(&self) -> (other: SharedProducer)
        ensures
            other.channel() == self.channel(),
            other.before() == self.before(),
            other.after() == self.after(),
    {
        SharedProducer { end: share(&self.end), before: self.before, after: self.after }
    }

    /// Appends `command` to the queue, unless another handle is sending at
    /// the moment, the receiving end is gone or the queue is full. Never
    /// waits. A command that was accepted is the last one that the channel
    /// has sent then, and one that was refused is not sent at all.
    pub fn push(&mut self, command: Command) -> (pushed: Result<(), CommandQueueFull>)
        ensures
            final(self).channel() == old(self).channel(),
            final(self).after() == sent_after(final(self).before(), command, pushed),
    {
        let shared = share(&self.end);
        let ghost mut before = self.before@;
        let ghost mut after = self.before@;
        let pushed: Result<(), CommandQueueFull> = match try_lock(&*shared) {
            Some(mut guard) => {
                let end = held(&mut guard);
                proof {
                    before = end.sent();
                }
                let pushed = end.push(command);
                proof {
                    after = end.sent();
                }
                pushed
            },
            None => Err(CommandQueueFull),
        };
        self.before = Ghost(before);
        self.after = Ghost(after);
        pushed
    }
}

/// What an end has sent after it tried to send `command`, given how the
/// attempt ended: a command that was accepted is the last one sent, one that
/// was refused is not sent at all.
pub open spec fn sent_after(
    sent: Seq<Command>,
    command: Command,
    pushed: Result<(), CommandQueueFull>,
) -> Seq<Command> {
    if pushed is Ok {
        sent.push(command)
    } else {
        sent
    }
}

/// What an end has taken after a pop, given what the pop gave.
pub open spec fn taken_after(taken: Seq<Command>, popped: Option<Command>) -> Seq<Command> {
    match popped {
        Some(command) => taken.push(command),
        None => taken,
    }
}

/// The end of a command queue that the render side receives by.
pub struct CommandConsumer {
    end: Consumer<Command>,
    capacity: usize,
    /// Held by both ends; when this end is let go of, the other is alone.
    link: Arc<()>,
}

impl CommandConsumer {
    /// The commands that this end has taken out of the queue, oldest first.
    pub closed spec fn taken(&self) -> Seq<Command> {
        ring_taken(self.end)
    }

    /// The number of commands that the queue has room for.
    pub closed spec fn limit(&self) -> nat {
        self.capacity as nat
    }

    /// The number of commands that the queue has room for.
    pub fn capacity(&self) -> (capacity: usize)
        ensures
            capacity == self.limit(),
    {
        self.capacity
    }

    /// Takes the oldest command out of the queue, if the handle has sent one
    /// that was not taken yet. Never waits.
    pub fn pop(&mut self) -> (popped: Option<Command>)
        ensures
            final(self).taken() == taken_after(old(self).taken(), popped),
            final(self).limit() == old(self).limit(),
    {
        ring_pop(&mut self.end, None)
    }
}

/// After `n` pops a queue holds what it held, less the `n` oldest commands.
pub proof fn lemma_pop_n(q: QueueModel, n: nat)
    requires
        n <= q.items.len(),
    ensures
        q.pop_n(n) == (QueueModel { items: q.items.skip(n as int), ..q }),
    decreases n,
{
    if n == 0 {
        assert(q.items.skip(0) =~= q.items);
    } else {
        lemma_pop_n(q, (n - 1) as nat);
        assert(q.items.skip(n - 1).drop_first() =~= q.items.skip(n as int));
    }
}

/// As long as the commands that wait and the commands that come do not
/// exceed the capacity, every push succeeds: each finds the queue not full,
/// and the queue then holds what it held followed by the commands pushed,
/// in their order.
pub proof fn law_pushes_within_capacity_succeed(q: QueueModel, commands: Seq<Command>)
    requires
        q.items.len() + commands.len() <= q.capacity,
    ensures
        q.push_all(commands) == (QueueModel { items: q.items + commands, ..q }),
        forall|i: int|
            0 <= i < commands.len() ==> !(#[trigger] q.push_all(commands.take(i))).is_full(),
    decreases commands.len(),
{
    if commands.len() == 0 {
        assert(q.items + commands =~= q.items);
    } else {
        let fewer = commands.drop_last();
        law_pushes_within_capacity_succeed(q, fewer);
        assert(q.items + commands =~= (q.items + fewer).push(commands.last()));
        assert forall|i: int| 0 <= i < commands.len() implies !(#[trigger] q.push_all(
            commands.take(i),
        )).is_full() by {
            if i < fewer.len() {
                assert(commands.take(i) =~= fewer.take(i));
            } else {
                assert(commands.take(i) =~= fewer);
            }
        }
    }
}

/// A push into a full queue fails and changes nothing, so the next one fails
/// too; after one pop there is room again, and a push then succeeds.
pub proof fn law_full_queue_rejects_until_pop(q: QueueModel, command: Command)
    requires
        q.wf(),
        q.is_full(),
    ensures
        q.push(command) == q,
        q.capacity > 0 ==> !q.pop().is_full(),
        q.capacity > 0 ==> q.pop().push(command).items == q.items.drop_first().push(command),
{
}

/// First in, first out: when commands were pushed into an empty queue that
/// has room for them, the pop that follows `i` earlier pops gives exactly
/// the `i`-th command pushed.
pub proof fn law_first_in_first_out(q: QueueModel, commands: Seq<Command>, i: int)
    requires
        q.items.len() == 0,
        commands.len() <= q.capacity,
        0 <= i < commands.len(),
    ensures
        q.push_all(commands).pop_n(i as nat).front() == Some(commands[i]),
{
    law_pushes_within_capacity_succeed(q, commands);
    assert(q.items + commands =~= commands);
    lemma_pop_n(q.push_all(commands), i as nat);
}

} // verus!
