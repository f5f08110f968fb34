//! Commands and the bounded bus that carries them between tasks.
//!
//! Producers (network, ESP-NOW and button tasks) and consumers (OLED, servo,
//! camera and audio tasks) know each other only through [`Command`] values. The
//! bus holds at most [`COMMAND_BUS_CAPACITY`] of them and hands them out in the
//! order in which they came in.
use embassy_sync::blocking_mutex::raw::CriticalSectionRawMutex;
use embassy_sync::channel::{Channel, TrySendError};
use vstd::prelude::*;

verus! {

/// Face mood shown on the OLED.
///
/// Clients may still ask for the mood by its older name [`FaceMood::Surprised`],
/// which is the same as [`FaceMood::Excited`].
#[derive(Debug, Clone, Copy, PartialEq, Eq, Structural)]
pub enum FaceMood {
    Happy,
    Sad,
    Neutral,
    Excited,
    Mad,
    Sleeping,
}

/// The name under which network clients know [`FaceMood`].
pub type Expression = FaceMood;

impl FaceMood {
    /// Older name of [`FaceMood::Excited`].
    #[allow(non_upper_case_globals)]
    pub const Surprised: FaceMood = FaceMood::Excited;
}

/// System-wide commands.
#[derive(Debug, Clone, Copy, PartialEq, Eq, Structural)]
pub enum Command {
    /// Change the face mood.
    SetFaceExpression(FaceMood),
    /// Move a servo: `(servo_id, angle_degrees)`, with an angle of 0 to 180.
    MoveServo(u8, u16),
    /// Start (`true`) or stop (`false`) audio streaming.
    StreamAudio(bool),
    /// Start (`true`) or stop (`false`) MJPEG video streaming.
    StreamVideo(bool),
    /// A single click: move the menu cursor to the next item.
    MenuNextItem,
    /// A long press: open the menu, or act on the highlighted item.
    MenuSelect,
}

/// Mutex type that guards state shared between tasks and interrupts.
pub type SystemMutex = CriticalSectionRawMutex;

/// Number of commands that the bus can hold.
pub const COMMAND_BUS_CAPACITY: usize = 8;

/// A command bus with a single owner, kept by `embassy_sync`'s bounded channel.
/// Its view is the sequence of the commands that wait, the oldest first.
#[verifier::external_body]
pub struct CommandBus {
    channel: Channel<SystemMutex, Command, COMMAND_BUS_CAPACITY>,
}

/// The commands that wait on a bus, the oldest first.
pub uninterp spec fn queued(bus: CommandBus) -> Seq<Command>;

impl View for CommandBus {
    type V = Seq<Command>;

    open spec fn view(&self) -> Seq<Command> {
        queued(*self)
    }
}

/// Makes a bus by `Channel::new`. Trusted: nothing waits on it.
#[verifier::external_body]
fn new_bus() -> (bus: CommandBus)
    ensures
        queued(bus) == Seq::<Command>::empty(),
{
    CommandBus { channel: Channel::new() }
}

/// Sends by `Channel::try_send`. Trusted: a bus that holds less than its
/// capacity takes the command behind those that wait; a full one hands the
/// command back and stays as it was, and no bus holds more than its capacity. The
/// bus is borrowed exclusively, so no other task sends or receives in between.
#[verifier::external_body]
fn send_now(bus: &mut CommandBus, command: Command) -> (sent: Result<(), Command>)
    ensures
        sent is Ok <==> queued(*old(bus)).len() < COMMAND_BUS_CAPACITY,
        sent is Ok ==> queued(*final(bus)) == queued(*old(bus)).push(command),
        sent matches Err(refused) ==> refused == command && queued(*final(bus)) == queued(
            *old(bus),
        ),
        queued(*final(bus)).len() <= COMMAND_BUS_CAPACITY,
{
    match bus.channel.try_send(command) {
        Ok(()) => Ok(()),
        Err(TrySendError::Full(refused)) => Err(refused),
    }
}

/// Receives by `Channel::try_receive`. Trusted: the command that waited longest
/// leaves the bus; an empty bus gives nothing and stays empty; no bus holds more
/// than its capacity.
#[verifier::external_body]
fn receive_now(bus: &mut CommandBus) -> (received: Option<Command>)
    ensures
        received is Some <==> queued(*old(bus)).len() > 0,
        received matches Some(command) ==> command == queued(*old(bus))[0] && queued(
            *final(bus),
        ) == queued(*old(bus)).drop_first(),
        received is None ==> queued(*final(bus)) == queued(*old(bus)),
        queued(*final(bus)).len() <= COMMAND_BUS_CAPACITY,
{
    bus.channel.try_receive().ok()
}

/// The bus is full; the command that it refused comes back.
#[derive(Debug, Clone, Copy, PartialEq, Eq, Structural)]
pub struct BusFull(pub Command);

/// No command waits on the bus.
#[derive(Debug, Clone, Copy, PartialEq, Eq, Structural)]
pub struct BusEmpty;

/// What waits on the bus after an attempt to send `command`.
pub open spec fn after_send(waiting: Seq<Command>, command: Command) -> Seq<Command> {
    if waiting.len() < COMMAND_BUS_CAPACITY {
        waiting.push(command)
    } else {
        waiting
    }
}

/// What waits on the bus after an attempt to receive.
pub open spec fn after_receive(waiting: Seq<Command>) -> Seq<Command> {
    if waiting.len() > 0 {
        waiting.drop_first()
    } else {
        waiting
    }
}

impl CommandBus {
    /// An empty bus.
    pub fn new() -> (bus: CommandBus)
        ensures
            bus@ == Seq::<Command>::empty(),
    {
        new_bus()
    }

    /// Puts `command` on the bus, or hands it back when the bus is full.
    pub fn try_send(&mut self, command: Command) -> (sent: Result<(), BusFull>)
        ensures
            sent == (if old(self)@.len() < COMMAND_BUS_CAPACITY {
                Ok::<(), BusFull>(())
            } else {
                Err::<(), BusFull>(BusFull(command))
            }),
            final(self)@ == after_send(old(self)@, command),
            sent is Ok ==> final(self)@ == old(self)@.push(command),
            sent is Err ==> final(self)@ == old(self)@,
            final(self)@.len() <= COMMAND_BUS_CAPACITY,
    {
        match send_now(self, command) {
            Ok(()) => Ok(()),
            Err(refused) => Err(BusFull(refused)),
        }
    }

    /// Takes the oldest command off the bus.
    pub fn try_receive(&mut self) -> (received: Result<Command, BusEmpty>)
        ensures
            received == (if old(self)@.len() > 0 {
                Ok::<Command, BusEmpty>(old(self)@[0])
            } else {
                Err::<Command, BusEmpty>(BusEmpty)
            }),
            final(self)@ == after_receive(old(self)@),
            received matches Ok(command) ==> old(self)@ == seq![command] + final(self)@,
            received is Err ==> final(self)@ == old(self)@,
            final(self)@.len() <= COMMAND_BUS_CAPACITY,
    {
        match receive_now(self) {
            Some(command) => Ok(command),
            None => Err(BusEmpty),
        }
    }
}

/// What waits after an attempt to send each of `commands`, in order.
pub open spec fn after_sends(waiting: Seq<Command>, commands: Seq<Command>) -> Seq<Command>
    decreases commands.len(),
{
    if commands.len() == 0 {
        waiting
    } else {
        after_sends(after_send(waiting, commands[0]), commands.drop_first())
    }
}

/// What waits after `n` attempts to receive.
pub open spec fn after_receives(waiting: Seq<Command>, n: nat) -> Seq<Command>
    decreases n,
{
    if n == 0 {
        waiting
    } else {
        after_receives(after_receive(waiting), (n - 1) as nat)
    }
}

/// The bus never holds more than its capacity, whatever is sent.
pub proof fn lemma_bus_is_bounded(waiting: Seq<Command>, commands: Seq<Command>)
    requires
        waiting.len() <= COMMAND_BUS_CAPACITY,
    ensures
        after_sends(waiting, commands).len() <= COMMAND_BUS_CAPACITY,
    decreases commands.len(),
{
    if commands.len() > 0 {
        lemma_bus_is_bounded(after_send(waiting, commands[0]), commands.drop_first());
    }
}

/// Of the commands sent in a row, the bus keeps as many of the first ones as it
/// has room for, behind those that waited already.
pub proof fn lemma_sends_keep_order(waiting: Seq<Command>, commands: Seq<Command>)
    requires
        waiting.len() <= COMMAND_BUS_CAPACITY,
    ensures
        ({
            let room = COMMAND_BUS_CAPACITY - waiting.len();
            after_sends(waiting, commands) == if commands.len() <= room {
                waiting + commands
            } else {
                waiting + commands.take(room)
            }
        }),
    decreases commands.len(),
{
    let room = COMMAND_BUS_CAPACITY - waiting.len();
    if commands.len() > 0 {
        let rest = commands.drop_first();
        lemma_sends_keep_order(after_send(waiting, commands[0]), rest);
        if room > 0 {
            assert(waiting.push(commands[0]) + rest =~= waiting + commands);
            if commands.len() > room {
                assert(waiting.push(commands[0]) + rest.take(room - 1) =~= waiting + commands.take(
                    room,
                ));
            }
        } else {
            assert(waiting + commands.take(room) =~= waiting);
            assert(waiting + rest.take(room) =~= waiting);
            if rest.len() == 0 {
                assert(waiting + rest =~= waiting);
            }
        }
    } else {
        assert(waiting + commands =~= waiting);
    }
}

/// First in, first out: after a number of commands were sent to an empty bus and
/// `k` of them received, the next one received is the `k`-th that was sent.
pub proof fn lemma_bus_is_fifo(commands: Seq<Command>, k: nat)
    requires
        k < commands.len() <= COMMAND_BUS_CAPACITY,
    ensures
        ({
            let waiting = after_receives(after_sends(Seq::empty(), commands), k);
            waiting.len() > 0 && waiting[0] == commands[k as int]
        }),
{
    lemma_sends_keep_order(Seq::empty(), commands);
    assert(Seq::<Command>::empty() + commands =~= commands);
    lemma_receives_drop(commands, k);
}

proof fn lemma_receives_drop(waiting: Seq<Command>, n: nat)
    requires
        n <= waiting.len(),
    ensures
        after_receives(waiting, n) == waiting.skip(n as int),
    decreases n,
{
    if n > 0 {
        lemma_receives_drop(after_receive(waiting), (n - 1) as nat);
        assert(waiting.drop_first().skip(n - 1) =~= waiting.skip(n as int));
    } else {
        assert(waiting.skip(0) =~= waiting);
    }
}

/// An attempt to use the bus.
pub enum BusEvent {
    Send(Command),
    Receive,
}

/// The history of a bus that was empty at first: what waits on it, and all the
/// commands that it took and that it gave, in order.
#[verifier::ext_equal]
pub struct BusHistory {
    pub waiting: Seq<Command>,
    pub taken: Seq<Command>,
    pub given: Seq<Command>,
}

/// The history of a bus after a run of attempts to use it.
pub open spec fn history_of(events: Seq<BusEvent>) -> BusHistory
    decreases events.len(),
{
    if events.len() == 0 {
        BusHistory { waiting: Seq::empty(), taken: Seq::empty(), given: Seq::empty() }
    } else {
        let before = history_of(events.drop_last());
        match events.last() {
            BusEvent::Send(command) => BusHistory {
                waiting: after_send(before.waiting, command),
                taken: if before.waiting.len() < COMMAND_BUS_CAPACITY {
                    before.taken.push(command)
                } else {
                    before.taken
                },
                ..before
            },
            BusEvent::Receive => BusHistory {
                waiting: after_receive(before.waiting),
                given: if before.waiting.len() > 0 {
                    before.given.push(before.waiting[0])
                } else {
                    before.given
                },
                ..before
            },
        }
    }
}

/// However sends and receives alternate, the bus gives the commands in the order in
/// which it took them, loses none and repeats none: those that it took are those
/// that it gave, followed by those that wait, of which there are never more than its
/// capacity.
pub proof fn lemma_bus_keeps_every_command(events: Seq<BusEvent>)
    ensures
        history_of(events).taken == history_of(events).given + history_of(events).waiting,
        history_of(events).waiting.len() <= COMMAND_BUS_CAPACITY,
    decreases events.len(),
{
    if events.len() > 0 {
        lemma_bus_keeps_every_command(events.drop_last());
    }
}

} // verus!
