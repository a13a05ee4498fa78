//! The firmware-command bus: every call that touches the player's kernel
//! state is queued here and carried out, in order, by the one broker thread
//! that may make such calls. The bus is a FIFO queue that only accepts
//! commands once it is initialised and hands its receiving end out once.
//!
//! A command carries a reply handle `R` (through which the broker confirms
//! it ran) and, for the escape hatch, a job `F` to run on the broker; the
//! thread plumbing that instantiates them is outside this module.
use std::collections::VecDeque;
use vstd::prelude::*;

verus! {

broadcast use vstd::std_specs::vecdeque::group_vec_dequeue_axioms;

/// How long a sender waits for the broker to confirm a command, in
/// milliseconds.
pub const BROKER_TIMEOUT_MS: u64 = 30000;

/// A firmware-mutating call routed through the broker.
pub enum FwCmd<R, F> {
    Play { elapsed: i64, offset: i64, reply: Option<R> },
    Pause { reply: Option<R> },
    Resume { reply: Option<R> },
    Next { reply: Option<R> },
    Prev { reply: Option<R> },
    Stop { reply: Option<R> },
    FfRewind { newtime: i32, reply: Option<R> },
    FlushAndReloadTracks { reply: Option<R> },
    SetCrossfade { value: i32, reply: Option<R> },
    /// Anything else: a job the broker runs as it is.
    Custom(F),
}

/// The firmware call a command comes to.
#[derive(Debug, Clone, Copy, PartialEq, Eq, Structural)]
pub enum FirmwareCall {
    Play { elapsed: i64, offset: i64 },
    Pause,
    Resume,
    Next,
    Prev,
    HardStop,
    FfRewind(i32),
    FlushAndReloadTracks,
    SetCrossfade(i32),
}

/// What the broker does with a command.
pub enum BrokerAction<R, F> {
    /// Make the call, then confirm through the reply handle, if any.
    Call(FirmwareCall, Option<R>),
    /// Run the job.
    Run(F),
}

/// The action of a command: each named command is its firmware call (a
/// stop is a hard stop) with its reply handle; a custom job is run.
pub open spec fn action_of<R, F>(cmd: FwCmd<R, F>) -> BrokerAction<R, F> {
    match cmd {
        FwCmd::Play { elapsed, offset, reply } => BrokerAction::Call(
            FirmwareCall::Play { elapsed, offset },
            reply,
        ),
        FwCmd::Pause { reply } => BrokerAction::Call(FirmwareCall::Pause, reply),
        FwCmd::Resume { reply } => BrokerAction::Call(FirmwareCall::Resume, reply),
        FwCmd::Next { reply } => BrokerAction::Call(FirmwareCall::Next, reply),
        FwCmd::Prev { reply } => BrokerAction::Call(FirmwareCall::Prev, reply),
        FwCmd::Stop { reply } => BrokerAction::Call(FirmwareCall::HardStop, reply),
        FwCmd::FfRewind { newtime, reply } => BrokerAction::Call(FirmwareCall::FfRewind(newtime), reply),
        FwCmd::FlushAndReloadTracks { reply } => BrokerAction::Call(
            FirmwareCall::FlushAndReloadTracks,
            reply,
        ),
        FwCmd::SetCrossfade { value, reply } => BrokerAction::Call(
            FirmwareCall::SetCrossfade(value),
            reply,
        ),
        FwCmd::Custom(f) => BrokerAction::Run(f),
    }
}

/// What the broker does with a command it drained.
pub fn broker_action<R, F>(cmd: FwCmd<R, F>) -> (res: BrokerAction<R, F>)
    ensures
        res == action_of(cmd),
{
    match cmd {
        FwCmd::Play { elapsed, offset, reply } => BrokerAction::Call(
            FirmwareCall::Play { elapsed, offset },
            reply,
        ),
        FwCmd::Pause { reply } => BrokerAction::Call(FirmwareCall::Pause, reply),
        FwCmd::Resume { reply } => BrokerAction::Call(FirmwareCall::Resume, reply),
        FwCmd::Next { reply } => BrokerAction::Call(FirmwareCall::Next, reply),
        FwCmd::Prev { reply } => BrokerAction::Call(FirmwareCall::Prev, reply),
        FwCmd::Stop { reply } => BrokerAction::Call(FirmwareCall::HardStop, reply),
        FwCmd::FfRewind { newtime, reply } => BrokerAction::Call(FirmwareCall::FfRewind(newtime), reply),
        FwCmd::FlushAndReloadTracks { reply } => BrokerAction::Call(
            FirmwareCall::FlushAndReloadTracks,
            reply,
        ),
        FwCmd::SetCrossfade { value, reply } => BrokerAction::Call(
            FirmwareCall::SetCrossfade(value),
            reply,
        ),
        FwCmd::Custom(f) => BrokerAction::Run(f),
    }
}

/// The bus: whether it was initialised, whether its receiving end was
/// taken, and the commands sent and not yet drained, oldest first.
pub struct FwBus<R, F> {
    initialized: bool,
    receiver_taken: bool,
    queue: VecDeque<FwCmd<R, F>>,
}

impl<R, F> FwBus<R, F> {
    /// Whether the bus was initialised.
    pub closed spec fn is_initialized(&self) -> bool {
        self.initialized
    }

    /// Whether the broker took the receiving end.
    pub closed spec fn is_receiver_taken(&self) -> bool {
        self.receiver_taken
    }

    /// The commands waiting for the broker, oldest first.
    pub closed spec fn pending(&self) -> Seq<FwCmd<R, F>> {
        self.queue@
    }

    /// Whether the broker holds the receiving end.
    pub fn has_broker(&self) -> (res: bool)
        ensures
            res == self.is_receiver_taken(),
    {
        self.receiver_taken
    }

    /// A bus that is not initialised yet.
    pub fn new() -> (res: FwBus<R, F>)
        ensures
            !res.is_initialized(),
            !res.is_receiver_taken(),
            res.pending() == Seq::<FwCmd<R, F>>::empty(),
    {
        FwBus { initialized: false, receiver_taken: false, queue: VecDeque::new() }
    }

    /// Initialises the bus; doing it again changes nothing.
    pub fn init(&mut self)
        ensures
            final(self).is_initialized(),
            final(self).is_receiver_taken() == old(self).is_receiver_taken(),
            final(self).pending() == old(self).pending(),
    {
        self.initialized = true;
    }

    /// Hands the receiving end to the broker: only once, and only after
    /// initialisation.
    pub fn take_receiver(&mut self) -> (res: bool)
        ensures
            res == (old(self).is_initialized() && !old(self).is_receiver_taken()),
            final(self).is_initialized() == old(self).is_initialized(),
            final(self).is_receiver_taken() == (old(self).is_receiver_taken() || res),
            final(self).pending() == old(self).pending(),
    {
        if self.initialized && !self.receiver_taken {
            self.receiver_taken = true;
            true
        } else {
            false
        }
    }

    /// Queues a command for the broker; before initialisation it is
    /// dropped.
    pub fn send(&mut self, cmd: FwCmd<R, F>)
        ensures
            final(self).is_initialized() == old(self).is_initialized(),
            final(self).is_receiver_taken() == old(self).is_receiver_taken(),
            final(self).pending() == if old(self).is_initialized() {
                old(self).pending().push(cmd)
            } else {
                old(self).pending()
            },
    {
        if self.initialized {
            self.queue.push_back(cmd);
        }
    }

    /// Takes every waiting command, oldest first, for the broker that holds
    /// the receiving end.
    pub fn drain(&mut self) -> (res: Vec<FwCmd<R, F>>)
        requires
            old(self).is_receiver_taken(),
        ensures
            res@ == old(self).pending(),
            final(self).pending() == Seq::<FwCmd<R, F>>::empty(),
            final(self).is_initialized() == old(self).is_initialized(),
            final(self).is_receiver_taken() == old(self).is_receiver_taken(),
    {
        let ghost start = self.queue@;
        let mut out: Vec<FwCmd<R, F>> = Vec::new();
        loop
            invariant
                start == out@ + self.queue@,
                self.initialized == old(self).initialized,
                self.receiver_taken == old(self).receiver_taken,
                start == old(self).queue@,
            decreases self.queue@.len(),
        {
            match self.queue.pop_front() {
                Some(c) => {
                    let ghost before = out@;
                    out.push(c);
                    assert(out@ + self.queue@ =~= before + seq![c] + self.queue@);
                },
                None => {
                    assert(out@ + self.queue@ =~= out@);
                    return out;
                },
            }
        }
    }
}

/// The value of a job run on the broker: its result, or the type's default
/// where the broker did not answer in time.
pub fn run_on_broker<T>(outcome: Option<T>, default: T) -> (res: T)
    ensures
        res == match outcome {
            Some(v) => v,
            None => default,
        },
{
    match outcome {
        Some(v) => v,
        None => default,
    }
}

} // verus!
