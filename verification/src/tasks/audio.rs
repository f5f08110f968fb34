//! I2S microphone: the ping-pong pair of DMA buffers and the audio state.
//!
//! While the DMA engine fills one half of the pair, the network task streams the
//! other. A half holds [`I2S_FRAME_SAMPLES`] samples of 16-bit mono PCM, which is
//! 32 ms of audio at [`I2S_SAMPLE_RATE`].
use crate::ipc::Command;
use vstd::prelude::*;
use vstd::slice::slice_subrange;

verus! {

/// Sample rate in Hz.
pub const I2S_SAMPLE_RATE: u32 = 16_000;

/// Number of samples per DMA transfer.
pub const I2S_FRAME_SAMPLES: usize = 512;

/// Bytes per 16-bit sample.
pub const I2S_BYTES_PER_SAMPLE: usize = 2;

/// Bytes in one half of the ping-pong pair.
pub const I2S_FRAME_SIZE: usize = I2S_FRAME_SAMPLES * I2S_BYTES_PER_SAMPLE;

/// One of the two halves.
#[derive(Debug, Clone, Copy, PartialEq, Eq, Structural)]
pub enum PingPong {
    Ping,
    Pong,
}

/// The other half.
pub open spec fn other_half(half: PingPong) -> PingPong {
    match half {
        PingPong::Ping => PingPong::Pong,
        PingPong::Pong => PingPong::Ping,
    }
}

impl PingPong {
    /// Label for logging.
    pub fn label(&self) -> (label: &'static str)
        ensures
            label@ == (match *self {
                PingPong::Ping => "Ping"@,
                PingPong::Pong => "Pong"@,
            }),
    {
        match self {
            PingPong::Ping => "Ping",
            PingPong::Pong => "Pong",
        }
    }

    /// The other half.
    pub fn other(&self) -> (other: PingPong)
        ensures
            other == other_half(*self),
    {
        match self {
            PingPong::Ping => PingPong::Pong,
            PingPong::Pong => PingPong::Ping,
        }
    }
}

/// The two DMA buffers.
pub struct I2sBuffers {
    pub ping: [u8; I2S_FRAME_SIZE],
    pub pong: [u8; I2S_FRAME_SIZE],
}

impl I2sBuffers {
    /// Both buffers zeroed.
    pub fn new() -> (buffers: I2sBuffers)
        ensures
            buffers.ping@ == Seq::new(I2S_FRAME_SIZE as nat, |i: int| 0u8),
            buffers.pong@ == Seq::new(I2S_FRAME_SIZE as nat, |i: int| 0u8),
    {
        I2sBuffers { ping: [0; I2S_FRAME_SIZE], pong: [0; I2S_FRAME_SIZE] }
    }
}

/// Tracks which half the DMA engine fills and how many bytes of the other half are
/// valid.
pub struct PingPongState {
    active_is_pong: bool,
    ready_len: usize,
}

/// The content of a [`PingPongState`].
#[verifier::ext_equal]
pub struct PingPongView {
    /// The half that the DMA engine fills.
    pub active: PingPong,
    /// The number of valid bytes in the other half.
    pub ready_len: nat,
}

impl View for PingPongState {
    type V = PingPongView;

    closed spec fn view(&self) -> PingPongView {
        PingPongView {
            active: if self.active_is_pong {
                PingPong::Pong
            } else {
                PingPong::Ping
            },
            ready_len: self.ready_len as nat,
        }
    }
}

impl PingPongView {
    /// The DMA engine fills Ping, and no samples are ready.
    pub open spec fn initial() -> PingPongView {
        PingPongView { active: PingPong::Ping, ready_len: 0 }
    }

    /// The half that holds the most recently completed samples.
    pub open spec fn ready(self) -> PingPong {
        other_half(self.active)
    }

    /// The state after a transfer of `len` bytes, clamped to the size of a half.
    pub open spec fn swapped(self, len: nat) -> PingPongView {
        PingPongView {
            active: other_half(self.active),
            ready_len: if len <= I2S_FRAME_SIZE {
                len
            } else {
                I2S_FRAME_SIZE as nat
            },
        }
    }

    /// The valid bytes of the ready half.
    pub open spec fn ready_bytes(self, ping: Seq<u8>, pong: Seq<u8>) -> Seq<u8> {
        match self.ready() {
            PingPong::Ping => ping.take(self.ready_len as int),
            PingPong::Pong => pong.take(self.ready_len as int),
        }
    }
}

impl Default for PingPongState {
    fn default() -> (state: PingPongState)
        ensures
            state@ == PingPongView::initial(),
    {
        PingPongState::new()
    }
}

impl PingPongState {
    #[verifier::type_invariant]
    spec fn fits_frame(self) -> bool {
        self.ready_len <= I2S_FRAME_SIZE
    }

    /// The DMA engine fills Ping, and no samples are ready.
    pub fn new() -> (state: PingPongState)
        ensures
            state@ == PingPongView::initial(),
    {
        PingPongState { active_is_pong: false, ready_len: 0 }
    }

    /// The half that the DMA engine fills.
    pub fn active(&self) -> (half: PingPong)
        ensures
            half == self@.active,
    {
        if self.active_is_pong {
            PingPong::Pong
        } else {
            PingPong::Ping
        }
    }

    /// The half that holds the most recently completed samples.
    pub fn ready(&self) -> (half: PingPong)
        ensures
            half == self@.ready(),
    {
        self.active().other()
    }

    /// The number of valid bytes in the ready half; `0` before the first transfer.
    pub fn ready_len(&self) -> (len: usize)
        ensures
            len == self@.ready_len,
            len <= I2S_FRAME_SIZE,
    {
        proof {
            use_type_invariant(self);
        }
        self.ready_len
    }

    /// Called when the DMA engine has filled `len` bytes of the active half: that
    /// half becomes the ready one, and the engine turns to the other.
    ///
    /// `len` is clamped to [`I2S_FRAME_SIZE`].
    pub fn swap(&mut self, len: usize)
        ensures
            old(self)@.ready_len <= I2S_FRAME_SIZE,
            final(self)@ == old(self)@.swapped(len as nat),
    {
        proof {
            use_type_invariant(&*self);
        }
        let clamped = if len <= I2S_FRAME_SIZE {
            len
        } else {
            I2S_FRAME_SIZE
        };
        self.ready_len = clamped;
        self.active_is_pong = !self.active_is_pong;
    }

    /// The valid bytes of the ready half, without a copy; empty before the first
    /// transfer.
    pub fn ready_buffer_from<'a>(
        &self,
        ping: &'a [u8; I2S_FRAME_SIZE],
        pong: &'a [u8; I2S_FRAME_SIZE],
    ) -> (bytes: &'a [u8])
        ensures
            bytes@ == self@.ready_bytes(ping@, pong@),
            bytes@.len() == self@.ready_len,
            self@.ready_len <= I2S_FRAME_SIZE,
    {
        proof {
            use_type_invariant(self);
        }
        let len = self.ready_len;
        match self.ready() {
            PingPong::Ping => slice_subrange(ping.as_slice(), 0, len),
            PingPong::Pong => slice_subrange(pong.as_slice(), 0, len),
        }
    }

    /// The valid bytes of the ready half of `buffers`, without a copy.
    pub fn ready_buffer<'a>(&self, buffers: &'a I2sBuffers) -> (bytes: &'a [u8])
        ensures
            bytes@ == self@.ready_bytes(buffers.ping@, buffers.pong@),
            bytes@.len() == self@.ready_len,
            self@.ready_len <= I2S_FRAME_SIZE,
    {
        self.ready_buffer_from(&buffers.ping, &buffers.pong)
    }
}

/// State of the audio pipeline.
#[derive(Debug, Clone, PartialEq, Eq, Structural)]
pub enum AudioState {
    /// No samples are captured.
    Idle,
    /// Samples are captured into the ping-pong pair.
    Streaming,
}

impl AudioState {
    /// Label for logging.
    pub fn label(&self) -> (label: &'static str)
        ensures
            label@ == (match *self {
                AudioState::Idle => "Idle"@,
                AudioState::Streaming => "Streaming"@,
            }),
    {
        match self {
            AudioState::Idle => "Idle",
            AudioState::Streaming => "Streaming",
        }
    }
}

/// The audio state after a command.
pub open spec fn audio_after(state: AudioState, cmd: Command) -> AudioState {
    match cmd {
        Command::StreamAudio(on) => if on {
            AudioState::Streaming
        } else {
            AudioState::Idle
        },
        _ => state,
    }
}

/// The audio state after a command: [`Command::StreamAudio`] starts or stops the
/// stream, and every other command leaves the state as it is.
pub fn handle_audio_command(state: AudioState, cmd: &Command) -> (next: AudioState)
    ensures
        next == audio_after(state, *cmd),
{
    match cmd {
        Command::StreamAudio(true) => AudioState::Streaming,
        Command::StreamAudio(false) => AudioState::Idle,
        _ => state,
    }
}

/// The DMA engine and the consumer work on different halves, always.
pub proof fn lemma_halves_differ(state: PingPongView)
    ensures
        state.active != state.ready(),
{
}

/// What the DMA engine wrote is what the consumer reads: after a transfer of `len`
/// bytes the ready bytes are the first `len` bytes of the half that was active,
/// or all of it where `len` is larger.
pub proof fn lemma_swap_publishes(state: PingPongView, len: nat, ping: Seq<u8>, pong: Seq<u8>)
    requires
        ping.len() == I2S_FRAME_SIZE,
        pong.len() == I2S_FRAME_SIZE,
    ensures
        ({
            let filled = match state.active {
                PingPong::Ping => ping,
                PingPong::Pong => pong,
            };
            state.swapped(len).ready_bytes(ping, pong) == if len <= I2S_FRAME_SIZE {
                filled.take(len as int)
            } else {
                filled
            }
        }),
{
    assert(ping.take(I2S_FRAME_SIZE as int) =~= ping);
    assert(pong.take(I2S_FRAME_SIZE as int) =~= pong);
}

/// What the DMA engine writes into the active half does not change what the
/// consumer reads.
pub proof fn lemma_writes_do_not_tear(
    state: PingPongView,
    ping: Seq<u8>,
    pong: Seq<u8>,
    written: Seq<u8>,
)
    ensures
        state.active == PingPong::Ping ==> state.ready_bytes(written, pong) == state.ready_bytes(
            ping,
            pong,
        ),
        state.active == PingPong::Pong ==> state.ready_bytes(ping, written) == state.ready_bytes(
            ping,
            pong,
        ),
{
}

/// The state after a run of transfers of these lengths.
pub open spec fn after_swaps(state: PingPongView, lens: Seq<nat>) -> PingPongView
    decreases lens.len(),
{
    if lens.len() == 0 {
        state
    } else {
        after_swaps(state, lens.drop_last()).swapped(lens.last())
    }
}

/// The DMA engine fills the half it started with after an even number of transfers,
/// and the other after an odd number. So from the start it fills Ping exactly after
/// an even number.
pub proof fn lemma_halves_alternate(state: PingPongView, lens: Seq<nat>)
    ensures
        after_swaps(state, lens).active == (if lens.len() % 2 == 0 {
            state.active
        } else {
            other_half(state.active)
        }),
        after_swaps(PingPongView::initial(), lens).active == PingPong::Ping <==> lens.len() % 2 == 0,
    decreases lens.len(),
{
    if lens.len() > 0 {
        lemma_halves_alternate(state, lens.drop_last());
    }
}

/// Nothing is ready before the first transfer.
pub proof fn lemma_nothing_ready_at_start(ping: Seq<u8>, pong: Seq<u8>)
    ensures
        PingPongView::initial().ready_bytes(ping, pong) == Seq::<u8>::empty(),
{
}

/// The audio state after a run of commands.
pub open spec fn audio_after_all(state: AudioState, commands: Seq<Command>) -> AudioState
    decreases commands.len(),
{
    if commands.len() == 0 {
        state
    } else {
        audio_after(audio_after_all(state, commands.drop_last()), commands.last())
    }
}

/// The last [`Command::StreamAudio`] of a run decides the state behind it.
pub proof fn lemma_last_audio_command_decides(
    state: AudioState,
    commands: Seq<Command>,
    k: int,
    on: bool,
)
    requires
        0 <= k < commands.len(),
        commands[k] == Command::StreamAudio(on),
        forall|j: int| k < j < commands.len() ==> !(commands[j] is StreamAudio),
    ensures
        audio_after_all(state, commands) == if on {
            AudioState::Streaming
        } else {
            AudioState::Idle
        },
    decreases commands.len(),
{
    if k < commands.len() - 1 {
        lemma_last_audio_command_decides(state, commands.drop_last(), k, on);
    }
}

/// A run without [`Command::StreamAudio`] leaves the state as it was.
pub proof fn lemma_other_commands_keep_audio(state: AudioState, commands: Seq<Command>)
    requires
        forall|j: int| 0 <= j < commands.len() ==> !(commands[j] is StreamAudio),
    ensures
        audio_after_all(state, commands) == state,
    decreases commands.len(),
{
    if commands.len() > 0 {
        lemma_other_commands_keep_audio(state, commands.drop_last());
    }
}

/// A transfer turns the engine to the other half, and leaves ready what was
/// transferred, up to the size of a half.
pub proof fn lemma_swap_moves_on(state: PingPongView, len: nat)
    ensures
        state.swapped(len).ready() == state.active,
        state.swapped(len).active != state.active,
        len <= 1024 ==> state.swapped(len).ready_len == len,
        len > 1024 ==> state.swapped(len).ready_len == 1024,
{
}

/// The command alone decides: audio on gives a streaming microphone and audio off an
/// idle one, whatever it did before, and no other command changes what it does.
pub proof fn lemma_audio_follows_command(state: AudioState, command: Command)
    ensures
        command == Command::StreamAudio(true) ==> audio_after(state, command) is Streaming,
        command == Command::StreamAudio(false) ==> audio_after(state, command) is Idle,
        audio_after(state, command) != state ==> command is StreamAudio,
{
}

} // verus!
