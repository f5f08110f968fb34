//! Camera: the DMA ring of JPEG frames and the camera state.
//!
//! The sensor compresses its frames itself, so the CPU only tracks which slot of
//! the ring holds the newest frame. The two slots form a double buffer: the DMA
//! engine fills one while the network task streams the other.
use crate::ipc::Command;
use vstd::prelude::*;
use vstd::slice::slice_subrange;

verus! {

/// Largest size of a JPEG frame in bytes.
pub const JPEG_FRAME_SIZE: usize = 16_384;

/// Number of frame slots in the ring.
pub const DMA_RING_DEPTH: usize = 2;

/// The frame slots.
pub struct JpegRing {
    pub slots: [[u8; JPEG_FRAME_SIZE]; DMA_RING_DEPTH],
}

impl JpegRing {
    /// All slots zeroed.
    pub fn new() -> (ring: JpegRing)
        ensures
            forall|slot: int|
                0 <= slot < DMA_RING_DEPTH ==> #[trigger] ring.slots@[slot]@ == Seq::new(
                    JPEG_FRAME_SIZE as nat,
                    |i: int| 0u8,
                ),
    {
        let slot: [u8; JPEG_FRAME_SIZE] = [0; JPEG_FRAME_SIZE];
        assert(slot@ =~= Seq::new(JPEG_FRAME_SIZE as nat, |i: int| 0u8));
        JpegRing { slots: [slot; DMA_RING_DEPTH] }
    }
}

/// Tracks which slot the DMA engine writes next and how many bytes of each slot are
/// valid.
pub struct DmaRingBuffer {
    write_slot: usize,
    frame_lens: [usize; DMA_RING_DEPTH],
}

/// The content of a [`DmaRingBuffer`].
#[verifier::ext_equal]
pub struct RingView {
    /// The slot that the DMA engine writes next.
    pub write_slot: nat,
    /// The number of valid bytes in each slot.
    pub lens: Seq<usize>,
}

impl View for DmaRingBuffer {
    type V = RingView;

    closed spec fn view(&self) -> RingView {
        RingView { write_slot: self.write_slot as nat, lens: self.frame_lens@ }
    }
}

impl RingView {
    /// The slot and the lengths are within the ring.
    pub open spec fn fits_ring(self) -> bool {
        &&& self.write_slot < DMA_RING_DEPTH
        &&& self.lens.len() == DMA_RING_DEPTH
        &&& forall|i: int| 0 <= i < DMA_RING_DEPTH ==> self.lens[i] <= JPEG_FRAME_SIZE
    }

    /// No slot holds a frame, and the first slot is written next.
    pub open spec fn initial() -> RingView {
        RingView { write_slot: 0, lens: Seq::new(DMA_RING_DEPTH as nat, |i: int| 0usize) }
    }

    /// The slot of the newest frame: the one before the slot written next.
    pub open spec fn read_slot(self) -> int {
        (self.write_slot + DMA_RING_DEPTH - 1) % (DMA_RING_DEPTH as int)
    }

    /// The ring after slot `slot` got a frame of `len` bytes, clamped to the size
    /// of a slot.
    pub open spec fn marked(self, slot: usize, len: usize) -> RingView {
        let at = slot as int % DMA_RING_DEPTH as int;
        RingView {
            write_slot: ((at + 1) % (DMA_RING_DEPTH as int)) as nat,
            lens: self.lens.update(
                at,
                if len <= JPEG_FRAME_SIZE {
                    len
                } else {
                    JPEG_FRAME_SIZE
                },
            ),
        }
    }

    /// The valid bytes of the newest frame.
    pub open spec fn frame(self, slots: Seq<[u8; JPEG_FRAME_SIZE]>) -> Seq<u8> {
        slots[self.read_slot()]@.take(self.lens[self.read_slot()] as int)
    }
}

impl Default for DmaRingBuffer {
    fn default() -> (ring: DmaRingBuffer)
        ensures
            ring@ == RingView::initial(),
    {
        DmaRingBuffer::new()
    }
}

impl DmaRingBuffer {
    #[verifier::type_invariant]
    spec fn well_formed(self) -> bool {
        self@.fits_ring()
    }

    /// No slot holds a frame, and the first slot is written next.
    pub fn new() -> (ring: DmaRingBuffer)
        ensures
            ring@ == RingView::initial(),
    {
        let ring = DmaRingBuffer { write_slot: 0, frame_lens: [0; DMA_RING_DEPTH] };
        assert(ring@ =~= RingView::initial());
        ring
    }

    /// Called when the DMA engine has filled `len` bytes of slot `slot`, counted
    /// around the ring: that slot holds the newest frame, and the next is written
    /// next.
    ///
    /// `len` is clamped to [`JPEG_FRAME_SIZE`].
    pub fn mark_frame_ready(&mut self, slot: usize, len: usize)
        ensures
            old(self)@.fits_ring(),
            final(self)@ == old(self)@.marked(slot, len),
            final(self)@.fits_ring(),
    {
        proof {
            use_type_invariant(&*self);
        }
        let clamped = if len <= JPEG_FRAME_SIZE {
            len
        } else {
            JPEG_FRAME_SIZE
        };
        let slot_idx = slot % DMA_RING_DEPTH;
        self.frame_lens[slot_idx] = clamped;
        self.write_slot = (slot_idx + 1) % DMA_RING_DEPTH;
    }

    /// The slot that holds the newest frame.
    ///
    /// Before the first frame this is the last slot, whose length is zero.
    pub fn current_read_slot(&self) -> (slot: usize)
        ensures
            slot == self@.read_slot(),
            self@.fits_ring(),
    {
        proof {
            use_type_invariant(self);
        }
        (self.write_slot + DMA_RING_DEPTH - 1) % DMA_RING_DEPTH
    }

    /// The number of valid bytes of the newest frame; `0` before the first one.
    pub fn current_frame_len(&self) -> (len: usize)
        ensures
            len == self@.lens[self@.read_slot()],
            len <= JPEG_FRAME_SIZE,
            self@.fits_ring(),
    {
        let slot = self.current_read_slot();
        self.frame_lens[slot]
    }

    /// The newest frame in `ring`, without a copy; empty before the first one.
    pub fn current_frame_from<'a>(&self, ring: &'a [[u8; JPEG_FRAME_SIZE]; DMA_RING_DEPTH]) -> (frame:
        &'a [u8])
        ensures
            frame@ == self@.frame(ring@),
            frame@.len() == self@.lens[self@.read_slot()],
            self@.fits_ring(),
    {
        let slot = self.current_read_slot();
        let len = self.frame_lens[slot];
        slice_subrange(ring[slot].as_slice(), 0, len)
    }

    /// The newest frame in `ring`, without a copy.
    pub fn current_frame<'a>(&self, ring: &'a JpegRing) -> (frame: &'a [u8])
        ensures
            frame@ == self@.frame(ring.slots@),
            frame@.len() == self@.lens[self@.read_slot()],
            self@.fits_ring(),
    {
        self.current_frame_from(&ring.slots)
    }
}

/// State of the camera pipeline.
#[derive(Debug, Clone, PartialEq, Eq, Structural)]
pub enum CameraState {
    /// The camera is configured but does not stream.
    Idle,
    /// Frames are captured into the ring.
    Streaming,
}

impl CameraState {
    /// Label for logging.
    pub fn label(&self) -> (label: &'static str)
        ensures
            label@ == (match *self {
                CameraState::Idle => "Idle"@,
                CameraState::Streaming => "Streaming"@,
            }),
    {
        match self {
            CameraState::Idle => "Idle",
            CameraState::Streaming => "Streaming",
        }
    }
}

/// The camera state after a command.
pub open spec fn camera_after(state: CameraState, cmd: Command) -> CameraState {
    match cmd {
        Command::StreamVideo(on) => if on {
            CameraState::Streaming
        } else {
            CameraState::Idle
        },
        _ => state,
    }
}

/// The camera state after a command: [`Command::StreamVideo`] starts or stops the
/// stream, and every other command leaves the state as it is.
pub fn handle_camera_command(state: CameraState, cmd: &Command) -> (next: CameraState)
    ensures
        next == camera_after(state, *cmd),
{
    match cmd {
        Command::StreamVideo(true) => CameraState::Streaming,
        Command::StreamVideo(false) => CameraState::Idle,
        _ => state,
    }
}

/// The slot that the consumer reads is never the one that the DMA engine writes.
pub proof fn lemma_slots_differ(ring: RingView)
    requires
        ring.fits_ring(),
    ensures
        ring.read_slot() != ring.write_slot,
        0 <= ring.read_slot() < DMA_RING_DEPTH,
{
}

/// What the DMA engine wrote is what the consumer reads: after slot `slot` was
/// marked with `len` bytes, the newest frame is the first `len` bytes of that
/// slot, or all of it where `len` is larger.
pub proof fn lemma_mark_publishes(
    ring: RingView,
    slot: usize,
    len: usize,
    slots: Seq<[u8; JPEG_FRAME_SIZE]>,
)
    requires
        ring.fits_ring(),
        slots.len() == DMA_RING_DEPTH,
    ensures
        ({
            let filled = slots[slot as int % DMA_RING_DEPTH as int]@;
            ring.marked(slot, len).frame(slots) == if len <= JPEG_FRAME_SIZE {
                filled.take(len as int)
            } else {
                filled
            }
        }),
{
    let filled = slots[slot as int % DMA_RING_DEPTH as int]@;
    assert(filled.take(JPEG_FRAME_SIZE as int) =~= filled);
}

/// What the DMA engine writes into its slot does not change the newest frame.
pub proof fn lemma_slot_writes_do_not_tear(
    ring: RingView,
    slots: Seq<[u8; JPEG_FRAME_SIZE]>,
    written: [u8; JPEG_FRAME_SIZE],
)
    requires
        ring.fits_ring(),
        slots.len() == DMA_RING_DEPTH,
    ensures
        ring.frame(slots.update(ring.write_slot as int, written)) == ring.frame(slots),
{
}

/// Marking one slot keeps the length of the other.
pub proof fn lemma_mark_keeps_other_slots(ring: RingView, slot: usize, len: usize, other: int)
    requires
        ring.fits_ring(),
        0 <= other < DMA_RING_DEPTH,
        other != slot as int % DMA_RING_DEPTH as int,
    ensures
        ring.marked(slot, len).lens[other] == ring.lens[other],
        ring.marked(slot, len).fits_ring(),
{
}

/// There is no frame before the first one is marked.
pub proof fn lemma_no_frame_at_start(slots: Seq<[u8; JPEG_FRAME_SIZE]>)
    ensures
        RingView::initial().frame(slots) == Seq::<u8>::empty(),
        RingView::initial().fits_ring(),
{
}

/// The camera state after a run of commands.
pub open spec fn camera_after_all(state: CameraState, commands: Seq<Command>) -> CameraState
    decreases commands.len(),
{
    if commands.len() == 0 {
        state
    } else {
        camera_after(camera_after_all(state, commands.drop_last()), commands.last())
    }
}

/// The last [`Command::StreamVideo`] of a run decides the state behind it.
pub proof fn lemma_last_video_command_decides(
    state: CameraState,
    commands: Seq<Command>,
    k: int,
    on: bool,
)
    requires
        0 <= k < commands.len(),
        commands[k] == Command::StreamVideo(on),
        forall|j: int| k < j < commands.len() ==> !(commands[j] is StreamVideo),
    ensures
        camera_after_all(state, commands) == if on {
            CameraState::Streaming
        } else {
            CameraState::Idle
        },
    decreases commands.len(),
{
    if k < commands.len() - 1 {
        lemma_last_video_command_decides(state, commands.drop_last(), k, on);
    }
}

/// A run without [`Command::StreamVideo`] leaves the state as it was.
pub proof fn lemma_other_commands_keep_camera(state: CameraState, commands: Seq<Command>)
    requires
        forall|j: int| 0 <= j < commands.len() ==> !(commands[j] is StreamVideo),
    ensures
        camera_after_all(state, commands) == state,
    decreases commands.len(),
{
    if commands.len() > 0 {
        lemma_other_commands_keep_camera(state, commands.drop_last());
    }
}

/// The slot that was marked is the one read next, with the length it was marked with
/// up to the size of a slot, and the slot behind it is the one written next.
pub proof fn lemma_mark_moves_on(ring: RingView, slot: usize, len: usize)
    requires
        ring.fits_ring(),
    ensures
        ({
            let next = ring.marked(slot, len);
            &&& next.read_slot() == slot as int % 2
            &&& next.write_slot == (slot + 1) % 2
            &&& len <= 16_384 ==> next.lens[slot as int % 2] == len
            &&& len > 16_384 ==> next.lens[slot as int % 2] == 16_384
        }),
{
}

/// At the start the first slot is written, the last one read, and no slot holds a
/// frame.
pub proof fn lemma_ring_at_start(slot: int)
    requires
        0 <= slot < DMA_RING_DEPTH,
    ensures
        RingView::initial().write_slot == 0,
        RingView::initial().read_slot() == DMA_RING_DEPTH - 1,
        RingView::initial().lens[slot] == 0,
{
}

/// The command alone decides: video on gives a streaming camera and video off an idle
/// one, whatever it did before, and no other command changes what it does.
pub proof fn lemma_camera_follows_command(state: CameraState, command: Command)
    ensures
        command == Command::StreamVideo(true) ==> camera_after(state, command) is Streaming,
        command == Command::StreamVideo(false) ==> camera_after(state, command) is Idle,
        camera_after(state, command) != state ==> command is StreamVideo,
{
}

} // verus!
