//! Raw frames on ffmpeg's standard output: the size of each trigger's frame
//! buffer, and the round-robin routing of consecutive frames to the triggers
//! (ffmpeg interleaves its outputs, one frame per mapped output in turn).
use vstd::prelude::*;
use vstd::arithmetic::div_mod::{
    lemma_add_mod_noop, lemma_small_mod, lemma_mod_self_0, lemma_mod_bound,
    lemma_mod_add_multiples_vanish, lemma_fundamental_div_mod,
};

verus! {

/// Bytes per pixel of the raw `rgb24` frames ffmpeg writes.
pub const CHANNELS: u32 = 3;

/// The pixel size of one trigger's cropped output.
pub struct FrameDims {
    pub width: u32,
    pub height: u32,
}

/// The number of bytes of one raw RGB24 frame of `width` x `height` pixels.
pub open spec fn frame_size(width: nat, height: nat) -> nat {
    width * height * 3
}

/// Whether the frame size of `width` x `height` fits in a `u32`, the type in
/// which it is computed.
pub fn frame_size_fits(width: u32, height: u32) -> (r: bool)
    ensures
        r == (frame_size(width as nat, height as nat) <= u32::MAX),
        r == (width * height * 3 <= u32::MAX),
{
    assert((width as u64) * (height as u64) <= u64::MAX) by (nonlinear_arith)
        requires
            width <= u32::MAX,
            height <= u32::MAX,
    ;
    let area: u64 = (width as u64) * (height as u64);
    area <= 1431655765u64
}

/// The number of bytes of one raw RGB24 frame of `width` x `height` pixels.
pub fn frame_buffer_size(width: u32, height: u32) -> (r: usize)
    requires
        frame_size(width as nat, height as nat) <= u32::MAX,
    ensures
        r == frame_size(width as nat, height as nat),
        r == width * height * 3,
{
    assert(width * height <= u32::MAX) by (nonlinear_arith)
        requires
            width * height * 3 <= u32::MAX,
    ;
    let area: u32 = width * height;
    (area * CHANNELS) as usize
}

/// One zeroed frame buffer per trigger, each of that trigger's frame size.
pub fn allocate_frame_buffers(dims: &Vec<FrameDims>) -> (r: Vec<Vec<u8>>)
    requires
        forall|i: int|
            0 <= i < dims.len() ==> frame_size(#[trigger] dims@[i].width as nat, dims@[i].height as nat)
                <= u32::MAX,
    ensures
        r.len() == dims.len(),
        forall|i: int|
            0 <= i < r.len() ==> #[trigger] r@[i]@ == Seq::new(
                frame_size(dims@[i].width as nat, dims@[i].height as nat),
                |k: int| 0u8,
            ),
        forall|i: int| 0 <= i < r.len() ==> #[trigger] r@[i]@.len() == dims@[i].width * dims@[i].height * 3,
{
    let mut buffers: Vec<Vec<u8>> = Vec::new();
    let n = dims.len();
    let mut i: usize = 0;
    while i < n
        invariant
            i <= n,
            n == dims.len(),
            buffers.len() == i,
            forall|j: int|
                0 <= j < dims.len() ==> frame_size(#[trigger] dims@[j].width as nat, dims@[j].height as nat)
                    <= u32::MAX,
            forall|j: int|
                0 <= j < i ==> #[trigger] buffers@[j]@ == Seq::new(
                    frame_size(dims@[j].width as nat, dims@[j].height as nat),
                    |k: int| 0u8,
                ),
        decreases n - i,
    {
        let d = &dims[i];
        let size = frame_buffer_size(d.width, d.height);
        let buf: Vec<u8> = vec![0u8; size];
        assert(buf@ =~= Seq::new(size as nat, |k: int| 0u8));
        buffers.push(buf);
        i = i + 1;
    }
    buffers
}

/// What the reader of ffmpeg's standard output observed when it tried to fill
/// the current buffer: a whole frame, or the end of the stream (or an error).
pub enum ReadOutcome {
    Filled,
    Closed,
}

/// What to do next: hand the frame in the given buffer to the trigger with
/// the same index, or stop reading.
#[derive(PartialEq, Eq, Structural)]
pub enum RouterAction {
    Dispatch(usize),
    Stop,
}

/// The output (and trigger) that the `k`-th frame read belongs to, when there
/// are `n` outputs.
pub open spec fn frame_output(k: nat, n: nat) -> nat {
    k % n
}

/// Round-robin state of the reader of ffmpeg's standard output: which buffer
/// the next frame goes into.
pub struct FrameRouter {
    outputs: usize,
    next: usize,
    routed: Ghost<nat>,
}

/// `(f + 1) % n` in terms of `f % n`.
proof fn lemma_mod_successor(f: nat, n: nat)
    requires
        n > 0,
    ensures
        (f + 1) % n == if f % n + 1 == n { 0 } else { f % n + 1 },
{
    lemma_mod_bound(f as int, n as int);
    lemma_mod_bound((f + 1) as int, n as int);
    if n == 1 {
    } else {
        lemma_add_mod_noop(f as int, 1, n as int);
        lemma_small_mod(1, n);
        if f % n + 1 < n {
            lemma_small_mod((f % n + 1) as nat, n);
        } else {
            lemma_mod_self_0(n as int);
        }
    }
}

impl FrameRouter {
    #[verifier::type_invariant]
    spec fn inv(self) -> bool {
        &&& self.outputs > 0
        &&& self.next == self.routed@ % (self.outputs as nat)
    }

    /// The number of outputs (triggers) frames are routed to.
    pub closed spec fn outputs(&self) -> nat {
        self.outputs as nat
    }

    /// The number of frames routed so far.
    pub closed spec fn routed(&self) -> nat {
        self.routed@
    }

    /// A router over `outputs` outputs that has routed no frame yet.
    pub fn new(outputs: usize) -> (r: Self)
        requires
            outputs > 0,
        ensures
            r.outputs() == outputs,
            r.routed() == 0,
    {
        proof {
            lemma_small_mod(0, outputs as nat);
        }
        FrameRouter { outputs, next: 0, routed: Ghost(0) }
    }

    /// The buffer (and trigger) the next frame read belongs to.
    pub fn current_slot(&self) -> (r: usize)
        ensures
            r == frame_output(self.routed(), self.outputs()),
            r == self.routed() % self.outputs(),
            r < self.outputs(),
    {
        proof {
            use_type_invariant(self);
            lemma_mod_bound(self.routed@ as int, self.outputs as int);
        }
        self.next
    }

    /// Takes in what the last read gave: a full frame goes to the output of
    /// its position in the stream, and the end of the stream stops the reader.
    pub fn on_read(&mut self, outcome: ReadOutcome) -> (r: RouterAction)
        ensures
            final(self).outputs() == old(self).outputs(),
            match outcome {
                ReadOutcome::Filled => {
                    &&& r == RouterAction::Dispatch(
                        frame_output(old(self).routed(), old(self).outputs()) as usize,
                    )
                    &&& r == RouterAction::Dispatch(
                        (old(self).routed() % old(self).outputs()) as usize,
                    )
                    &&& final(self).routed() == old(self).routed() + 1
                },
                ReadOutcome::Closed => {
                    &&& r == RouterAction::Stop
                    &&& final(self).routed() == old(self).routed()
                },
            },
    {
        proof {
            use_type_invariant(&*self);
            lemma_mod_bound(self.routed@ as int, self.outputs as int);
        }
        match outcome {
            ReadOutcome::Filled => {
                let slot = self.next;
                proof {
                    lemma_mod_successor(self.routed@, self.outputs as nat);
                }
                let next = if slot + 1 == self.outputs {
                    0
                } else {
                    slot + 1
                };
                let ghost routed = self.routed@ + 1;
                *self = FrameRouter { outputs: self.outputs, next, routed: Ghost(routed) };
                RouterAction::Dispatch(slot)
            },
            ReadOutcome::Closed => RouterAction::Stop,
        }
    }
}

/// A frame buffer holds three bytes (`CHANNELS`) per pixel, for every width
/// and height.
pub proof fn lemma_frame_size_is_three_bytes_per_pixel(width: nat, height: nat)
    ensures
        frame_size(width, height) == width * height * 3,
        frame_size(width, height) == width * height * (CHANNELS as nat),
        CHANNELS == 3,
{
}

/// The `k`-th frame read (counting from zero) goes to output `k mod n`: the
/// first frame goes to output 0, and each next frame to the next output,
/// wrapping around after the last.
pub proof fn lemma_frame_output_is_position_mod_outputs(k: nat, n: nat)
    requires
        n > 0,
    ensures
        frame_output(k, n) == k % n,
        frame_output(0, n) == 0,
        frame_output(k + 1, n) == if k % n + 1 == n { 0 } else { k % n + 1 },
{
    lemma_small_mod(0, n);
    lemma_mod_successor(k, n);
}

/// Whether one of the `n` frames from `start` on goes to output `j`.
pub open spec fn round_reaches(start: nat, n: nat, j: nat) -> bool {
    exists|k: nat| start <= k < start + n && #[trigger] frame_output(k, n) == j
}

/// Round-robin routing: frame `k + n` goes to the same output as frame `k`,
/// any `n` consecutive frames go to `n` different outputs, and every output
/// receives one of them.
pub proof fn lemma_round_robin(start: nat, n: nat)
    requires
        n > 0,
    ensures
        frame_output(start + n, n) == frame_output(start, n),
        forall|k1: nat, k2: nat|
            start <= k1 < k2 < start + n ==> frame_output(k1, n) != frame_output(k2, n),
        forall|j: nat| j < n ==> #[trigger] round_reaches(start, n, j),
{
    lemma_mod_add_multiples_vanish(start as int, n as int);
    assert forall|k1: nat, k2: nat|
        start <= k1 < k2 < start + n implies frame_output(k1, n) != frame_output(k2, n) by {
        lemma_fundamental_div_mod(k1 as int, n as int);
        lemma_fundamental_div_mod(k2 as int, n as int);
        lemma_mod_bound(k1 as int, n as int);
        lemma_mod_bound(k2 as int, n as int);
        if k1 % n == k2 % n {
            let q1 = k1 as int / n as int;
            let q2 = k2 as int / n as int;
            let r = k1 as int % n as int;
            assert(false) by (nonlinear_arith)
                requires
                    k1 == n * q1 + r,
                    k2 == n * q2 + r,
                    0 < k2 - k1 < n,
            ;
        }
    }
    assert forall|j: nat| j < n implies #[trigger] round_reaches(start, n, j) by {
        let r = start % n;
        lemma_mod_bound(start as int, n as int);
        let d = (j + n - r) % (n as int);
        lemma_mod_bound(j + n - r, n as int);
        let k = (start + d) as nat;
        lemma_add_mod_noop(start as int, d, n as int);
        lemma_add_mod_noop(r as int, j + n - r, n as int);
        lemma_small_mod(r, n);
        lemma_mod_add_multiples_vanish(j as int, n as int);
        lemma_small_mod(j, n);
        lemma_mod_bound(d, n as int);
        lemma_small_mod(d as nat, n);
        assert(frame_output(k, n) == j);
    }
}

} // verus!
