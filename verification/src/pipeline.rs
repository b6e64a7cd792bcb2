//! The pipeline's own types: a sampled frame, the trigger interface that user
//! code implements, the colour threshold filter settings, and the builder
//! that collects the pipeline's settings and triggers.
use vstd::prelude::*;
use vstd::string::*;
use crate::command::{
    full_frame_command, FfmpegCommand, string_views, ffmpeg_arg_list, full_frame_graph,
};

verus! {

/// A single frame of the input: its raw pixels and the place where it
/// appears in the input (frame number and timestamp).
#[derive(Clone)]
pub struct Frame {
    pub width: u64,
    pub height: u64,
    pub image: Vec<u8>,
    pub frame_num: u64,
    pub timestamp: u64,
}

/// The time, in milliseconds from the start of the input, of the
/// `frame_num`-th frame (counting from zero) sampled at `fps` frames per
/// second, rounded down and capped at `u64::MAX`.
pub open spec fn frame_time_ms(frame_num: nat, fps: nat) -> nat {
    let t = frame_num * 1000 / fps;
    if t > u64::MAX {
        u64::MAX as nat
    } else {
        t
    }
}

/// A frame's timestamp is its position in milliseconds, `k * 1000 / fps`
/// rounded down: the largest `t` with `t * fps <= k * 1000`, unless that
/// exceeds `u64::MAX`, where it stays at `u64::MAX`.
pub proof fn lemma_frame_time_is_milliseconds(k: nat, fps: nat)
    requires
        fps > 0,
    ensures
        frame_time_ms(k, fps) <= u64::MAX,
        k * 1000 < (u64::MAX + 1) * fps ==> frame_time_ms(k, fps) * fps <= k * 1000 < (frame_time_ms(k, fps)
            + 1) * fps,
        k * 1000 >= (u64::MAX + 1) * fps ==> frame_time_ms(k, fps) == u64::MAX,
{
    let x = k * 1000;
    let t = x / fps;
    vstd::arithmetic::div_mod::lemma_fundamental_div_mod(x as int, fps as int);
    vstd::arithmetic::div_mod::lemma_mod_bound(x as int, fps as int);
    let r = x % fps;
    if x < (u64::MAX + 1) * fps {
        assert(t <= u64::MAX) by (nonlinear_arith)
            requires
                x == fps * t + r,
                0 <= r,
                x < (u64::MAX + 1) * fps,
                fps > 0,
        ;
        assert(t * fps <= x < (t + 1) * fps) by (nonlinear_arith)
            requires
                x == fps * t + r,
                0 <= r < fps,
        ;
    } else {
        assert(t > u64::MAX) by (nonlinear_arith)
            requires
                x == fps * t + r,
                r < fps,
                x >= (u64::MAX + 1) * fps,
                fps > 0,
        ;
    }
}

/// Later frames never get earlier timestamps.
pub proof fn lemma_frame_times_ordered(a: nat, b: nat, fps: nat)
    requires
        a <= b,
        fps > 0,
    ensures
        frame_time_ms(a, fps) <= frame_time_ms(b, fps),
{
    assert(a * 1000 / fps <= b * 1000 / fps) by (nonlinear_arith)
        requires
            a <= b,
            fps > 0,
    ;
}

impl Frame {
    /// The `frame_num`-th frame (counting from zero) of an input sampled at
    /// `fps` frames per second, with its pixels.
    pub fn sampled(width: u32, height: u32, image: Vec<u8>, frame_num: u64, fps: u64) -> (r: Frame)
        requires
            fps > 0,
        ensures
            r.width == width,
            r.height == height,
            r.image == image,
            r.frame_num == frame_num,
            r.timestamp == frame_time_ms(frame_num as nat, fps as nat),
    {
        assert((frame_num as u128) * 1000 <= u128::MAX) by (nonlinear_arith)
            requires
                frame_num <= u64::MAX,
        ;
        let t: u128 = (frame_num as u128) * 1000u128 / (fps as u128);
        let timestamp: u64 = if t > 18446744073709551615u128 {
            18446744073709551615u64
        } else {
            t as u64
        };
        Frame { width: width as u64, height: height as u64, image, frame_num, timestamp }
    }
}

/// A callback run on each sampled frame of the input.
pub trait Trigger {
    fn on_frame(&self, frame: Frame) -> Result<(), String>;
}

/// Settings of a colour threshold filter: the reference colour (`r`, `g`,
/// `b`) and the threshold.
pub struct ThresholdFilter {
    pub r: u8,
    pub g: u8,
    pub b: u8,
    pub threshold: u8,
}

/// The pipeline builder: which ffmpeg to run, on which input, at which sample
/// rate, and the triggers to run on each sampled frame.
pub struct Hypetrigger {
    /// Path to the ffmpeg binary, or the command to use.
    pub ffmpeg_exe: String,
    /// Path to the input video (or image) for ffmpeg.
    pub input: String,
    /// Frames per second at which the input is sampled.
    pub fps: u64,
    /// The callbacks run on each frame of the input.
    pub triggers: Vec<Box<dyn Trigger>>,
}

impl Hypetrigger {
    /// A pipeline with no ffmpeg path, no input, a sample rate of zero and no
    /// triggers.
    pub fn new() -> (r: Self)
        ensures
            r.ffmpeg_exe@ == Seq::<char>::empty(),
            r.input@ == Seq::<char>::empty(),
            r.fps == 0,
            r.triggers@ == Seq::<Box<dyn Trigger>>::empty(),
    {
        Hypetrigger { ffmpeg_exe: String::new(), input: String::new(), fps: 0, triggers: Vec::new() }
    }

    /// Sets the ffmpeg binary or command to use; nothing else changes.
    pub fn set_ffmpeg_exe(&mut self, ffmpeg_exe: String) -> (r: &mut Self)
        ensures
            r.ffmpeg_exe == ffmpeg_exe,
            r.input == old(self).input,
            r.fps == old(self).fps,
            r.triggers == old(self).triggers,
            *final(self) == *final(r),
    {
        self.ffmpeg_exe = ffmpeg_exe;
        self
    }

    /// Sets the input video (or image); nothing else changes.
    pub fn set_input(&mut self, input: String) -> (r: &mut Self)
        ensures
            r.input == input,
            r.ffmpeg_exe == old(self).ffmpeg_exe,
            r.fps == old(self).fps,
            r.triggers == old(self).triggers,
            *final(self) == *final(r),
    {
        self.input = input;
        self
    }

    /// Sets the sample rate in frames per second; nothing else changes.
    pub fn set_fps(&mut self, fps: u64) -> (r: &mut Self)
        ensures
            r.fps == fps,
            r.ffmpeg_exe == old(self).ffmpeg_exe,
            r.input == old(self).input,
            r.triggers == old(self).triggers,
            *final(self) == *final(r),
    {
        self.fps = fps;
        self
    }

    /// Adds a trigger after those already added; nothing else changes.
    pub fn add_trigger(&mut self, trigger: Box<dyn Trigger>) -> (r: &mut Self)
        ensures
            r.triggers@ == old(self).triggers@.push(trigger),
            r.ffmpeg_exe == old(self).ffmpeg_exe,
            r.input == old(self).input,
            r.fps == old(self).fps,
            *final(self) == *final(r),
    {
        self.triggers.push(trigger);
        self
    }

    /// The ffmpeg command that samples the whole frame of the input at the
    /// set rate and writes raw RGB24 frames to standard output. A sample rate
    /// of zero is refused.
    pub fn ffmpeg_command(&self) -> (r: Result<FfmpegCommand, String>)
        ensures
            self.fps == 0 <==> r is Err,
            r matches Err(e) ==> e@ == "fps must be greater than zero"@,
            r matches Ok(c) ==> c.program@ == self.ffmpeg_exe@ && string_views(c.args@)
                == ffmpeg_arg_list(self.input@, full_frame_graph(self.fps as nat), 1),
    {
        if self.fps == 0 {
            return Err(String::from_str("fps must be greater than zero"));
        }
        Ok(full_frame_command(self.ffmpeg_exe.as_str(), self.input.as_str(), self.fps))
    }
}

impl Default for Hypetrigger {
    fn default() -> (r: Self)
        ensures
            r.ffmpeg_exe@ == Seq::<char>::empty(),
            r.input@ == Seq::<char>::empty(),
            r.fps == 0,
            r.triggers@ == Seq::<Box<dyn Trigger>>::empty(),
    {
        Hypetrigger::new()
    }
}

} // verus!
