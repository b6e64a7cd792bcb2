//! The ffmpeg command line: the filter graph that samples the input at a fixed
//! rate, splits it once per trigger and crops each branch, and the argument
//! list that maps each cropped branch to raw RGB24 output on standard output.
use vstd::prelude::*;
use vstd::string::*;
use crate::text::{decimal, push_decimal};

verus! {

/// The crop rectangle of one trigger, as fractions of the input frame (each
/// already rendered in decimal notation): `width` and `height` are the size of
/// the rectangle, `x` and `y` the position of its top-left corner.
pub struct CropFractions {
    pub width: String,
    pub height: String,
    pub x: String,
    pub y: String,
}

/// `[<name><i>]`, the label of the `i`-th stream named `name` in the graph.
pub open spec fn stream_label(name: Seq<char>, i: nat) -> Seq<char> {
    "["@ + name + decimal(i) + "]"@
}

/// Different streams of one name get different labels, so each `-map` picks
/// out exactly the crop branch of its trigger.
pub proof fn lemma_labels_distinct(name: Seq<char>, i: nat, j: nat)
    requires
        i != j,
    ensures
        stream_label(name, i) != stream_label(name, j),
{
    if stream_label(name, i) == stream_label(name, j) {
        reveal_strlit("[");
        reveal_strlit("]");
        let li = stream_label(name, i);
        let lj = stream_label(name, j);
        let start = name.len() + 1;
        assert(li.subrange(start as int, li.len() - 1) =~= decimal(i));
        assert(lj.subrange(start as int, lj.len() - 1) =~= decimal(j));
        crate::text::lemma_decimal_injective(i, j);
    }
}

/// The labels `[in0][in1]...[in<k-1>]` of the split outputs.
pub open spec fn split_labels(k: nat) -> Seq<char>
    decreases k,
{
    if k == 0 {
        Seq::empty()
    } else {
        split_labels((k - 1) as nat) + stream_label("in"@, (k - 1) as nat)
    }
}

/// The branch of the graph that crops the `i`-th split output:
/// `[in<i>]crop=round(in_w*<w>):round(in_h*<h>):round(in_w*<x>):round(in_h*<y>)[out<i>]`.
pub open spec fn crop_branch(i: nat, c: CropFractions) -> Seq<char> {
    crop_branch_of(i, c.width@, c.height@, c.x@, c.y@)
}

/// The crop branch of the `i`-th split output for a rectangle given by the
/// decimal fractions `w`, `h`, `x`, `y`.
pub open spec fn crop_branch_of(i: nat, w: Seq<char>, h: Seq<char>, x: Seq<char>, y: Seq<char>) -> Seq<char> {
    stream_label("in"@, i) + "crop=round(in_w*"@ + w + "):round(in_h*"@ + h + "):round(in_w*"@ + x
        + "):round(in_h*"@ + y + ")"@ + stream_label("out"@, i)
}

/// The branches for the first `k` crops, separated by `;`.
pub open spec fn crop_branches(crops: Seq<CropFractions>, k: nat) -> Seq<char>
    decreases k,
{
    if k == 0 {
        Seq::empty()
    } else if k == 1 {
        crop_branch(0, crops[0])
    } else {
        crop_branches(crops, (k - 1) as nat) + ";"@ + crop_branch((k - 1) as nat, crops[k - 1])
    }
}

/// The complete filter graph for sampling at `fps` frames per second with one
/// cropped output per entry of `crops`.
pub open spec fn filter_graph(fps: nat, crops: Seq<CropFractions>) -> Seq<char> {
    "[0:v]fps="@ + decimal(fps) + ",split="@ + decimal(crops.len()) + split_labels(crops.len())
        + ";"@ + crop_branches(crops, crops.len())
}

/// Appends `[<name><i>]`.
fn push_label(s: &mut String, name: &str, i: u64)
    ensures
        final(s)@ == old(s)@ + stream_label(name@, i as nat),
{
    s.append("[");
    s.append(name);
    push_decimal(s, i);
    s.append("]");
    assert(final(s)@ =~= old(s)@ + stream_label(name@, i as nat));
}

/// Appends the crop branch of the `i`-th trigger.
fn push_crop_branch(s: &mut String, i: u64, c: &CropFractions)
    ensures
        final(s)@ == old(s)@ + crop_branch(i as nat, *c),
{
    let ghost s0 = s@;
    push_label(s, "in", i);
    s.append("crop=round(in_w*");
    s.append(c.width.as_str());
    s.append("):round(in_h*");
    s.append(c.height.as_str());
    s.append("):round(in_w*");
    s.append(c.x.as_str());
    s.append("):round(in_h*");
    s.append(c.y.as_str());
    s.append(")");
    push_label(s, "out", i);
    assert(s@ =~= s0 + crop_branch(i as nat, *c));
}

/// Builds the `-filter_complex` graph: sample the first video stream at
/// `samples_per_second` frames per second, split it once per crop, and crop
/// each branch to its rectangle.
pub fn filter_complex(samples_per_second: u64, crops: &Vec<CropFractions>) -> (r: String)
    ensures
        r@ == filter_graph(samples_per_second as nat, crops@),
{
    let n = crops.len();
    let mut s = String::from_str("[0:v]fps=");
    push_decimal(&mut s, samples_per_second);
    s.append(",split=");
    push_decimal(&mut s, n as u64);
    let ghost head = s@;
    let mut i: usize = 0;
    while i < n
        invariant
            i <= n,
            n == crops.len(),
            s@ == head + split_labels(i as nat),
        decreases n - i,
    {
        push_label(&mut s, "in", i as u64);
        i = i + 1;
        assert(s@ =~= head + split_labels(i as nat));
    }
    s.append(";");
    let ghost head2 = s@;
    assert(s@ =~= head2 + crop_branches(crops@, 0));
    let mut j: usize = 0;
    while j < n
        invariant
            j <= n,
            n == crops.len(),
            s@ == head2 + crop_branches(crops@, j as nat),
        decreases n - j,
    {
        if j > 0 {
            s.append(";");
        }
        push_crop_branch(&mut s, j as u64, &crops[j]);
        j = j + 1;
        assert(s@ =~= head2 + crop_branches(crops@, j as nat));
    }
    assert(s@ =~= filter_graph(samples_per_second as nat, crops@));
    s
}

/// The views of a list of strings.
pub open spec fn string_views(v: Seq<String>) -> Seq<Seq<char>> {
    v.map_values(|a: String| a@)
}

/// `-map [out0] -map [out1] ... -map [out<k-1>]`: one output per crop branch.
pub open spec fn map_args(k: nat) -> Seq<Seq<char>>
    decreases k,
{
    if k == 0 {
        Seq::empty()
    } else {
        map_args((k - 1) as nat) + seq!["-map"@, stream_label("out"@, (k - 1) as nat)]
    }
}

/// The arguments given to ffmpeg (after the program name): decode `input`
/// with automatic hardware acceleration, run `filter` over it, map each of the
/// `outputs` crop branches, and write them as raw RGB24 video without audio
/// to standard output.
pub open spec fn ffmpeg_arg_list(input: Seq<char>, filter: Seq<char>, outputs: nat) -> Seq<Seq<char>> {
    seq!["-hwaccel"@, "auto"@, "-i"@, input, "-filter_complex"@, filter]
        + map_args(outputs)
        + seq!["-vsync"@, "drop"@, "-f"@, "rawvideo"@, "-pix_fmt"@, "rgb24"@, "-an"@, "-y"@, "pipe:1"@]
}

/// Appends one argument.
fn push_arg(args: &mut Vec<String>, a: String)
    ensures
        string_views(final(args)@) == string_views(old(args)@).push(a@),
{
    args.push(a);
    assert(string_views(args@) =~= string_views(old(args)@).push(a@));
}

/// Appends one argument given as a literal.
fn push_str_arg(args: &mut Vec<String>, a: &str)
    ensures
        string_views(final(args)@) == string_views(old(args)@).push(a@),
{
    push_arg(args, String::from_str(a));
}

/// The full argument list for ffmpeg reading `input`, sampled at
/// `samples_per_second` frames per second and cropped once per entry of
/// `crops`.
pub fn ffmpeg_arguments(input: &str, samples_per_second: u64, crops: &Vec<CropFractions>) -> (r: Vec<String>)
    ensures
        string_views(r@) == ffmpeg_arg_list(input@, filter_graph(samples_per_second as nat, crops@), crops.len() as nat),
{
    let filter = filter_complex(samples_per_second, crops);
    let ghost filter_view = filter@;
    let mut args: Vec<String> = Vec::new();
    assert(string_views(args@) =~= Seq::empty());
    push_str_arg(&mut args, "-hwaccel");
    push_str_arg(&mut args, "auto");
    push_str_arg(&mut args, "-i");
    push_str_arg(&mut args, input);
    push_str_arg(&mut args, "-filter_complex");
    push_arg(&mut args, filter);
    let ghost head = string_views(args@);
    assert(head =~= seq!["-hwaccel"@, "auto"@, "-i"@, input@, "-filter_complex"@, filter_view]);
    let n = crops.len();
    let mut i: usize = 0;
    while i < n
        invariant
            i <= n,
            string_views(args@) == head + map_args(i as nat),
        decreases n - i,
    {
        push_str_arg(&mut args, "-map");
        let mut label = String::new();
        push_label(&mut label, "out", i as u64);
        assert(label@ =~= stream_label("out"@, i as nat));
        push_arg(&mut args, label);
        i = i + 1;
        assert(string_views(args@) =~= head + map_args(i as nat));
    }
    let ghost mid = string_views(args@);
    push_str_arg(&mut args, "-vsync");
    push_str_arg(&mut args, "drop");
    push_str_arg(&mut args, "-f");
    push_str_arg(&mut args, "rawvideo");
    push_str_arg(&mut args, "-pix_fmt");
    push_str_arg(&mut args, "rgb24");
    push_str_arg(&mut args, "-an");
    push_str_arg(&mut args, "-y");
    push_str_arg(&mut args, "pipe:1");
    assert(string_views(args@) =~= ffmpeg_arg_list(input@, filter_view, n as nat));
    args
}

/// `map_args(k)` has two arguments per output.
proof fn lemma_map_args_len(k: nat)
    ensures
        map_args(k).len() == 2 * k,
    decreases k,
{
    if k > 0 {
        lemma_map_args_len((k - 1) as nat);
    }
}

/// Arguments `2i` and `2i + 1` of `map_args(k)`, for one `i < k`.
proof fn lemma_map_args_at(k: nat, i: nat)
    requires
        i < k,
    ensures
        map_args(k)[2 * (i as int)] == "-map"@,
        map_args(k)[2 * (i as int) + 1] == stream_label("out"@, i),
    decreases k,
{
    let prev = map_args((k - 1) as nat);
    let tail = seq!["-map"@, stream_label("out"@, (k - 1) as nat)];
    lemma_map_args_len((k - 1) as nat);
    assert(map_args(k) == prev + tail);
    if i < k - 1 {
        lemma_map_args_at((k - 1) as nat, i);
        assert(map_args(k)[2 * (i as int)] == prev[2 * (i as int)]);
        assert(map_args(k)[2 * (i as int) + 1] == prev[2 * (i as int) + 1]);
    } else {
        assert(map_args(k)[2 * (i as int)] == tail[0]);
        assert(map_args(k)[2 * (i as int) + 1] == tail[1]);
    }
}

/// `map_args(k)` names each of the `k` outputs once, in order: argument
/// `2i` is `-map` and argument `2i + 1` is the label `[out<i>]` that the
/// `i`-th crop branch of the filter graph ends with.
pub proof fn lemma_maps_name_each_output(k: nat)
    ensures
        map_args(k).len() == 2 * k,
        forall|i: nat|
            i < k ==> #[trigger] map_args(k)[2 * (i as int)] == "-map"@ && map_args(k)[2 * (i as int) + 1]
                == stream_label("out"@, i),
{
    lemma_map_args_len(k);
    assert forall|i: nat|
        i < k implies #[trigger] map_args(k)[2 * (i as int)] == "-map"@ && map_args(k)[2 * (i as int) + 1]
            == stream_label("out"@, i) by {
        lemma_map_args_at(k, i);
    }
}

/// The filter graph that samples at `fps` frames per second and passes the
/// whole frame through a single output.
pub open spec fn full_frame_graph(fps: nat) -> Seq<char> {
    "[0:v]fps="@ + decimal(fps) + ",split="@ + decimal(1) + split_labels(1) + ";"@
        + crop_branch_of(0, "1"@, "1"@, "0"@, "0"@)
}

/// The label of stream `i` of `name`, written out.
proof fn lemma_stream_label_text(name: Seq<char>, i: nat)
    ensures
        stream_label(name, i) == seq!['['] + name + decimal(i) + seq![']'],
{
    reveal_strlit("[");
    reveal_strlit("]");
    assert("["@ =~= seq!['[']);
    assert("]"@ =~= seq![']']);
}

/// Each crop branch takes the `i`-th split output, multiplies the input width
/// by the trigger's width fraction and the input height by its height
/// fraction for the size, the input width by its `x` fraction and the input
/// height by its `y` fraction for the corner, and names the result `out<i>`.
pub proof fn lemma_crop_branch_text(i: nat, c: CropFractions)
    ensures
        crop_branch(i, c) == "[in"@ + decimal(i) + "]crop=round(in_w*"@ + c.width@ + "):round(in_h*"@
            + c.height@ + "):round(in_w*"@ + c.x@ + "):round(in_h*"@ + c.y@ + ")[out"@ + decimal(i)
            + "]"@,
{
    lemma_stream_label_text("in"@, i);
    lemma_stream_label_text("out"@, i);
    reveal_strlit("in");
    reveal_strlit("out");
    reveal_strlit("[in");
    reveal_strlit("[out");
    reveal_strlit("]");
    reveal_strlit(")");
    reveal_strlit(")[out");
    reveal_strlit("crop=round(in_w*");
    reveal_strlit("]crop=round(in_w*");
    assert(crop_branch(i, c) =~= "[in"@ + decimal(i) + "]crop=round(in_w*"@ + c.width@ + "):round(in_h*"@
        + c.height@ + "):round(in_w*"@ + c.x@ + "):round(in_h*"@ + c.y@ + ")[out"@ + decimal(i) + "]"@);
}

/// The split labels grow one `[in<k>]` at a time.
pub proof fn lemma_split_labels_step(k: nat)
    ensures
        split_labels(0) == Seq::<char>::empty(),
        split_labels(k + 1) == split_labels(k) + "[in"@ + decimal(k) + "]"@,
{
    lemma_stream_label_text("in"@, k);
    reveal_strlit("in");
    reveal_strlit("[in");
    reveal_strlit("]");
    assert(split_labels(k + 1) =~= split_labels(k) + "[in"@ + decimal(k) + "]"@);
}

/// The branches of the first `k + 1` crops are those of the first `k`, a `;`
/// between two branches, and the branch of crop `k` (which crops with crop
/// `k`'s own fractions and ends in `[out<k>]`).
pub proof fn lemma_crop_branches_step(crops: Seq<CropFractions>, k: nat)
    requires
        k < crops.len(),
    ensures
        crop_branches(crops, 0) == Seq::<char>::empty(),
        crop_branches(crops, k + 1) == crop_branches(crops, k) + (if k == 0 {
            Seq::<char>::empty()
        } else {
            ";"@
        }) + "[in"@ + decimal(k) + "]crop=round(in_w*"@ + crops[k as int].width@ + "):round(in_h*"@
            + crops[k as int].height@ + "):round(in_w*"@ + crops[k as int].x@ + "):round(in_h*"@
            + crops[k as int].y@ + ")[out"@ + decimal(k) + "]"@,
{
    lemma_crop_branch_text(k, crops[k as int]);
    if k == 0 {
        assert(crop_branches(crops, 1) =~= Seq::<char>::empty() + Seq::<char>::empty() + crop_branch(0, crops[0]));
    }
}

/// The graph samples the first video stream at `fps` frames per second,
/// splits it into as many streams as there are crops, and ends with the crop
/// branches; `lemma_split_labels_step` and `lemma_crop_branches_step` spell
/// out the labels and the branches.
pub proof fn lemma_filter_graph_layout(fps: nat, crops: Seq<CropFractions>)
    ensures
        filter_graph(fps, crops) == "[0:v]fps="@ + decimal(fps) + ",split="@ + decimal(crops.len())
            + split_labels(crops.len()) + ";"@ + crop_branches(crops, crops.len()),
{
}

/// With one crop, the whole graph reads: sample at `fps`, split into one
/// stream `in0`, and crop it to the crop's rectangle as stream `out0`.
pub proof fn lemma_filter_graph_one_crop(fps: nat, c: CropFractions)
    ensures
        filter_graph(fps, seq![c]) == "[0:v]fps="@ + decimal(fps) + ",split=1[in0];[in0]crop=round(in_w*"@
            + c.width@ + "):round(in_h*"@ + c.height@ + "):round(in_w*"@ + c.x@ + "):round(in_h*"@ + c.y@
            + ")[out0]"@,
{
    let crops = seq![c];
    lemma_crop_branch_text(0, c);
    lemma_split_labels_step(0);
    assert(decimal(0) =~= seq!['0']);
    assert(decimal(1) =~= seq!['1']);
    assert(crops.len() == 1);
    assert(crop_branches(crops, 1) == crop_branch(0, crops[0]));
    reveal_strlit("[0:v]fps=");
    reveal_strlit(",split=");
    reveal_strlit("[in");
    reveal_strlit("]");
    reveal_strlit(";");
    reveal_strlit("]crop=round(in_w*");
    reveal_strlit(")[out");
    reveal_strlit(",split=1[in0];[in0]crop=round(in_w*");
    reveal_strlit(")[out0]");
    assert(filter_graph(fps, crops) =~= "[0:v]fps="@ + decimal(fps) + ",split=1[in0];[in0]crop=round(in_w*"@
        + c.width@ + "):round(in_h*"@ + c.height@ + "):round(in_w*"@ + c.x@ + "):round(in_h*"@ + c.y@
        + ")[out0]"@);
}

/// The argument list: the input and the filter graph in fixed places, room
/// for one `-map [out<i>]` pair per output (see
/// `lemma_arg_list_maps_output`), then raw RGB24 video without audio to
/// standard output; `15 + 2n` arguments in all.
pub proof fn lemma_arg_list_layout(input: Seq<char>, filter: Seq<char>, n: nat)
    ensures
        ffmpeg_arg_list(input, filter, n).len() == 15 + 2 * n,
        ffmpeg_arg_list(input, filter, n)[0] == "-hwaccel"@,
        ffmpeg_arg_list(input, filter, n)[1] == "auto"@,
        ffmpeg_arg_list(input, filter, n)[2] == "-i"@,
        ffmpeg_arg_list(input, filter, n)[3] == input,
        ffmpeg_arg_list(input, filter, n)[4] == "-filter_complex"@,
        ffmpeg_arg_list(input, filter, n)[5] == filter,
        ffmpeg_arg_list(input, filter, n)[6 + 2 * (n as int)] == "-vsync"@,
        ffmpeg_arg_list(input, filter, n)[7 + 2 * (n as int)] == "drop"@,
        ffmpeg_arg_list(input, filter, n)[8 + 2 * (n as int)] == "-f"@,
        ffmpeg_arg_list(input, filter, n)[9 + 2 * (n as int)] == "rawvideo"@,
        ffmpeg_arg_list(input, filter, n)[10 + 2 * (n as int)] == "-pix_fmt"@,
        ffmpeg_arg_list(input, filter, n)[11 + 2 * (n as int)] == "rgb24"@,
        ffmpeg_arg_list(input, filter, n)[12 + 2 * (n as int)] == "-an"@,
        ffmpeg_arg_list(input, filter, n)[13 + 2 * (n as int)] == "-y"@,
        ffmpeg_arg_list(input, filter, n)[14 + 2 * (n as int)] == "pipe:1"@,
{
    let l = ffmpeg_arg_list(input, filter, n);
    let head = seq!["-hwaccel"@, "auto"@, "-i"@, input, "-filter_complex"@, filter];
    let tail = seq!["-vsync"@, "drop"@, "-f"@, "rawvideo"@, "-pix_fmt"@, "rgb24"@, "-an"@, "-y"@, "pipe:1"@];
    lemma_map_args_len(n);
    assert(l == head + map_args(n) + tail);
    assert(l[6 + 2 * (n as int)] == tail[0]);
    assert(l[7 + 2 * (n as int)] == tail[1]);
    assert(l[8 + 2 * (n as int)] == tail[2]);
    assert(l[9 + 2 * (n as int)] == tail[3]);
    assert(l[10 + 2 * (n as int)] == tail[4]);
    assert(l[11 + 2 * (n as int)] == tail[5]);
    assert(l[12 + 2 * (n as int)] == tail[6]);
    assert(l[13 + 2 * (n as int)] == tail[7]);
    assert(l[14 + 2 * (n as int)] == tail[8]);
}

/// Arguments `6 + 2i` and `7 + 2i` map output `i`: `-map` and `[out<i>]`,
/// for every output `i < n`.
pub proof fn lemma_arg_list_maps_output(input: Seq<char>, filter: Seq<char>, n: nat, i: nat)
    requires
        i < n,
    ensures
        ffmpeg_arg_list(input, filter, n)[6 + 2 * (i as int)] == "-map"@,
        ffmpeg_arg_list(input, filter, n)[7 + 2 * (i as int)] == seq!['['] + "out"@ + decimal(i) + seq![']'],
{
    let l = ffmpeg_arg_list(input, filter, n);
    let head = seq!["-hwaccel"@, "auto"@, "-i"@, input, "-filter_complex"@, filter];
    let tail = seq!["-vsync"@, "drop"@, "-f"@, "rawvideo"@, "-pix_fmt"@, "rgb24"@, "-an"@, "-y"@, "pipe:1"@];
    lemma_map_args_len(n);
    assert(l == head + map_args(n) + tail);
    lemma_map_args_at(n, i);
    lemma_stream_label_text("out"@, i);
    assert(l[6 + 2 * (i as int)] == map_args(n)[2 * (i as int)]);
    assert(l[7 + 2 * (i as int)] == map_args(n)[2 * (i as int) + 1]);
}

/// The whole-frame graph samples at the given rate: it is the graph of a
/// single crop of the full frame (fractions `1`, `1`, `0`, `0`), and reads
/// `[0:v]fps=<fps>,split=1[in0];[in0]crop=round(in_w*1):round(in_h*1):round(in_w*0):round(in_h*0)[out0]`.
pub proof fn lemma_full_frame_graph_text(fps: nat, c: CropFractions)
    requires
        c.width@ == "1"@,
        c.height@ == "1"@,
        c.x@ == "0"@,
        c.y@ == "0"@,
    ensures
        full_frame_graph(fps) == filter_graph(fps, seq![c]),
        full_frame_graph(fps) == "[0:v]fps="@ + decimal(fps)
            + ",split=1[in0];[in0]crop=round(in_w*1):round(in_h*1):round(in_w*0):round(in_h*0)[out0]"@,
{
    lemma_filter_graph_one_crop(fps, c);
    let crops = seq![c];
    assert(crop_branches(crops, 1) == crop_branch(0, crops[0]));
    assert(full_frame_graph(fps) == filter_graph(fps, crops));
    reveal_strlit(",split=1[in0];[in0]crop=round(in_w*");
    reveal_strlit(")[out0]");
    reveal_strlit("1");
    reveal_strlit("0");
    reveal_strlit("):round(in_h*");
    reveal_strlit("):round(in_w*");
    reveal_strlit(",split=1[in0];[in0]crop=round(in_w*1):round(in_h*1):round(in_w*0):round(in_h*0)[out0]");
    assert(",split=1[in0];[in0]crop=round(in_w*"@ + c.width@ + "):round(in_h*"@ + c.height@ + "):round(in_w*"@
        + c.x@ + "):round(in_h*"@ + c.y@ + ")[out0]"@
        =~= ",split=1[in0];[in0]crop=round(in_w*1):round(in_h*1):round(in_w*0):round(in_h*0)[out0]"@);
}

/// The program to run and its arguments.
pub struct FfmpegCommand {
    pub program: String,
    pub args: Vec<String>,
}

/// The ffmpeg command for the binary (or command) `ffmpeg_exe` reading
/// `input`, sampled at `samples_per_second` frames per second and cropped once
/// per entry of `crops`.
pub fn ffmpeg_command(
    ffmpeg_exe: &str,
    input: &str,
    samples_per_second: u64,
    crops: &Vec<CropFractions>,
) -> (r: FfmpegCommand)
    ensures
        r.program@ == ffmpeg_exe@,
        string_views(r.args@) == ffmpeg_arg_list(input@, filter_graph(samples_per_second as nat, crops@), crops.len() as nat),
{
    FfmpegCommand {
        program: String::from_str(ffmpeg_exe),
        args: ffmpeg_arguments(input, samples_per_second, crops),
    }
}

/// The command for sampling the whole frame of `input` at
/// `samples_per_second` frames per second.
pub fn full_frame_command(ffmpeg_exe: &str, input: &str, samples_per_second: u64) -> (r: FfmpegCommand)
    ensures
        r.program@ == ffmpeg_exe@,
        string_views(r.args@) == ffmpeg_arg_list(input@, full_frame_graph(samples_per_second as nat), 1),
        r.args@[5]@ == "[0:v]fps="@ + decimal(samples_per_second as nat)
            + ",split=1[in0];[in0]crop=round(in_w*1):round(in_h*1):round(in_w*0):round(in_h*0)[out0]"@,
{
    let mut crops: Vec<CropFractions> = Vec::new();
    crops.push(CropFractions {
        width: String::from_str("1"),
        height: String::from_str("1"),
        x: String::from_str("0"),
        y: String::from_str("0"),
    });
    let r = ffmpeg_command(ffmpeg_exe, input, samples_per_second, &crops);
    assert(crop_branches(crops@, 1) == crop_branch_of(0, "1"@, "1"@, "0"@, "0"@));
    assert(filter_graph(samples_per_second as nat, crops@) == full_frame_graph(samples_per_second as nat));
    proof {
        lemma_full_frame_graph_text(samples_per_second as nat, crops@[0]);
        lemma_arg_list_layout(input@, full_frame_graph(samples_per_second as nat), 1);
        assert(string_views(r.args@)[5] == r.args@[5]@);
    }
    r
}

} // verus!
