//! The size of the video ffmpeg writes, read from ffmpeg's log on standard
//! error: after the `Output #` header, the first `Stream #... Video: ...` line
//! names the frame size as `<width>x<height>`, for example
//! `  Stream #0:0: Video: rawvideo (RGB[24] / 0x18424752), rgb24, 1280x720, 2 fps`.
//! Lines are handled as bytes; every marker searched for is ASCII.
use vstd::prelude::*;

verus! {

/// `Output #`, the header ffmpeg prints before describing its outputs.
pub open spec fn output_marker() -> Seq<u8> {
    seq![79u8, 117u8, 116u8, 112u8, 117u8, 116u8, 32u8, 35u8]
}

/// `Stream #`, the start of a stream description.
pub open spec fn stream_marker() -> Seq<u8> {
    seq![83u8, 116u8, 114u8, 101u8, 97u8, 109u8, 32u8, 35u8]
}

/// `Video:`, the kind of a video stream.
pub open spec fn video_marker() -> Seq<u8> {
    seq![86u8, 105u8, 100u8, 101u8, 111u8, 58u8]
}

/// Whether `pat` occurs in `s` at position `p`.
pub open spec fn occurs_at(s: Seq<u8>, pat: Seq<u8>, p: int) -> bool {
    &&& 0 <= p
    &&& p + pat.len() <= s.len()
    &&& s.subrange(p, p + pat.len()) == pat
}

/// Whether `pat` occurs anywhere in `s`.
pub open spec fn contains(s: Seq<u8>, pat: Seq<u8>) -> bool {
    exists|p: int| #[trigger] occurs_at(s, pat, p)
}

/// ASCII `0` to `9`.
pub open spec fn is_digit(b: u8) -> bool {
    48 <= b <= 57
}

/// The number written by the decimal digits `s`.
pub open spec fn digits_value(s: Seq<u8>) -> nat
    decreases s.len(),
{
    if s.len() == 0 {
        0
    } else {
        digits_value(s.drop_last()) * 10 + (s.last() - 48) as nat
    }
}

/// The length of the run of digits that starts at `p`.
pub open spec fn digit_run(s: Seq<u8>, p: int) -> nat
    decreases s.len() - p,
{
    if 0 <= p < s.len() && is_digit(s[p]) {
        1 + digit_run(s, p + 1)
    } else {
        0
    }
}

/// The size written at `p`, if a size token starts there: it follows the
/// start of the line or a space, the width has no leading zero (so that hex
/// numbers such as `0x18424752` are not taken), an `x` separates width and
/// height, the token ends at the end of the line, a space or a comma, and both
/// numbers fit in a `u32`.
pub open spec fn size_at(s: Seq<u8>, p: int) -> Option<(nat, nat)> {
    let q = p + digit_run(s, p);
    let r = q + 1 + digit_run(s, q + 1);
    let w = digits_value(s.subrange(p, q));
    let h = digits_value(s.subrange(q + 1, r));
    if 0 <= p < s.len() && (p == 0 || s[p - 1] == 32u8) && s[p] != 48u8 && q > p && q < s.len()
        && s[q] == 120u8 && r > q + 1 && (r == s.len() || s[r] == 32u8 || s[r] == 44u8)
        && w <= u32::MAX && h <= u32::MAX {
        Some((w, h))
    } else {
        None
    }
}

/// The first size token at or after `p`.
pub open spec fn first_size_from(s: Seq<u8>, p: int) -> Option<(nat, nat)>
    decreases s.len() - p,
{
    if p < 0 || p >= s.len() {
        None
    } else if size_at(s, p) is Some {
        size_at(s, p)
    } else {
        first_size_from(s, p + 1)
    }
}

/// The first size token of the line.
pub open spec fn first_size(s: Seq<u8>) -> Option<(nat, nat)> {
    first_size_from(s, 0)
}

/// What one log line does to the scanner: the `Output #` header opens the
/// output section; in it, a video stream line yields its first size token.
/// The result is whether the output section is open after the line, and the
/// size found on it.
pub open spec fn line_effect(in_output: bool, line: Seq<u8>) -> (bool, Option<(nat, nat)>) {
    if contains(line, output_marker()) {
        (true, None)
    } else if in_output && contains(line, stream_marker()) && contains(line, video_marker()) {
        (true, first_size(line))
    } else {
        (in_output, None)
    }
}

/// The ASCII decimal notation of `n`, most significant digit first.
pub open spec fn ascii_decimal(n: nat) -> Seq<u8>
    decreases n,
{
    if n < 10 {
        seq![(48 + n) as u8]
    } else {
        ascii_decimal(n / 10).push((48 + n % 10) as u8)
    }
}

/// `ascii_decimal(n)` is a run of digits that reads back as `n`, with no
/// leading zero unless `n` is zero.
proof fn lemma_ascii_decimal(n: nat)
    ensures
        ascii_decimal(n).len() >= 1,
        forall|i: int| 0 <= i < ascii_decimal(n).len() ==> is_digit(#[trigger] ascii_decimal(n)[i]),
        digits_value(ascii_decimal(n)) == n,
        n >= 1 ==> ascii_decimal(n)[0] != 48u8,
    decreases n,
{
    let d = ascii_decimal(n);
    if n < 10 {
        assert(d.drop_last() =~= Seq::<u8>::empty());
        assert(d.last() == (48 + n) as u8);
        assert(((48 + n) as u8) as int == 48 + n);
        assert(digits_value(d) == digits_value(d.drop_last()) * 10 + (d.last() - 48) as nat);
    } else {
        lemma_ascii_decimal(n / 10);
        let p = ascii_decimal(n / 10);
        assert(d.drop_last() =~= p);
        assert(d.last() == (48 + n % 10) as u8);
        assert(((48 + n % 10) as u8) as int == 48 + n % 10);
        assert(digits_value(d) == digits_value(p) * 10 + (d.last() - 48) as nat);
        assert(d[0] == p[0]);
        assert(n == (n / 10) * 10 + n % 10);
        assert forall|i: int| 0 <= i < d.len() implies is_digit(#[trigger] d[i]) by {
            if i < d.len() - 1 {
                assert(d[i] == p[i]);
            }
        }
    }
}

/// A run of `len` digits at `p` that ends at the end of `s` or at a
/// non-digit has `digit_run` exactly `len`.
proof fn lemma_digit_run_exact(s: Seq<u8>, p: int, len: nat)
    requires
        0 <= p,
        p + len <= s.len(),
        forall|i: int| p <= i < p + len ==> is_digit(#[trigger] s[i]),
        p + len == s.len() || !is_digit(s[p + len]),
    ensures
        digit_run(s, p) == len,
    decreases len,
{
    if len > 0 {
        lemma_digit_run_exact(s, p + 1, (len - 1) as nat);
    }
}

/// Round trip: a size written as `<width>x<height>` in ASCII decimal, after
/// the start of the line or a space and before the end of the line, a space
/// or a comma, is read back as exactly that width and height (for a positive
/// width and sizes that fit in a `u32`).
pub proof fn lemma_size_token_reads_back(before: Seq<u8>, w: nat, h: nat, after: Seq<u8>)
    requires
        1 <= w <= u32::MAX,
        h <= u32::MAX,
        before.len() == 0 || before.last() == 32u8,
        after.len() == 0 || after[0] == 32u8 || after[0] == 44u8,
    ensures
        size_at(before + ascii_decimal(w) + seq![120u8] + ascii_decimal(h) + after, before.len() as int)
            == Some((w, h)),
{
    let dw = ascii_decimal(w);
    let dh = ascii_decimal(h);
    let s = before + dw + seq![120u8] + dh + after;
    lemma_ascii_decimal(w);
    lemma_ascii_decimal(h);
    let p = before.len() as int;
    let q = p + dw.len();
    let r = q + 1 + dh.len();
    assert forall|i: int| p <= i < q implies is_digit(#[trigger] s[i]) by {
        assert(s[i] == dw[i - p]);
    }
    assert(s[q] == 120u8);
    lemma_digit_run_exact(s, p, dw.len());
    assert forall|i: int| q + 1 <= i < r implies is_digit(#[trigger] s[i]) by {
        assert(s[i] == dh[i - q - 1]);
    }
    if r < s.len() {
        assert(s[r] == after[0]);
    }
    lemma_digit_run_exact(s, q + 1, dh.len());
    assert(s.subrange(p, q) =~= dw);
    assert(s.subrange(q + 1, r) =~= dh);
    assert(s[p] == dw[0]);
    if p > 0 {
        assert(s[p - 1] == before.last());
    }
}

/// Whether `pat` occurs in `s`.
fn find(s: &[u8], pat: &Vec<u8>) -> (r: bool)
    ensures
        r == contains(s@, pat@),
{
    let n = s.len();
    let m = pat.len();
    if m > n {
        assert forall|p: int| !#[trigger] occurs_at(s@, pat@, p) by {}
        return false;
    }
    let mut p: usize = 0;
    while p <= n - m
        invariant
            m <= n,
            n == s@.len(),
            m == pat@.len(),
            p <= n - m + 1,
            forall|q: int| 0 <= q < p ==> !#[trigger] occurs_at(s@, pat@, q),
        decreases n - m + 1 - p,
    {
        let mut j: usize = 0;
        let mut same = true;
        while j < m
            invariant
                j <= m,
                m == pat@.len(),
                p + m <= n,
                n == s@.len(),
                same == (forall|k: int| 0 <= k < j ==> s@[p + k] == pat@[k]),
            decreases m - j,
        {
            if s[p + j] != pat[j] {
                same = false;
            }
            j = j + 1;
        }
        if same {
            assert(s@.subrange(p as int, p + m) =~= pat@);
            assert(occurs_at(s@, pat@, p as int));
            return true;
        }
        assert(!occurs_at(s@, pat@, p as int)) by {
            if occurs_at(s@, pat@, p as int) {
                assert forall|k: int| 0 <= k < m implies s@[p + k] == pat@[k] by {
                    assert(s@.subrange(p as int, p + m)[k] == s@[p + k]);
                }
            }
        }
        p = p + 1;
    }
    assert forall|q: int| !#[trigger] occurs_at(s@, pat@, q) by {
        if q >= p {
            assert(q + m > n);
        }
    }
    false
}

/// `digits_value` of a prefix extended by one digit.
proof fn lemma_digits_push(s: Seq<u8>, a: int, b: int)
    requires
        0 <= a <= b < s.len(),
    ensures
        digits_value(s.subrange(a, b + 1)) == digits_value(s.subrange(a, b)) * 10 + (s[b] - 48) as nat,
{
    assert(s.subrange(a, b + 1).drop_last() =~= s.subrange(a, b));
}

/// `digits_value` never decreases when a digit is appended.
proof fn lemma_digits_grow(s: Seq<u8>, a: int, b: int)
    requires
        0 <= a <= b < s.len(),
        is_digit(s[b]),
    ensures
        digits_value(s.subrange(a, b + 1)) >= digits_value(s.subrange(a, b)),
{
    lemma_digits_push(s, a, b);
}

/// The digit run from `p`: its end, and its value (any value above
/// `u32::MAX` is reported as `u32::MAX + 1`).
fn scan_digits(s: &[u8], p: usize) -> (r: (usize, u64))
    requires
        p <= s.len(),
    ensures
        p <= r.0 <= s.len(),
        r.0 == p + digit_run(s@, p as int),
        r.1 == if digits_value(s@.subrange(p as int, r.0 as int)) <= u32::MAX {
            digits_value(s@.subrange(p as int, r.0 as int))
        } else {
            u32::MAX as nat + 1
        },
{
    let n = s.len();
    let mut i: usize = p;
    let mut value: u64 = 0;
    assert(s@.subrange(p as int, p as int) =~= Seq::<u8>::empty());
    while i < n && 48u8 <= s[i] && s[i] <= 57u8
        invariant
            p <= i <= n,
            n == s@.len(),
            digit_run(s@, p as int) == (i - p) + digit_run(s@, i as int),
            value == if digits_value(s@.subrange(p as int, i as int)) <= u32::MAX {
                digits_value(s@.subrange(p as int, i as int))
            } else {
                u32::MAX as nat + 1
            },
        decreases n - i,
    {
        let d = s[i] - 48u8;
        proof {
            lemma_digits_push(s@, p as int, i as int);
        }
        if value <= 4294967295u64 {
            value = value * 10 + d as u64;
            if value > 4294967295u64 {
                value = 4294967296u64;
            }
        }
        i = i + 1;
    }
    (i, value)
}

/// The size token at `p`, if there is one.
fn size_at_exec(s: &[u8], p: usize) -> (r: Option<(u32, u32)>)
    requires
        p < s.len(),
    ensures
        match r {
            Some((w, h)) => size_at(s@, p as int) == Some((w as nat, h as nat)),
            None => size_at(s@, p as int) is None,
        },
{
    let n = s.len();
    if !(p == 0 || s[p - 1] == 32u8) || s[p] == 48u8 {
        return None;
    }
    let (q, w) = scan_digits(s, p);
    if q == p || q >= n || s[q] != 120u8 {
        return None;
    }
    let (r, h) = scan_digits(s, q + 1);
    if r == q + 1 || !(r == n || s[r] == 32u8 || s[r] == 44u8) {
        return None;
    }
    if w > 4294967295u64 || h > 4294967295u64 {
        return None;
    }
    Some((w as u32, h as u32))
}

/// The first size token of `line`.
pub fn find_size(line: &[u8]) -> (r: Option<(u32, u32)>)
    ensures
        match r {
            Some((w, h)) => first_size(line@) == Some((w as nat, h as nat)),
            None => first_size(line@) is None,
        },
{
    let n = line.len();
    let mut p: usize = 0;
    while p < n
        invariant
            p <= n,
            n == line@.len(),
            first_size(line@) == first_size_from(line@, p as int),
        decreases n - p,
    {
        match size_at_exec(line, p) {
            Some(size) => {
                return Some(size);
            },
            None => {},
        }
        p = p + 1;
    }
    None
}

/// Follows ffmpeg's log, line by line, until it names the size of the video
/// written to standard output.
pub struct VideoSizeScanner {
    in_output: bool,
}

impl VideoSizeScanner {
    /// Whether the `Output #` header has been seen.
    pub closed spec fn in_output(&self) -> bool {
        self.in_output
    }

    /// A scanner that has seen no line yet.
    pub fn new() -> (r: Self)
        ensures
            !r.in_output(),
    {
        VideoSizeScanner { in_output: false }
    }

    /// Takes in one line of the log; returns the video size if this line
    /// names it.
    pub fn on_line(&mut self, line: &[u8]) -> (r: Option<(u32, u32)>)
        ensures
            final(self).in_output() == line_effect(old(self).in_output(), line@).0,
            match r {
                Some((w, h)) => line_effect(old(self).in_output(), line@).1 == Some((w as nat, h as nat)),
                None => line_effect(old(self).in_output(), line@).1 is None,
            },
    {
        let output_pat: Vec<u8> = vec![79u8, 117u8, 116u8, 112u8, 117u8, 116u8, 32u8, 35u8];
        let stream_pat: Vec<u8> = vec![83u8, 116u8, 114u8, 101u8, 97u8, 109u8, 32u8, 35u8];
        let video_pat: Vec<u8> = vec![86u8, 105u8, 100u8, 101u8, 111u8, 58u8];
        assert(output_pat@ =~= output_marker());
        assert(stream_pat@ =~= stream_marker());
        assert(video_pat@ =~= video_marker());
        if find(line, &output_pat) {
            self.in_output = true;
            None
        } else if self.in_output && find(line, &stream_pat) && find(line, &video_pat) {
            find_size(line)
        } else {
            None
        }
    }
}

} // verus!
