//! From captured bytes to samples: the parts of metering that move samples and do not compute
//! with them.
//!
//! A sample is a single-precision number in little-endian order. It is held as its bit pattern.

use vstd::prelude::*;

use crate::levels;

verus! {

/// How many bytes a sample takes.
pub const SAMPLE_BYTES: usize = 4;

/// How many samples a spectrum column is computed from.
pub const FFT_SIZE: usize = 2048;

/// How many samples lie between two spectrum columns.
pub const FFT_HOP: usize = 1024;

/// How many bytes of a buffer hold whole samples, when any do: no more than were captured and no
/// more than the buffer has.
pub open spec fn usable(captured: nat, capacity: nat, channels: nat) -> Option<int> {
    let bytes = if captured <= capacity {
        captured
    } else {
        capacity
    };
    if channels == 0 || bytes < SAMPLE_BYTES {
        None
    } else {
        Some((bytes - bytes % SAMPLE_BYTES as nat) as int)
    }
}

/// Finds how many bytes of a buffer hold whole samples, when any do.
pub fn usable_bytes(captured: usize, capacity: usize, channels: usize) -> (r: Option<usize>)
    ensures
        match r {
            Some(n) => usable(captured as nat, capacity as nat, channels as nat) == Some(n as int),
            None => usable(captured as nat, capacity as nat, channels as nat) is None,
        },
{
    let bytes: usize = if captured <= capacity {
        captured
    } else {
        capacity
    };
    if channels == 0 || bytes < SAMPLE_BYTES {
        None
    } else {
        Some(bytes - bytes % SAMPLE_BYTES)
    }
}

/// The bit pattern of four bytes in little-endian order.
pub open spec fn little_endian(a: u8, b: u8, c: u8, d: u8) -> u32 {
    (a + 0x100 * b + 0x1_0000 * c + 0x100_0000 * d) as u32
}

/// The sample at a position of a buffer.
pub open spec fn sample_at(bytes: Seq<u8>, i: int) -> u32 {
    little_endian(bytes[4 * i], bytes[4 * i + 1], bytes[4 * i + 2], bytes[4 * i + 3])
}

/// How many whole samples a buffer holds.
pub open spec fn sample_count(bytes: Seq<u8>) -> int {
    bytes.len() as int / 4
}

fn read_sample(bytes: &[u8], i: usize) -> (r: u32)
    requires
        i < sample_count(bytes@),
    ensures
        r == sample_at(bytes@, i as int),
{
    let len: usize = bytes.len();
    assert(4 * i + 3 < len);
    let at: usize = i * 4;
    let a = bytes[at] as u32;
    let b = bytes[at + 1] as u32;
    let c = bytes[at + 2] as u32;
    let d = bytes[at + 3] as u32;
    a + 0x100 * b + 0x1_0000 * c + 0x100_0000 * d
}

/// The samples of a channel: every `channels`-th one, from the channel's own position on.
pub open spec fn channel_samples(bytes: Seq<u8>, channels: int, channel: int) -> Seq<u32> {
    Seq::new(
        samples_in_channel(sample_count(bytes), channels, channel) as nat,
        |k: int| sample_at(bytes, channel + k * channels),
    )
}

/// How many of `count` samples belong to a channel.
pub open spec fn samples_in_channel(count: int, channels: int, channel: int) -> int {
    if count <= channel {
        0
    } else {
        (count - channel - 1) / channels + 1
    }
}


/// The samples of a buffer, channel by channel.
pub open spec fn by_channel(bytes: Seq<u8>, channels: nat) -> Seq<Seq<u32>> {
    Seq::new(channels, |c: int| channel_samples(bytes, channels as int, c))
}

/// Reads the samples of one channel.
fn read_channel(bytes: &[u8], channels: usize, channel: usize) -> (r: Vec<u32>)
    requires
        channel < channels,
    ensures
        r@ == channel_samples(bytes@, channels as int, channel as int),
{
    let count: usize = bytes.len() / 4;
    let mut r: Vec<u32> = Vec::new();
    let mut i: usize = channel;
    assert(r@.len() * channels == 0) by (nonlinear_arith)
        requires
            r@.len() == 0,
    ;
    while i < count
        invariant
            channel < channels,
            count == sample_count(bytes@),
            i < count ==> i == channel + r@.len() * channels,
            i >= count ==> r@.len() == samples_in_channel(
                count as int,
                channels as int,
                channel as int,
            ),
            forall|k: int|
                0 <= k < r@.len() ==> #[trigger] r@[k] == sample_at(
                    bytes@,
                    channel + k * channels,
                ),
        decreases count - i,
    {
        r.push(read_sample(bytes, i));
        let ghost k = r@.len() as int;
        assert(k * channels == (k - 1) * channels + channels) by (nonlinear_arith);
        if count - i > channels {
            i += channels;
        } else {
            proof {
                let rest = count - channel - 1;
                assert(rest == (k - 1) * channels + (rest - (k - 1) * channels));
                vstd::arithmetic::div_mod::lemma_fundamental_div_mod_converse(
                    rest,
                    channels as int,
                    k - 1,
                    rest - (k - 1) * channels,
                );
            }
            i = count;
        }
    }
    assert(r@ =~= channel_samples(bytes@, channels as int, channel as int));
    r
}

/// Sorts the samples of a buffer by channel.
pub fn deinterleave(bytes: &[u8], channels: usize) -> (r: Vec<Vec<u32>>)
    ensures
        levels::list_views(r@) == by_channel(bytes@, channels as nat),
{
    let mut r: Vec<Vec<u32>> = Vec::new();
    let mut channel: usize = 0;
    while channel < channels
        invariant
            channel <= channels,
            r@.len() == channel,
            forall|c: int|
                0 <= c < channel ==> (#[trigger] r@[c])@ == channel_samples(
                    bytes@,
                    channels as int,
                    c,
                ),
        decreases channels - channel,
    {
        r.push(read_channel(bytes, channels, channel));
        channel += 1;
    }
    assert(levels::list_views(r@) =~= by_channel(bytes@, channels as nat));
    r
}

/// The samples of a buffer, frame by frame; a frame has one sample of each channel. Samples behind
/// the last whole frame are left out.
pub open spec fn by_frame(bytes: Seq<u8>, channels: int) -> Seq<Seq<u32>> {
    Seq::new(
        frame_count(bytes, channels) as nat,
        |f: int| frame_at(bytes, channels, f),
    )
}

/// How many whole frames a buffer holds.
pub open spec fn frame_count(bytes: Seq<u8>, channels: int) -> int {
    if channels == 0 {
        0
    } else {
        sample_count(bytes) / channels
    }
}

/// One frame of a buffer.
pub open spec fn frame_at(bytes: Seq<u8>, channels: int, f: int) -> Seq<u32> {
    Seq::new(channels as nat, |c: int| sample_at(bytes, f * channels + c))
}

/// Reads one frame.
fn read_frame(bytes: &[u8], channels: usize, f: usize) -> (r: Vec<u32>)
    requires
        f < frame_count(bytes@, channels as int),
    ensures
        r@ == frame_at(bytes@, channels as int, f as int),
{
    let count: usize = bytes.len() / 4;
    proof {
        let n = frame_count(bytes@, channels as int);
        vstd::arithmetic::div_mod::lemma_fundamental_div_mod(count as int, channels as int);
        assert((f + 1) * channels <= channels * n) by (nonlinear_arith)
            requires
                0 <= f < n,
                channels >= 0,
        ;
        assert(f * channels + channels == (f + 1) * channels) by (nonlinear_arith);
        assert(0 <= f * channels) by (nonlinear_arith);
    }
    let first: usize = f * channels;
    let mut r: Vec<u32> = Vec::new();
    let mut c: usize = 0;
    while c < channels
        invariant
            c <= channels,
            first == f * channels,
            count == sample_count(bytes@),
            first + channels <= count,
            r@.len() == c,
            forall|k: int| 0 <= k < c ==> #[trigger] r@[k] == sample_at(bytes@, f * channels + k),
        decreases channels - c,
    {
        r.push(read_sample(bytes, first + c));
        c += 1;
    }
    assert(r@ =~= frame_at(bytes@, channels as int, f as int));
    r
}

/// Sorts the samples of a buffer by frame.
pub fn frames(bytes: &[u8], channels: usize) -> (r: Vec<Vec<u32>>)
    ensures
        levels::list_views(r@) == by_frame(bytes@, channels as int),
{
    let mut r: Vec<Vec<u32>> = Vec::new();
    if channels == 0 {
        assert(levels::list_views(r@) =~= by_frame(bytes@, channels as int));
        return r;
    }
    let count: usize = bytes.len() / 4 / channels;
    let mut f: usize = 0;
    while f < count
        invariant
            channels > 0,
            f <= count,
            count == frame_count(bytes@, channels as int),
            r@.len() == f,
            forall|k: int|
                0 <= k < f ==> (#[trigger] r@[k])@ == frame_at(bytes@, channels as int, k),
        decreases count - f,
    {
        r.push(read_frame(bytes, channels, f));
        f += 1;
    }
    assert(levels::list_views(r@) =~= by_frame(bytes@, channels as int));
    r
}

/// A list at a given length: cut off, or filled up with zeros.
pub open spec fn resized(list: Seq<u32>, len: nat) -> Seq<u32> {
    Seq::new(len, |i: int| levels::entry_or_zero(list, i))
}

fn resize(list: &mut Vec<u32>, len: usize)
    ensures
        final(list)@ == resized(old(list)@, len as nat),
{
    let ghost before = list@;
    if list.len() > len {
        list.truncate(len);
    }
    while list.len() < len
        invariant
            list@.len() <= len,
            forall|i: int|
                0 <= i < list@.len() ==> #[trigger] list@[i] == levels::entry_or_zero(before, i),
            list@.len() >= before.len() || list@.len() == len,
        decreases len - list@.len(),
    {
        list.push(0);
    }
    assert(list@ =~= resized(before, len as nat));
}

/// Gives the smoothed levels one entry for each channel. A channel that is new starts at zero.
pub fn resize_smoothing(smooth_peaks: &mut Vec<u32>, smooth_rms: &mut Vec<u32>, channels: usize)
    ensures
        final(smooth_peaks)@ == resized(old(smooth_peaks)@, channels as nat),
        final(smooth_rms)@ == resized(old(smooth_rms)@, channels as nat),
{
    resize(smooth_peaks, channels);
    resize(smooth_rms, channels);
}

/// The samples that wait for a spectrum column, and their sample rate.
#[derive(Debug, Clone)]
pub struct SpectrumFeed {
    pub sample_rate: u32,
    pub pending: Vec<u32>,
}

/// The value of a [`SpectrumFeed`].
#[verifier::ext_equal]
pub struct FeedView {
    pub sample_rate: u32,
    pub pending: Seq<u32>,
}

impl View for SpectrumFeed {
    type V = FeedView;

    open spec fn view(&self) -> FeedView {
        FeedView { sample_rate: self.sample_rate, pending: self.pending@ }
    }
}

/// The value of an optional feed.
pub open spec fn opt_feed(feed: Option<SpectrumFeed>) -> Option<FeedView> {
    match feed {
        Some(feed) => Some(feed@),
        None => None,
    }
}

/// The feed for samples at a given rate, which counts as at least one: the one that is there, or
/// an empty one when there is none or it is at another rate.
pub open spec fn tuned(feed: Option<FeedView>, sample_rate: u32) -> FeedView {
    let rate: u32 = if sample_rate == 0 {
        1
    } else {
        sample_rate
    };
    match feed {
        Some(feed) if feed.sample_rate == rate => feed,
        _ => FeedView { sample_rate: rate, pending: Seq::empty() },
    }
}

/// How many whole windows a run of samples holds.
pub open spec fn window_count(len: int) -> int {
    if len < FFT_SIZE {
        0
    } else {
        (len - FFT_SIZE) / FFT_HOP as int + 1
    }
}

/// The whole windows of a run of samples, each one hop after the one before.
pub open spec fn windows(run: Seq<u32>) -> Seq<Seq<u32>> {
    Seq::new(window_count(run.len() as int) as nat, |k: int| window_at(run, k))
}

/// One window of a run of samples.
pub open spec fn window_at(run: Seq<u32>, k: int) -> Seq<u32> {
    run.subrange(FFT_HOP * k, FFT_HOP * k + FFT_SIZE)
}

/// The samples that wait for the next window.
pub open spec fn leftover(run: Seq<u32>) -> Seq<u32> {
    run.skip(FFT_HOP * window_count(run.len() as int))
}

impl SpectrumFeed {
    /// Makes `feed` one for samples at the given rate, and says whether it starts anew.
    pub fn tune(feed: &mut Option<SpectrumFeed>, sample_rate: u32) -> (r: bool)
        ensures
            opt_feed(*final(feed)) == Some(tuned(opt_feed(*old(feed)), sample_rate)),
            r <==> opt_feed(*old(feed)) != Some(tuned(opt_feed(*old(feed)), sample_rate)),
    {
        let rate: u32 = if sample_rate == 0 {
            1
        } else {
            sample_rate
        };
        let same = match feed {
            Some(f) => f.sample_rate == rate,
            None => false,
        };
        if same {
            return false;
        }
        *feed = Some(SpectrumFeed { sample_rate: rate, pending: Vec::new() });
        true
    }

    /// Takes in samples, and gives the windows that are complete with them, oldest first.
    pub fn push_samples(&mut self, mono: &[u32]) -> (r: Vec<Vec<u32>>)
        ensures
            levels::list_views(r@) == windows(old(self)@.pending + mono@),
            final(self)@ == (FeedView {
                pending: leftover(old(self)@.pending + mono@),
                ..old(self)@
            }),
    {
        let ghost run = self.pending@ + mono@;
        let mut i: usize = 0;
        while i < mono.len()
            invariant
                i <= mono@.len(),
                self.pending@ =~= old(self).pending@ + mono@.take(i as int),
                self.sample_rate == old(self).sample_rate,
            decreases mono@.len() - i,
        {
            self.pending.push(mono[i]);
            i += 1;
        }
        assert(self.pending@ =~= run);
        let len: usize = self.pending.len();
        let mut r: Vec<Vec<u32>> = Vec::new();
        let mut at: usize = 0;
        while len - at >= FFT_SIZE
            invariant
                len == run.len(),
                self.pending@ == run,
                self.sample_rate == old(self).sample_rate,
                at <= len,
                at == FFT_HOP * r@.len(),
                r@.len() <= window_count(len as int),
                forall|k: int| 0 <= k < r@.len() ==> (#[trigger] r@[k])@ == window_at(run, k),
            decreases len - at,
        {
            r.push(copy_range(&self.pending, at, at + FFT_SIZE));
            at += FFT_HOP;
        }
        assert(levels::list_views(r@) =~= windows(run));
        self.pending = copy_range(&self.pending, at, len);
        assert(self.pending@ =~= leftover(run));
        r
    }
}

fn copy_range(list: &Vec<u32>, from: usize, to: usize) -> (r: Vec<u32>)
    requires
        from <= to <= list@.len(),
    ensures
        r@ == list@.subrange(from as int, to as int),
{
    let mut r: Vec<u32> = Vec::new();
    let mut i: usize = from;
    while i < to
        invariant
            from <= i <= to <= list@.len(),
            r@ =~= list@.subrange(from as int, i as int),
        decreases to - i,
    {
        r.push(list[i]);
        i += 1;
    }
    r
}

/// The places in the transform that a band takes in, given where its two frequencies fall: at least
/// one, past the constant part, and below the middle, where the transform mirrors itself.
pub open spec fn band(low: int, high: int) -> (int, int) {
    let first = if low < 1 {
        1
    } else {
        low
    };
    let end = if high < first + 1 {
        first + 1
    } else {
        high
    };
    (first, if end > FFT_SIZE / 2 {
        (FFT_SIZE / 2) as int
    } else {
        end
    })
}

/// Finds the places in the transform that a band takes in: from the first up to, and without, the
/// second.
pub fn band_range(low: usize, high: usize) -> (r: (usize, usize))
    ensures
        (r.0 as int, r.1 as int) == band(low as int, high as int),
{
    let first: usize = if low < 1 {
        1
    } else {
        low
    };
    let end: usize = if high <= first {
        if first < FFT_SIZE / 2 {
            first + 1
        } else {
            FFT_SIZE / 2
        }
    } else {
        high
    };
    (first, if end > FFT_SIZE / 2 {
        FFT_SIZE / 2
    } else {
        end
    })
}

/// A band below the middle of the transform takes in something, and nothing from the middle on; the
/// next band begins no earlier, and leaves nothing out between the two.
pub proof fn lemma_bands_cover(low: int, middle: int, high: int)
    requires
        0 <= low <= middle <= high,
        low < FFT_SIZE / 2,
    ensures
        1 <= band(low, middle).0 < band(low, middle).1 <= FFT_SIZE / 2,
        middle < FFT_SIZE / 2 ==> band(low, middle).0 <= band(middle, high).0 <= band(
            low,
            middle,
        ).1,
{
}

/// Fewer samples than a window wait for the next one.
pub proof fn lemma_leftover_is_short(run: Seq<u32>)
    ensures
        leftover(run).len() < FFT_SIZE,
        leftover(run).len() <= run.len(),
{
}

/// Samples give the same windows, and leave the same samples waiting, whether they come at once
/// or in pieces.
pub proof fn lemma_pieces(pending: Seq<u32>, first: Seq<u32>, second: Seq<u32>)
    ensures
        windows(pending + (first + second)) == windows(pending + first) + windows(
            leftover(pending + first) + second,
        ),
        leftover(pending + (first + second)) == leftover(leftover(pending + first) + second),
{
    let whole = pending + (first + second);
    let start = pending + first;
    let n = window_count(start.len() as int);
    let rest = leftover(start) + second;
    let m = window_count(rest.len() as int);
    assert(rest =~= whole.skip(FFT_HOP * n));
    assert(window_count(whole.len() as int) == n + m);
    let joined = windows(start) + windows(rest);
    assert forall|k: int| 0 <= k < n + m implies #[trigger] windows(whole)[k] == joined[k] by {
        if k < n {
            assert(window_at(whole, k) =~= window_at(start, k));
        } else {
            assert(window_at(whole, k) =~= window_at(rest, k - n));
        }
    }
    assert(windows(whole) =~= joined);
    assert(leftover(whole) =~= leftover(rest));
}

/// A channel's sample in a frame is the one that the channel has at the frame's place.
pub proof fn lemma_frames_and_channels(bytes: Seq<u8>, channels: int, f: int, c: int)
    requires
        0 <= c < channels,
        0 <= f < frame_count(bytes, channels),
    ensures
        f < channel_samples(bytes, channels, c).len(),
        by_frame(bytes, channels)[f][c] == by_channel(bytes, channels as nat)[c][f],
{
    let count = sample_count(bytes);
    let n = frame_count(bytes, channels);
    vstd::arithmetic::div_mod::lemma_fundamental_div_mod(count, channels);
    assert((f + 1) * channels <= channels * n) by (nonlinear_arith)
        requires
            0 <= f < n,
            channels > 0,
    ;
    assert(f * channels + channels == (f + 1) * channels) by (nonlinear_arith);
    let rest = count - c - 1;
    vstd::arithmetic::div_mod::lemma_fundamental_div_mod(rest, channels);
    let q = rest / channels;
    assert(f <= q) by (nonlinear_arith)
        requires
            f * channels <= rest,
            rest < channels * q + channels,
            channels > 0,
    ;
}

} // verus!
