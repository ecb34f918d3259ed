//! How captured bytes become samples, and samples windows.

use vstd::prelude::*;

use crate::levels::samples;
use crate::levels::samples::FeedView;

verus! {

/// Of a buffer the whole samples are used that were captured and that it has room for: all but
/// three bytes at most. Without channels, or without one whole sample, nothing is.
pub proof fn lemma_whole_samples_are_used(captured: nat, capacity: nat, channels: nat)
    ensures
        match samples::usable(captured, capacity, channels) {
            Some(n) => {
                &&& channels > 0
                &&& n % 4 == 0
                &&& 4 <= n <= captured
                &&& n <= capacity
                &&& captured < n + 4 || capacity < n + 4
            },
            None => channels == 0 || captured < 4 || capacity < 4,
        },
{
}

/// The first byte of a sample is its lowest, the last its highest.
pub proof fn lemma_bytes_of_a_sample(bytes: Seq<u8>, i: int)
    requires
        0 <= i,
        4 * i + 3 < bytes.len(),
    ensures
        samples::sample_at(bytes, i) as int == bytes[4 * i] + 256 * bytes[4 * i + 1] + 65_536
            * bytes[4 * i + 2] + 16_777_216 * bytes[4 * i + 3],
{
}

/// The samples of a buffer are dealt out to the channels in turn: each sample belongs to the channel
/// of its place in the frame, at the place of the frame, and each channel has as many samples as
/// there are such places.
pub proof fn lemma_samples_are_dealt_out(bytes: Seq<u8>, channels: nat, channel: int, k: int)
    requires
        0 <= channel < channels,
        0 <= k,
    ensures
        ({
            let dealt = samples::by_channel(bytes, channels);
            let i = channel + k * channels;
            &&& dealt.len() == channels
            &&& k < dealt[channel].len() <==> 4 * i + 3 < bytes.len()
            &&& k < dealt[channel].len() ==> dealt[channel][k] == samples::sample_at(bytes, i)
        }),
{
    let count = samples::sample_count(bytes);
    let n = channels as int;
    let rest = count - channel - 1;
    vstd::arithmetic::div_mod::lemma_fundamental_div_mod(rest, n);
    let q = rest / n;
    let m = rest % n;
    assert(0 <= k * n) by (nonlinear_arith)
        requires
            0 <= k,
            n > 0,
    ;
    if count > channel {
        assert(k < q + 1 <==> k * n <= rest) by (nonlinear_arith)
            requires
                rest == n * q + m,
                0 <= m < n,
        ;
    }
}

/// Frames hold one sample of each channel, in the order of the bytes; what does not fill a frame is
/// left out, and is less than a frame.
pub proof fn lemma_frames_are_whole(bytes: Seq<u8>, channels: int, f: int, c: int)
    requires
        channels > 0,
        0 <= f < samples::by_frame(bytes, channels).len(),
        0 <= c < channels,
    ensures
        ({
            let frames = samples::by_frame(bytes, channels);
            &&& frames[f].len() == channels
            &&& frames[f][c] == samples::sample_at(bytes, f * channels + c)
            &&& frames.len() * channels <= bytes.len() / 4
            &&& bytes.len() / 4 < frames.len() * channels + channels
        }),
{
    let count = samples::sample_count(bytes);
    vstd::arithmetic::div_mod::lemma_fundamental_div_mod(count, channels);
    let q = count / channels;
    assert(q >= 0) by (nonlinear_arith)
        requires
            count >= 0,
            channels > 0,
            q == count / channels,
    ;
    assert(channels * q == q * channels) by (nonlinear_arith);
}

/// A list keeps its entries when it is resized, up to its new end, and what is new is zero.
pub proof fn lemma_resizing_keeps_entries(list: Seq<u32>, len: nat, i: int)
    requires
        0 <= i < len,
    ensures
        samples::resized(list, len).len() == len,
        i < list.len() ==> samples::resized(list, len)[i] == list[i],
        i >= list.len() ==> samples::resized(list, len)[i] == 0,
{
}

/// A feed goes on as long as the sample rate stays the same, and starts empty at any other. A rate
/// of zero counts as one.
pub proof fn lemma_feeds_are_tuned(feed: FeedView, rate: u32)
    ensures
        rate > 0 && feed.sample_rate == rate ==> samples::tuned(Some(feed), rate) == feed,
        rate > 0 && feed.sample_rate != rate ==> {
            let next = samples::tuned(Some(feed), rate);
            next.sample_rate == rate && next.pending.len() == 0
        },
        samples::tuned(None, rate).pending.len() == 0,
        rate > 0 ==> samples::tuned(None, rate).sample_rate == rate,
        samples::tuned(Some(feed), 0) == samples::tuned(Some(feed), 1),
        samples::tuned(None, 0) == samples::tuned(None, 1),
{
}

/// Windows have 2048 samples and begin 1024 samples apart, the first at the first sample. There is
/// one wherever a whole window fits, and what is left waiting begins where the next window would.
pub proof fn lemma_windows_overlap_by_half(run: Seq<u32>, k: int, j: int)
    requires
        0 <= k,
        0 <= j < 2048,
    ensures
        ({
            let windows = samples::windows(run);
            let rest = samples::leftover(run);
            &&& k < windows.len() <==> 1024 * k + 2048 <= run.len()
            &&& k < windows.len() ==> windows[k].len() == 2048 && windows[k][j] == run[1024 * k + j]
            &&& rest.len() == run.len() - 1024 * windows.len()
            &&& j < rest.len() ==> rest[j] == run[1024 * windows.len() + j]
        }),
{
}

/// A band takes in the places from its lower to its upper frequency. It leaves the constant part out,
/// takes in at least one place, and ends at the middle of the transform.
pub proof fn lemma_bands_take_in_their_places(low: int, high: int)
    requires
        0 <= low,
    ensures
        1 <= low < high <= 1024 ==> samples::band(low, high) == (low, high),
        1 <= low < 1024 && high <= low ==> samples::band(low, high) == (low, low + 1),
        1 <= low && high > 1024 ==> samples::band(low, high).0 == low && samples::band(
            low,
            high,
        ).1 == 1024,
        low == 0 ==> samples::band(low, high) == samples::band(1, high),
{
}

} // verus!
