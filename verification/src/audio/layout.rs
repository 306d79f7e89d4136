//! What holds of the segment's layout, of the ring and of the spectrum's bookkeeping.

use super::metrics_idx::{
    LINK_PEERS, LINK_PLAYING, LINK_TEMPO_MBPM, MESSAGES_PROCESSED, PROCESS_COUNT,
    SCHEDULER_QUEUE_DEPTH,
};
use super::ring::{frames_of, newest_mono, plan_of, window_len, writer_header, Window};
use super::segment::{
    audio_slot, header_words, metrics_fault, scope_fault, scope_slot_offset, ScopeSlotReader,
    ShmError, ShmSegmentHeader, BLOB_OFFSET, MAX_SHM_AUDIO_BUFFERS, SEGMENT_MAGIC,
    SHM_AUDIO_CHANNELS, SHM_AUDIO_FRAMES, SHM_AUDIO_SAMPLE_RATE, SHM_AUDIO_SECONDS,
    SHM_AUDIO_SLOT_HEADER, SHM_AUDIO_SLOT_SIZE,
};
use super::spectrum::{bucket_bins, frame_source, peak_next, PeakMove};
use vstd::arithmetic::div_mod::{lemma_fundamental_div_mod, lemma_fundamental_div_mod_converse};
use vstd::prelude::*;

verus! {

/// Each field of a header has its word.
pub proof fn law_header_words_have_their_places(h: ShmSegmentHeader)
    ensures
        ({
            let w = header_words(h);
            &&& w.len() == 27
            &&& w[0] == h.magic && w[1] == h.blob_offset && w[2] == h.blob_size
            &&& w[3] == h.in_ring_offset && w[4] == h.in_ring_size
            &&& w[5] == h.out_ring_offset && w[6] == h.out_ring_size
            &&& w[7] == h.debug_ring_offset && w[8] == h.debug_ring_size
            &&& w[9] == h.control_offset
            &&& w[10] == h.metrics_offset && w[11] == h.metrics_field_count
            &&& w[12] == h.node_tree_offset && w[13] == h.node_tree_header_bytes
            &&& w[14] == h.node_tree_entry_bytes && w[15] == h.node_tree_max_nodes
            &&& w[16] == h.audio_offset && w[17] == h.audio_slot_count
            &&& w[18] == h.audio_slot_bytes
            &&& w[19] == h.scope_offset && w[20] == h.scope_max
            &&& w[21] == h.scope_header_bytes && w[22] == h.scope_slot_bytes
            &&& w[23] == h.scope_slot_header && w[24] == h.scope_frames
            &&& w[25] == h.scope_channels && w[26] == h.native_stats_offset
        }),
{
}

/// Two headers with the same words are the same header.
pub proof fn law_words_tell_headers_apart(a: ShmSegmentHeader, b: ShmSegmentHeader)
    requires
        header_words(a) == header_words(b),
    ensures
        a == b,
{
    law_header_words_have_their_places(a);
    law_header_words_have_their_places(b);
}

/// The sizes of the audio region follow from each other: a slot holds one second of
/// stereo frames behind its header, at four bytes a sample.
pub proof fn law_audio_sizes_add_up()
    ensures
        SHM_AUDIO_SAMPLE_RATE == 48_000 && SHM_AUDIO_SECONDS == 1 && SHM_AUDIO_CHANNELS == 2,
        SHM_AUDIO_FRAMES == SHM_AUDIO_SAMPLE_RATE * SHM_AUDIO_SECONDS,
        SHM_AUDIO_SLOT_HEADER == 32,
        SHM_AUDIO_SLOT_SIZE == SHM_AUDIO_SLOT_HEADER + SHM_AUDIO_FRAMES * SHM_AUDIO_CHANNELS * 4,
        MAX_SHM_AUDIO_BUFFERS == 4,
        BLOB_OFFSET == 256,
        SEGMENT_MAGIC == 0x5C09_E006,
{
}

/// The published metrics have their numbers.
pub proof fn law_metrics_have_their_numbers()
    ensures
        PROCESS_COUNT == 0 && MESSAGES_PROCESSED == 1 && SCHEDULER_QUEUE_DEPTH == 3,
        LINK_PEERS == 27 && LINK_TEMPO_MBPM == 28 && LINK_PLAYING == 31,
{
}

/// The stand-in publishes a whole segment: the four audio slots right behind the
/// header and no other region.
pub proof fn law_writer_publishes_the_audio_region()
    ensures
        ({
            let h = writer_header();
            &&& h.magic == 0x5C09_E006
            &&& h.blob_offset == 256
            &&& h.audio_offset == 0
            &&& h.audio_slot_count == 4
            &&& h.audio_slot_bytes == 32 + 48_000 * 2 * 4
            &&& h.blob_size == h.audio_slot_count * h.audio_slot_bytes
            &&& h.scope_max == 0 && h.metrics_field_count == 0 && h.node_tree_max_nodes == 0
            &&& h.in_ring_offset == 0 && h.out_ring_offset == 0 && h.debug_ring_offset == 0
            &&& h.in_ring_size == 0 && h.out_ring_size == 0 && h.debug_ring_size == 0
            &&& h.control_offset == 0 && h.metrics_offset == 0 && h.native_stats_offset == 0
            &&& h.node_tree_offset == 0 && h.node_tree_header_bytes == 0
            &&& h.node_tree_entry_bytes == 0
            &&& h.scope_offset == 0 && h.scope_header_bytes == 0 && h.scope_slot_bytes == 0
            &&& h.scope_slot_header == 0 && h.scope_frames == 0 && h.scope_channels == 0
        }),
{
}

/// The master audio slot is the first one of the audio region, in a segment that was
/// published with such a region.
pub proof fn law_master_slot_comes_first(h: ShmSegmentHeader)
    ensures
        h.magic == 0x5C09_E006 && h.audio_slot_count > 0 ==> audio_slot(h) == Ok::<int, ShmError>(
            h.blob_offset + h.audio_offset,
        ),
        h.magic == 0x5C09_E006 && h.audio_slot_count == 0 ==> audio_slot(h) == Err::<int, ShmError>(
            ShmError::NoAudioSlots,
        ),
        h.magic != 0x5C09_E006 ==> audio_slot(h) == Err::<int, ShmError>(ShmError::BadMagicWriter),
{
}

/// A scope slot can be read exactly when the segment was published, has the slot, and
/// the slot holds three regions of four-byte samples and lies in the segment.
pub proof fn law_readable_scope_slots(h: ShmSegmentHeader, size: int, index: u32)
    ensures
        scope_fault(h, size, index) is None <==> h.magic == 0x5C09_E006 && index < h.scope_max && 0
            < h.scope_frames && 0 < h.scope_channels && h.scope_slot_header + 3 * h.scope_frames
            * h.scope_channels * 4 <= h.scope_slot_bytes && h.blob_offset + h.scope_offset
            + h.scope_header_bytes + (index + 1) * h.scope_slot_bytes <= size,
        h.magic != 0x5C09_E006 <==> scope_fault(h, size, index) == Some(ShmError::BadMagicEngine),
        index >= h.scope_max && h.magic == 0x5C09_E006 ==> scope_fault(h, size, index) == Some(
            ShmError::NoSuchScopeSlot,
        ),
        scope_fault(h, size, index) == Some(ShmError::ScopeSlotOutOfBounds) ==> size
            < h.blob_offset + h.scope_offset + h.scope_header_bytes + (index + 1)
            * h.scope_slot_bytes,
        scope_fault(h, size, index) == Some(ShmError::ScopeRegionsDontFit) ==> h.scope_slot_bytes
            < h.scope_slot_header + 3 * h.scope_frames * h.scope_channels * 4,
{
    let bytes = h.scope_slot_bytes as int;
    assert((index + 1) * bytes == index * bytes + bytes) by (nonlinear_arith);
}

/// Scope slots lie one after the other behind the region's header.
pub proof fn law_scope_slots_follow_each_other(h: ShmSegmentHeader, index: u32)
    requires
        index < u32::MAX,
    ensures
        scope_slot_offset(h, 0) == h.blob_offset + h.scope_offset + h.scope_header_bytes,
        scope_slot_offset(h, (index + 1) as u32) == scope_slot_offset(h, index)
            + h.scope_slot_bytes,
{
    let bytes = h.scope_slot_bytes as int;
    assert((index + 1) * bytes == index * bytes + bytes) by (nonlinear_arith);
}

/// The three regions of a scope slot lie one after the other, each with room for all
/// channels, and channel zero stands first in each.
pub proof fn law_scope_regions_follow_each_other(s: ScopeSlotReader)
    requires
        s.wf(),
    ensures
        s.region_of(0).offset == s.data_off,
        s.region_of(1).offset == s.region_of(0).offset + s.frames * s.channels * 4,
        s.region_of(2).offset == s.region_of(1).offset + s.frames * s.channels * 4,
        s.region_of(0).frames == s.frames && s.region_of(1).frames == s.frames
            && s.region_of(2).frames == s.frames,
{
    let f = s.frames as int;
    let c = s.channels as int;
    assert(0 * f * c * 4 == 0 && 1 * f * c * 4 == f * c * 4 && 2 * f * c * 4 == f * c * 4 + f * c
        * 4 && 0 <= f * c * 4 <= 0xffff_ffff) by (nonlinear_arith)
        requires
            0 <= f,
            0 <= c,
            f * c * 12 <= 0xffff_ffff,
    ;
}

/// A slot has news when its writer is there and its stage is one of the three and not
/// the one read last.
pub proof fn law_stages_are_news_once(s: ScopeSlotReader, state: u32, a: i32, b: i32)
    requires
        0 <= a <= 2,
        0 <= b <= 2,
        s.last_stage == a,
    ensures
        !s.has_news(1, a),
        a != b ==> s.has_news(1, b),
        state != 1 ==> !s.has_news(state, b),
        !s.has_news(1, (-1) as i32) && !s.has_news(1, 3),
        (ScopeSlotReader { last_stage: (-1) as i32, ..s }).has_news(1, b),
{
}

/// The metrics can be read exactly when the segment was published, has fields, and
/// they lie in the segment.
pub proof fn law_readable_metrics(h: ShmSegmentHeader, size: int)
    ensures
        metrics_fault(h, size) is None <==> h.magic == 0x5C09_E006 && 0 < h.metrics_field_count
            && h.blob_offset + h.metrics_offset + 4 * h.metrics_field_count <= size,
        metrics_fault(h, size) == Some(ShmError::BadMagicEngine) <==> h.magic != 0x5C09_E006,
        metrics_fault(h, size) matches Some(e) ==> e == ShmError::BadMagicEngine || e
            == ShmError::NoMetrics,
{
}

/// Every fault has its text.
pub proof fn law_faults_have_their_texts()
    ensures
        ShmError::BadMagicWriter.message() == "bad shm magic — is the writer running?"@,
        ShmError::BadMagicEngine.message() == "bad shm magic — is the engine running?"@,
        ShmError::NoAudioSlots.message() == "no audio slots"@,
        ShmError::NoSuchScopeSlot.message() == "no such scope slot"@,
        ShmError::ScopeRegionsDontFit.message()
            == "scope regions don't fit the advertised slot size"@,
        ShmError::ScopeSlotOutOfBounds.message() == "scope slot out of segment bounds"@,
        ShmError::NoMetrics.message() == "no metrics region"@,
{
}

/// A frame of a block is its samples, one for each channel.
pub proof fn law_frames_are_cut_by_channels<T>(
    block: Seq<T>,
    n: int,
    ch: int,
    f: int,
    c: int,
)
    requires
        0 <= f < n,
        0 <= c < ch,
        n * ch <= block.len(),
    ensures
        frames_of(block, n, ch).len() == n,
        frames_of(block, n, ch)[f].len() == ch,
        frames_of(block, n, ch)[f][c] == block[f * ch + c],
{
    assert(0 <= f * ch && f * ch + ch <= n * ch) by (nonlinear_arith)
        requires
            0 <= f < n,
            ch > 0,
    ;
}

/// Frame `f` of a block written behind `pos` others goes where its own number modulo
/// the ring's size says, before or behind the ring's end.
pub proof fn law_blocks_go_round_the_ring(pos: u64, cap: u32, num: u32, f: int)
    requires
        cap > 0,
        0 <= f < num,
        num <= cap,
    ensures
        ({
            let plan = plan_of(pos, cap, num);
            &&& plan.first + plan.wrap == num
            &&& f < plan.first ==> plan.slot + f == (pos + f) % cap as int
            &&& f >= plan.first ==> f - plan.first == (pos + f) % cap as int
        }),
{
    let p = pos as int;
    let c = cap as int;
    let q = p / c;
    let s = p % c;
    lemma_fundamental_div_mod(p, c);
    assert(0 <= s < c) by (nonlinear_arith)
        requires
            c > 0,
            s == p % c,
    ;
    assert(c * q == q * c) by (nonlinear_arith);
    assert((q + 1) * c == q * c + c) by (nonlinear_arith);
    if s + f < c {
        lemma_fundamental_div_mod_converse(p + f, c, q, s + f);
    } else {
        lemma_fundamental_div_mod_converse(p + f, c, q + 1, s + f - c);
    }
}

/// The window of a reader ends with the newest frame and is as long as was wanted,
/// unless the ring is shorter or less was written.
pub proof fn law_window_is_as_long_as_can_be(cap: u32, wp: u64, want: u64)
    ensures
        window_len(cap, wp, want) <= want && window_len(cap, wp, want) <= cap && window_len(
            cap,
            wp,
            want,
        ) <= wp,
        window_len(cap, wp, want) == want || window_len(cap, wp, want) == cap || window_len(
            cap,
            wp,
            want,
        ) == wp,
{
}

/// The samples of a window lie one frame apart, and from the ring's end the next one
/// is at its start.
pub proof fn law_window_goes_round_the_ring(w: Window, i: int)
    requires
        w.cap > 0,
        0 <= i,
    ensures
        (w.start + i) % w.cap as int == w.cap - 1 ==> w.index_of(i + 1) == 0,
        (w.start + i) % (w.cap as int) < w.cap - 1 ==> w.index_of(i + 1) == w.index_of(i)
            + w.channels,
        w.start % w.cap as u64 == 0 ==> w.index_of(0) == 0,
{
    let p = w.start + i;
    let c = w.cap as int;
    let ch = w.channels as int;
    let q = p / c;
    let s = p % c;
    lemma_fundamental_div_mod(p, c);
    assert(0 <= s < c) by (nonlinear_arith)
        requires
            c > 0,
            s == p % c,
    ;
    assert(c * q == q * c) by (nonlinear_arith);
    assert((q + 1) * c == q * c + c) by (nonlinear_arith);
    if s == c - 1 {
        lemma_fundamental_div_mod_converse(p + 1, c, q + 1, 0);
        assert((w.start + (i + 1)) % c == 0);
        assert(0 * ch == 0) by (nonlinear_arith);
    } else {
        lemma_fundamental_div_mod_converse(p + 1, c, q, s + 1);
        assert((s + 1) * ch == s * ch + ch) by (nonlinear_arith);
    }
}

/// A reader gets channel zero of everything that was written, in order, while the
/// ring holds it all; of more it gets the newest, as many as the ring holds.
pub proof fn law_reader_gets_what_the_ring_holds<T>(history: Seq<Seq<T>>, cap: int, want: int)
    requires
        0 < cap,
        cap <= want,
    ensures
        history.len() <= cap ==> newest_mono(history, cap, want) == history.map_values(
            |frame: Seq<T>| frame[0],
        ),
        history.len() > cap ==> newest_mono(history, cap, want) == history.skip(
            history.len() - cap,
        ).map_values(|frame: Seq<T>| frame[0]),
{
    if history.len() <= cap {
        assert(newest_mono(history, cap, want) =~= history.map_values(|frame: Seq<T>| frame[0]));
    } else {
        assert(newest_mono(history, cap, want) =~= history.skip(history.len() - cap).map_values(
            |frame: Seq<T>| frame[0],
        ));
    }
}

/// A spectrum frame is the newest 4096 samples; of fewer the last stands last, and
/// the front has none.
pub proof fn law_spectrum_frame_is_full(len: int, i: int)
    requires
        0 <= len,
        0 <= i < 4096,
    ensures
        len >= 4096 ==> frame_source(len, i) == Some(len - 4096 + i),
        len < 4096 && i < 4096 - len ==> frame_source(len, i) is None,
        len < 4096 && i >= 4096 - len ==> frame_source(len, i) == Some(i - (4096 - len)),
{
}

/// A bar sums the bins from its lower edge up to its upper one; a bar whose edges
/// meet has one bin, and one past the end the last.
pub proof fn law_bars_sum_their_bins(lo: usize, hi: usize)
    ensures
        lo < hi <= 2048 ==> bucket_bins(lo, hi) == (lo as int, hi as int),
        hi <= lo < 2048 ==> bucket_bins(lo, hi) == (lo as int, lo + 1),
        lo < 2048 < hi ==> bucket_bins(lo, hi) == (lo as int, 2048int),
        2048 <= lo ==> bucket_bins(lo, hi) == (2047int, 2048int),
{
}

/// A peak marker holds through thirty display frames without a level that reaches it,
/// and falls in every one after.
pub proof fn law_peaks_hold_thirty_frames(age: u32)
    ensures
        age < 30 ==> peak_next(age, false) == (age + 1, PeakMove::Hold),
        age >= 30 ==> peak_next(age, false) == (age + 1, PeakMove::Fall),
        peak_next(age, true) == (0int, PeakMove::Raise),
{
}

} // verus!
