use sonic_oxide::audio::metrics_idx;
use sonic_oxide::audio::ring::{ScopeReader, ScopeWriter, ShmAudioBuffer};
use sonic_oxide::audio::segment::{
    MetricsReader, ScopeSlotReader, ShmError, ShmSegmentHeader, BLOB_OFFSET, SEGMENT_MAGIC,
    SHM_AUDIO_CHANNELS, SHM_AUDIO_FRAMES,
};
use sonic_oxide::audio::spectrum::{
    bucket_count, bucket_range, clamp_bin, edges_are_stale, frame_sample, peak_step, PeakMove,
    FRAME_SAMPLES, PEAK_HOLD_FRAMES, SPECTRUM_BINS,
};
use sonic_oxide::audio::AudioProcessor;

fn write_const(w: &mut ScopeWriter<f32>, frames: u32, v0: f32) {
    let ch = SHM_AUDIO_CHANNELS as usize;
    let mut block = vec![0f32; frames as usize * ch];
    for f in 0..frames as usize {
        block[f * ch] = v0;
    }
    w.write_interleaved(&block, frames);
}

fn reader() -> ScopeReader {
    ScopeReader::open(&ScopeWriter::<f32>::header()).unwrap()
}

#[test]
fn ring_roundtrip() {
    let mut w = ScopeWriter::create(0f32);
    write_const(&mut w, 256, 0.5);

    let r = reader();
    assert!(r.is_active(&w.slot0));
    let mut out = Vec::new();
    assert!(r.read_latest_mono(&w.slot0, &mut out, 1024));
    assert_eq!(out.len(), 256);
    assert!(out.iter().all(|&s| (s - 0.5).abs() < 1e-6), "got {out:?}");
}

#[test]
fn ring_reports_latest_window() {
    let mut w = ScopeWriter::create(0f32);
    write_const(&mut w, 100, 1.0);
    write_const(&mut w, 100, 2.0);

    let mut out = Vec::new();
    assert!(reader().read_latest_mono(&w.slot0, &mut out, 50));
    assert_eq!(out.len(), 50);
    assert!(out.iter().all(|&s| (s - 2.0).abs() < 1e-6), "got {out:?}");
}

#[test]
fn ring_wraps_past_capacity() {
    let mut w = ScopeWriter::create(0f32);
    let cap = SHM_AUDIO_FRAMES;
    let chunk = 1000u32;
    let total = cap + 1000;
    let mut n = 0u32;
    let mut v = 0f32;
    while n < total {
        let f = chunk.min(total - n);
        write_const(&mut w, f, v);
        n += f;
        v += 1.0;
    }
    assert_eq!(w.writer_position(), total as u64);

    let mut out = Vec::new();
    assert!(reader().read_latest_mono(&w.slot0, &mut out, 8));
    assert_eq!(out.len(), 8);
    let last = v - 1.0;
    assert!(out.iter().all(|&s| (s - last).abs() < 1e-6), "out={out:?} last={last}");
}

#[test]
fn a_window_across_the_seam_is_in_order() {
    let mut ring = ShmAudioBuffer::activate(0u32, 8, 1, 5);
    ring.write_interleaved(&[1, 2, 3], 3);
    ring.write_interleaved(&[4, 5, 6, 7], 4);
    let mut out = Vec::new();
    assert!(ring.read_latest_mono(&mut out, 9));
    assert_eq!(out, vec![3, 4, 5, 6, 7]);
    assert_eq!(ring.sample_rate(), 8);
    ring.deactivate();
    assert!(!ring.read_latest_mono(&mut out, 9));
    assert!(out.is_empty());
}

fn slot_header(frames: u32, channels: u32) -> (ShmSegmentHeader, u64) {
    let slot_header = 16u32;
    let slot_bytes = slot_header + 3 * frames * channels * 4;
    let mut h = ShmSegmentHeader::zeroed();
    h.magic = SEGMENT_MAGIC;
    h.blob_offset = BLOB_OFFSET;
    h.scope_offset = 1024;
    h.scope_max = 1;
    h.scope_header_bytes = 16;
    h.scope_slot_bytes = slot_bytes;
    h.scope_slot_header = slot_header;
    h.scope_frames = frames;
    h.scope_channels = channels;
    (h, BLOB_OFFSET as u64 + 1024 + 16 + slot_bytes as u64)
}

#[test]
fn scope_slot_reader_pulls_published_stages() {
    let frames = 64u32;
    let channels = 2u32;
    let (h, size) = slot_header(frames, channels);
    let mut samples = vec![0f32; (3 * frames * channels) as usize];
    for i in 0..frames as usize {
        samples[(frames * channels) as usize + i] = 0.25;
    }

    let mut r = ScopeSlotReader::open(&h, size, 0).unwrap();
    assert!(ScopeSlotReader::is_active(1));
    let mut out = Vec::new();
    assert!(r.pull_latest_mono(1, 1, &samples, &mut out), "expected a publish on first pull");
    assert_eq!(out.len(), frames as usize);
    assert!(out.iter().all(|&s| (s - 0.25).abs() < 1e-6), "got {out:?}");

    assert!(!r.pull_latest_mono(1, 1, &samples, &mut out));
    assert_eq!(out.len(), frames as usize);

    assert!(ScopeSlotReader::open(&h, size, 1).is_err());
}

#[test]
fn a_header_whose_regions_do_not_fit_is_refused() {
    let (h, size) = slot_header(64, 2);
    assert_eq!(ScopeSlotReader::open(&h, size, 1).unwrap_err(), ShmError::NoSuchScopeSlot);
    assert_eq!(ScopeSlotReader::open(&h, size - 1, 0).unwrap_err(), ShmError::ScopeSlotOutOfBounds);
    let mut fat = h;
    fat.scope_frames = 65;
    assert_eq!(ScopeSlotReader::open(&fat, size, 0).unwrap_err(), ShmError::ScopeRegionsDontFit);
    let mut bare = h;
    bare.magic = 0;
    assert_eq!(ScopeSlotReader::open(&bare, size, 0).unwrap_err(), ShmError::BadMagicEngine);
    assert_eq!(ScopeReader::open(&bare).unwrap_err(), ShmError::BadMagicWriter);
    assert_eq!(ScopeReader::open(&h).unwrap_err(), ShmError::NoAudioSlots);
    assert_eq!(MetricsReader::open(&h, size).unwrap_err(), ShmError::NoMetrics);
    assert_eq!(MetricsReader::open(&bare, size).unwrap_err(), ShmError::BadMagicEngine);
    assert_eq!(ShmSegmentHeader::from_words(&h.words()), h);
}

#[test]
fn metrics_reader_reads_published_fields() {
    let count = 37u32;
    let mut h = ShmSegmentHeader::zeroed();
    h.magic = SEGMENT_MAGIC;
    h.blob_offset = BLOB_OFFSET;
    h.metrics_offset = 512;
    h.metrics_field_count = count;
    let size = BLOB_OFFSET as u64 + 512 + count as u64 * 4;
    let mut fields = vec![0u32; count as usize];
    fields[metrics_idx::PROCESS_COUNT] = 4242;
    fields[metrics_idx::LINK_TEMPO_MBPM] = 123_500;
    fields[metrics_idx::LINK_PEERS] = 2;

    let r = MetricsReader::open(&h, size).unwrap();
    assert_eq!(r.field_count(), count);
    assert_eq!(r.get(&fields, metrics_idx::PROCESS_COUNT), Some(4242));
    assert_eq!(r.get(&fields, metrics_idx::LINK_PEERS), Some(2));
    assert_eq!(r.link_bpm(&fields).map(|m| m as f64 / 1000.0), Some(123.5));
    assert_eq!(r.get(&fields, 999), None);
    assert_eq!(r.field_offset(1), Some(BLOB_OFFSET as u64 + 512 + 4));
}

#[test]
fn facade_reads_a_live_ring_and_reports_disconnected_states() {
    let mut w = ScopeWriter::create(0f32);
    let mut p = AudioProcessor::default();
    assert!(!p.is_active(&w.slot0));
    let mut out = Vec::new();
    assert!(!p.read_scope_mono(&w.slot0, &mut out, 64));
    assert!(p.connect(&ShmSegmentHeader::zeroed()).is_err());

    let block = vec![0.25f32; 128 * SHM_AUDIO_CHANNELS as usize];
    w.write_interleaved(&block, 128);
    p.connect(&ScopeWriter::<f32>::header()).unwrap();
    assert!(p.is_active(&w.slot0));
    assert!(p.read_scope_mono(&w.slot0, &mut out, 64));
    assert_eq!(out.len(), 64);
    assert!(out.iter().all(|&s| (s - 0.25).abs() < 1e-6));
}

#[test]
fn a_frame_holds_the_newest_samples() {
    assert_eq!(frame_sample(5000, FRAME_SAMPLES - 1), Some(4999));
    assert_eq!(frame_sample(5000, 0), Some(5000 - FRAME_SAMPLES));
    assert_eq!(frame_sample(10, 0), None);
    assert_eq!(frame_sample(10, FRAME_SAMPLES - 10), Some(0));
}

#[test]
fn bars_cover_bins_that_are_there() {
    assert_eq!(bucket_count(1), 4);
    assert_eq!(bucket_count(64), 64);
    assert_eq!(bucket_count(1000), 256);
    assert_eq!(bucket_range(3, 3), (3, 4));
    assert_eq!(bucket_range(3, 9), (3, 9));
    assert_eq!(bucket_range(5000, 6000), (SPECTRUM_BINS - 1, SPECTRUM_BINS));
    assert_eq!(clamp_bin(9999), SPECTRUM_BINS);
    assert!(edges_are_stale((64, 48000), true, 64, 44100));
    assert!(!edges_are_stale((64, 48000), true, 64, 48000));
}

#[test]
fn a_peak_holds_and_then_falls() {
    assert_eq!(peak_step(12, true), (0, PeakMove::Raise));
    assert_eq!(peak_step(0, false), (1, PeakMove::Hold));
    assert_eq!(peak_step(PEAK_HOLD_FRAMES - 1, false), (PEAK_HOLD_FRAMES, PeakMove::Hold));
    assert_eq!(peak_step(PEAK_HOLD_FRAMES, false), (PEAK_HOLD_FRAMES + 1, PeakMove::Fall));
}
