use sokol::vorbis::SAudioVorbis;
use sokol::vorbis::SAudioVorbisError;
use sokol::vorbis::SAudioVorbisFrame;
use sokol::vorbis::SAudioVorbisInfo;
use sokol::vorbis::SAudioVorbisStep;
use sokol::vorbis::saudio_vorbis_close;
use sokol::vorbis::saudio_vorbis_decode_begin;
use sokol::vorbis::saudio_vorbis_decode_feed;
use sokol::vorbis::saudio_vorbis_end_of_stream;
use sokol::vorbis::saudio_vorbis_mix;
use sokol::vorbis::saudio_vorbis_open;
use sokol::vorbis::saudio_vorbis_rewind;

fn info(channels: usize, sample_rate: u32) -> SAudioVorbisInfo {
    SAudioVorbisInfo { sample_rate, channels, max_frame_size: 4096 }
}

/// A deterministic stand-in for the native frame decoder: `header` bytes of
/// framing are skipped as a resynchronization, then each fetch consumes
/// `bytes_per_chunk` bytes and yields `chunk` sample-frames (the last chunk
/// may be shorter), with sample values derived from the absolute frame index.
struct FakeDecoder {
    channels: usize,
    header: usize,
    bytes_per_chunk: usize,
    chunk: usize,
    total_frames: usize,
}

fn sample_value(frame: usize, channel: usize, channels: usize) -> u32 {
    (frame * channels + channel) as u32
}

impl FakeDecoder {
    fn data_len(&self) -> usize {
        let chunks = self.total_frames.div_ceil(self.chunk);
        self.header + chunks * self.bytes_per_chunk
    }

    fn open_stream(&self) -> SAudioVorbis {
        let data = vec![0u8; self.data_len()];
        saudio_vorbis_open(data, true, self.header, 0, info(self.channels, 44100)).unwrap()
    }

    fn fetch(&self, read_pos: usize) -> SAudioVorbisFrame {
        if read_pos < self.header {
            return SAudioVorbisFrame { consumed: self.header - read_pos, samples: vec![] };
        }
        let index = (read_pos - self.header) / self.bytes_per_chunk;
        let start = index * self.chunk;
        assert!(start < self.total_frames, "fetch past the last chunk");
        let count = self.chunk.min(self.total_frames - start);
        let mut samples = Vec::new();
        for c in 0..self.channels {
            let mut row = Vec::new();
            for j in 0..count {
                row.push(sample_value(start + j, c, self.channels));
            }
            samples.push(row);
        }
        SAudioVorbisFrame { consumed: self.bytes_per_chunk, samples }
    }
}

/// The driver loop around one `decode` call, as an application runs it.
fn decode(stream: &mut SAudioVorbis, dec: &FakeDecoder, out: &mut Vec<u32>, channels: usize) -> usize {
    let mut step = saudio_vorbis_decode_begin(stream, out, channels).unwrap();
    loop {
        match step {
            SAudioVorbisStep::Done(frames) => return frames,
            SAudioVorbisStep::Fetch(pos) => {
                let frame = dec.fetch(stream.read_pos());
                step = saudio_vorbis_decode_feed(stream, &frame, out, pos, channels).unwrap();
            },
        }
    }
}

#[test]
fn open_populates_stream() {
    let stream = saudio_vorbis_open(vec![7u8; 100], true, 30, 0, info(2, 44100)).unwrap();
    assert_eq!(stream.read_pos(), 30);
    assert_eq!(stream.carry_samples(), 0);
    assert_eq!(stream.info.sample_rate, 44100);
    assert_eq!(stream.info.channels, 2);
    assert_eq!(stream.info.max_frame_size, 4096);
    assert!(!saudio_vorbis_end_of_stream(&stream));
    saudio_vorbis_close(stream);
}

#[test]
fn open_reports_insufficient_buffer() {
    let r = saudio_vorbis_open(vec![0u8; 4], true, 0, 1, info(2, 44100));
    assert!(matches!(r, Err(SAudioVorbisError::InsufficientBuffer)));
}

#[test]
fn open_reports_decoder_failure() {
    let r = saudio_vorbis_open(vec![0u8; 4], true, 0, 4, info(2, 44100));
    assert!(matches!(r, Err(SAudioVorbisError::DecodeOpenFailed)));
    let r = saudio_vorbis_open(vec![0u8; 4], false, 0, 0, info(2, 44100));
    assert!(matches!(r, Err(SAudioVorbisError::DecodeOpenFailed)));
}

#[test]
fn mix_interleaves_exactly() {
    let decoded = vec![vec![1u32, 2, 3], vec![10u32, 20, 30]];
    let mut out = vec![0u32; 10];
    let (fit, new_pos) = saudio_vorbis_mix(&decoded, &mut out, 0, 2);
    assert!(fit);
    assert_eq!(new_pos, 6);
    assert_eq!(out, vec![1, 10, 2, 20, 3, 30, 0, 0, 0, 0]);
}

#[test]
fn mix_partial_write_caps_at_capacity() {
    let decoded = vec![vec![1u32, 2, 3], vec![10u32, 20, 30]];
    let mut out = vec![0u32; 4];
    let (fit, new_pos) = saudio_vorbis_mix(&decoded, &mut out, 0, 2);
    assert!(!fit);
    assert_eq!(new_pos, 4);
    assert_eq!(out, vec![1, 10, 2, 20]);
}

#[test]
fn mix_never_overruns_the_buffer() {
    let decoded = vec![vec![1u32, 2, 3], vec![10u32, 20, 30]];
    let mut out = vec![9u32; 7];
    let (fit, new_pos) = saudio_vorbis_mix(&decoded, &mut out, 2, 2);
    assert!(!fit);
    assert_eq!(new_pos, 6);
    assert_eq!(out.len(), 7);
    assert_eq!(out, vec![9, 9, 1, 10, 2, 20, 9]);
}

#[test]
fn stereo_stream_decodes_in_twenty_two_calls() {
    // a 2-channel, 44100 Hz stream of 88200 total frames against a
    // 4096-frame destination: ceil(88200 / 4096) = 22 calls, the last one
    // returning 88200 - 21 * 4096 frames
    let dec = FakeDecoder {
        channels: 2,
        header: 10,
        bytes_per_chunk: 10,
        chunk: 1024,
        total_frames: 88200,
    };
    let mut stream = dec.open_stream();
    let mut out = vec![0u32; 8192];
    let mut calls = 0usize;
    let mut total = 0usize;
    let mut last = 0usize;
    while !saudio_vorbis_end_of_stream(&stream) {
        let frames = decode(&mut stream, &dec, &mut out, 2);
        calls += 1;
        total += frames;
        last = frames;
        if calls < 22 {
            assert_eq!(frames, 4096);
        }
    }
    assert_eq!(calls, 22);
    assert_eq!(total, 88200);
    assert_eq!(last, 88200 - 21 * 4096);
    assert!(saudio_vorbis_end_of_stream(&stream));
    assert_eq!(stream.carry_samples(), 0);
    // once the end of the stream is reached, further calls return nothing
    assert_eq!(decode(&mut stream, &dec, &mut out, 2), 0);
}

#[test]
fn small_destination_is_fed_from_carry_over() {
    // the decoder's native frame is 512 sample-frames, the destination holds
    // only 8: the call delivers 8 and keeps the rest carried over
    let dec = FakeDecoder {
        channels: 2,
        header: 4,
        bytes_per_chunk: 8,
        chunk: 512,
        total_frames: 1024,
    };
    let mut stream = dec.open_stream();
    let mut out = vec![0u32; 16];
    let frames = decode(&mut stream, &dec, &mut out, 2);
    assert_eq!(frames, 8);
    for i in 0..8 {
        assert_eq!(out[2 * i], sample_value(i, 0, 2));
        assert_eq!(out[2 * i + 1], sample_value(i, 1, 2));
    }
    assert_eq!(stream.carry_samples(), (512 - 8) * 2);
    // the next call continues with frame 8, fed from the carry-over,
    // without re-decoding
    let mut big = vec![0u32; 4096];
    let frames = decode(&mut stream, &dec, &mut big, 2);
    assert_eq!(frames, 1024 - 8);
    for i in 0..(1024 - 8) {
        assert_eq!(big[2 * i], sample_value(8 + i, 0, 2));
        assert_eq!(big[2 * i + 1], sample_value(8 + i, 1, 2));
    }
    assert!(saudio_vorbis_end_of_stream(&stream));
}

#[test]
fn rewind_mid_stream_restarts_from_the_first_frame() {
    let dec = FakeDecoder {
        channels: 2,
        header: 6,
        bytes_per_chunk: 12,
        chunk: 100,
        total_frames: 1000,
    };
    let mut stream = dec.open_stream();
    let mut out = vec![0u32; 240];
    let first = {
        let frames = decode(&mut stream, &dec, &mut out, 2);
        assert_eq!(frames, 120);
        out.clone()
    };
    // a few more calls, then rewind mid-stream
    let _ = decode(&mut stream, &dec, &mut out, 2);
    let _ = decode(&mut stream, &dec, &mut out, 2);
    saudio_vorbis_rewind(&mut stream);
    assert_eq!(stream.read_pos(), 0);
    assert_eq!(stream.carry_samples(), 0);
    let mut again = vec![0u32; 240];
    let frames = decode(&mut stream, &dec, &mut again, 2);
    assert_eq!(frames, 120);
    // output frame 0 equals the very first decoded frame after open
    assert_eq!(again[0], first[0]);
    assert_eq!(again[1], first[1]);
    assert_eq!(again, first);
}

#[test]
fn rewound_stream_decodes_identically_to_a_fresh_one() {
    let dec = FakeDecoder {
        channels: 2,
        header: 3,
        bytes_per_chunk: 5,
        chunk: 64,
        total_frames: 300,
    };
    let mut rewound = dec.open_stream();
    let mut out = vec![0u32; 150];
    while !saudio_vorbis_end_of_stream(&rewound) {
        let _ = decode(&mut rewound, &dec, &mut out, 2);
    }
    saudio_vorbis_rewind(&mut rewound);
    let mut fresh = dec.open_stream();
    let mut a = vec![0u32; 150];
    let mut b = vec![0u32; 150];
    loop {
        let fa = decode(&mut rewound, &dec, &mut a, 2);
        let fb = decode(&mut fresh, &dec, &mut b, 2);
        assert_eq!(fa, fb);
        assert_eq!(a, b);
        if saudio_vorbis_end_of_stream(&fresh) && fresh.carry_samples() == 0 {
            break;
        }
    }
    assert!(saudio_vorbis_end_of_stream(&rewound));
}

#[test]
fn every_decoded_sample_is_delivered_exactly_once() {
    // buffer and chunk sizes that do not divide each other, so carry-over is
    // exercised on every call; the delivered stream must still be exactly
    // the decoded stream, and the frame counts must add up
    let dec = FakeDecoder {
        channels: 3,
        header: 7,
        bytes_per_chunk: 11,
        chunk: 17,
        total_frames: 230,
    };
    let mut stream = dec.open_stream();
    let mut out = vec![0u32; 3 * 10 + 2]; // room for 10 frames, plus slack
    let mut delivered: Vec<u32> = Vec::new();
    let mut total = 0usize;
    while !(saudio_vorbis_end_of_stream(&stream) && stream.carry_samples() == 0) {
        let frames = decode(&mut stream, &dec, &mut out, 3);
        assert!(frames * 3 <= out.len());
        delivered.extend_from_slice(&out[0..frames * 3]);
        total += frames;
    }
    assert_eq!(total, 230);
    let mut expected: Vec<u32> = Vec::new();
    for i in 0..230 {
        for c in 0..3 {
            expected.push(sample_value(i, c, 3));
        }
    }
    assert_eq!(delivered, expected);
}

#[test]
fn channel_mismatch_is_reported_at_begin() {
    let dec = FakeDecoder {
        channels: 2,
        header: 2,
        bytes_per_chunk: 4,
        chunk: 16,
        total_frames: 32,
    };
    let mut stream = dec.open_stream();
    let mut out = vec![0u32; 64];
    let r = saudio_vorbis_decode_begin(&mut stream, &mut out, 1);
    assert!(matches!(r, Err(SAudioVorbisError::ChannelMismatch)));
}

#[test]
fn channel_mismatch_is_reported_at_feed() {
    let mut stream = saudio_vorbis_open(vec![0u8; 50], true, 0, 0, info(2, 44100)).unwrap();
    let mut out = vec![0u32; 64];
    let frame = SAudioVorbisFrame { consumed: 10, samples: vec![vec![1u32, 2, 3]] };
    let r = saudio_vorbis_decode_feed(&mut stream, &frame, &mut out, 0, 2);
    assert!(matches!(r, Err(SAudioVorbisError::ChannelMismatch)));
    // nothing was consumed or written
    assert_eq!(stream.read_pos(), 0);
    assert_eq!(out, vec![0u32; 64]);
}

#[test]
fn stalled_decoder_ends_the_call() {
    let mut stream = saudio_vorbis_open(vec![0u8; 50], true, 0, 0, info(2, 44100)).unwrap();
    let mut out = vec![0u32; 64];
    let frame = SAudioVorbisFrame { consumed: 0, samples: vec![] };
    let r = saudio_vorbis_decode_feed(&mut stream, &frame, &mut out, 0, 2).unwrap();
    assert!(matches!(r, SAudioVorbisStep::Done(0)));
    assert_eq!(stream.read_pos(), 0);
}

#[test]
fn resynchronization_skip_advances_without_output() {
    let mut stream = saudio_vorbis_open(vec![0u8; 50], true, 0, 0, info(2, 44100)).unwrap();
    let mut out = vec![0u32; 64];
    let frame = SAudioVorbisFrame { consumed: 20, samples: vec![] };
    let r = saudio_vorbis_decode_feed(&mut stream, &frame, &mut out, 0, 2).unwrap();
    assert!(matches!(r, SAudioVorbisStep::Fetch(0)));
    assert_eq!(stream.read_pos(), 20);
    assert_eq!(out, vec![0u32; 64]);
}

#[test]
fn end_of_stream_is_exactly_all_bytes_consumed() {
    let mut stream = saudio_vorbis_open(vec![0u8; 30], true, 10, 0, info(2, 44100)).unwrap();
    assert!(!saudio_vorbis_end_of_stream(&stream));
    let mut out = vec![0u32; 8];
    let frame = SAudioVorbisFrame { consumed: 20, samples: vec![] };
    let r = saudio_vorbis_decode_feed(&mut stream, &frame, &mut out, 0, 2).unwrap();
    assert!(matches!(r, SAudioVorbisStep::Done(0)));
    assert!(saudio_vorbis_end_of_stream(&stream));
    // at end of stream, a whole call returns 0 and changes nothing
    let r = saudio_vorbis_decode_begin(&mut stream, &mut out, 2).unwrap();
    assert!(matches!(r, SAudioVorbisStep::Done(0)));
    assert_eq!(stream.read_pos(), 30);
    assert_eq!(out, vec![0u32; 8]);
}

#[test]
fn empty_input_is_at_end_of_stream_from_the_start() {
    let dec = FakeDecoder {
        channels: 2,
        header: 0,
        bytes_per_chunk: 1,
        chunk: 1,
        total_frames: 0,
    };
    let stream = saudio_vorbis_open(vec![], true, 0, 0, info(2, 44100)).unwrap();
    assert!(saudio_vorbis_end_of_stream(&stream));
    let mut stream = stream;
    let mut out = vec![0u32; 8];
    assert_eq!(decode(&mut stream, &dec, &mut out, 2), 0);
    assert_eq!(out, vec![0u32; 8]);
}

#[test]
fn zero_capacity_destination_returns_zero_as_backpressure() {
    let dec = FakeDecoder {
        channels: 2,
        header: 4,
        bytes_per_chunk: 8,
        chunk: 16,
        total_frames: 32,
    };
    let mut stream = dec.open_stream();
    let mut out: Vec<u32> = vec![];
    assert_eq!(decode(&mut stream, &dec, &mut out, 2), 0);
    // a destination shorter than one sample-frame is backpressure too
    let mut out = vec![0u32; 1];
    assert_eq!(decode(&mut stream, &dec, &mut out, 2), 0);
    assert!(!saudio_vorbis_end_of_stream(&stream));
}

#[test]
fn rewind_clears_pending_carry_over() {
    let dec = FakeDecoder {
        channels: 2,
        header: 4,
        bytes_per_chunk: 8,
        chunk: 512,
        total_frames: 512,
    };
    let mut stream = dec.open_stream();
    let mut out = vec![0u32; 16];
    let _ = decode(&mut stream, &dec, &mut out, 2);
    assert!(stream.carry_samples() > 0);
    saudio_vorbis_rewind(&mut stream);
    assert_eq!(stream.carry_samples(), 0);
    assert_eq!(stream.read_pos(), 0);
    assert!(!saudio_vorbis_end_of_stream(&stream));
}
