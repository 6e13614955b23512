//! Streaming decoder state for Vorbis audio.
//!
//! The native frame decoder (a pull/push style "pushdata" API) and the file
//! mapping live outside this crate; the driver that owns them feeds every
//! decoder response into the functions here as plain values.  Everything that
//! decides something — error classification at open time, end-of-stream,
//! rewinding, carry-over of undelivered samples, and the channel-interleaving
//! mix into the caller's output buffer — is verified here.
//!
//! Samples are carried as opaque 32-bit words: this module never interprets a
//! sample's numeric value, it only moves samples, so the driver may store any
//! 32-bit sample encoding in them.

use vstd::prelude::*;

verus! {

/// Immutable stream metadata captured when the stream is opened.
#[derive(Clone, Copy, PartialEq, Eq, Structural, Debug)]
pub struct SAudioVorbisInfo {
    pub sample_rate: u32,
    pub channels: usize,
    pub max_frame_size: usize,
}

/// The ways opening or decoding a stream can fail.
#[derive(Clone, Copy, PartialEq, Eq, Structural, Debug)]
pub enum SAudioVorbisError {
    /// The encoded file could not be opened or mapped.
    IoError,
    /// The native decoder rejected the header or stream.
    DecodeOpenFailed,
    /// The native decoder asked for more bytes than were mapped.
    InsufficientBuffer,
    /// The destination channel count differs from the stream's channel count.
    ChannelMismatch,
}

/// The decoder's "no error" code.
pub const VORBIS_NO_ERROR: i32 = 0;
/// The decoder's "need more data" code.
pub const VORBIS_NEED_MORE_DATA: i32 = 1;

/// Mathematical model of a stream handle.
#[verifier::ext_equal]
pub struct StreamModel {
    /// The encoded file's bytes.
    pub data: Seq<u8>,
    /// Byte offset of the first byte not yet handed to the decoder.
    pub read_pos: int,
    /// Interleaved samples decoded earlier but not yet delivered.
    pub carry: Seq<u32>,
    /// Stream metadata.
    pub info: SAudioVorbisInfo,
}

/// Well-formedness of a stream model.
pub open spec fn stream_wf(s: StreamModel) -> bool {
    &&& 0 <= s.read_pos <= s.data.len()
    &&& s.info.channels >= 1
    &&& s.carry.len() as int % (s.info.channels as int) == 0
}

/// A multiple of the channel count stays a multiple under the arithmetic the
/// functions below perform.
pub proof fn lemma_mod_zero(c: int)
    requires
        c >= 1,
    ensures
        0int % c == 0,
{
    assert(0int % c == 0) by (nonlinear_arith)
        requires
            c >= 1,
    ;
}

/// The model of a stream immediately after `rewind`: nothing read, nothing
/// carried.
pub open spec fn initial_model(data: Seq<u8>, info: SAudioVorbisInfo) -> StreamModel {
    StreamModel { data, read_pos: 0, carry: Seq::empty(), info }
}

/// A stream handle: the encoded bytes, the read position, the carry-over
/// samples owned by the handle, and the stream metadata.
pub struct SAudioVorbis {
    data: Vec<u8>,
    read_pos: usize,
    carry: Vec<u32>,
    pub info: SAudioVorbisInfo,
}

impl View for SAudioVorbis {
    type V = StreamModel;

    closed spec fn view(&self) -> StreamModel {
        StreamModel {
            data: self.data@,
            read_pos: self.read_pos as int,
            carry: self.carry@,
            info: self.info,
        }
    }
}

impl SAudioVorbis {
    /// The handle is well formed.
    pub open spec fn wf(&self) -> bool {
        stream_wf(self@)
    }

    /// The encoded bytes, for the driver to hand to the decoder.
    pub fn data(&self) -> (r: &Vec<u8>)
        ensures
            r@ == self@.data,
    {
        &self.data
    }

    /// Byte offset of the first byte not yet handed to the decoder.
    pub fn read_pos(&self) -> (r: usize)
        ensures
            r == self@.read_pos,
    {
        self.read_pos
    }

    /// How many undelivered carry-over samples the handle holds.
    pub fn carry_samples(&self) -> (r: usize)
        ensures
            r == self@.carry.len(),
    {
        self.carry.len()
    }
}

/// The per-channel sample rows of one decoded frame, as mathematical
/// sequences.
pub open spec fn channels_view(d: Seq<Vec<u32>>) -> Seq<Seq<u32>> {
    d.map_values(|v: Vec<u32>| v@)
}

/// How many samples each channel row holds (rows are equally long in a
/// well-formed frame).
pub open spec fn row_len(src: Seq<Seq<u32>>) -> int {
    if src.len() == 0 {
        0
    } else {
        src[0].len() as int
    }
}

/// Every channel row holds the same number of samples.
pub open spec fn channels_wf(src: Seq<Seq<u32>>) -> bool {
    forall|c: int| 0 <= c < src.len() ==> (#[trigger] src[c]).len() == row_len(src)
}

/// Channel interleaving: sample `i` of channel `c` stands at slot
/// `i * channels + c` (frame-major, channel-minor).
pub open spec fn interleave(src: Seq<Seq<u32>>) -> Seq<u32> {
    Seq::new(
        (row_len(src) * (src.len() as int)) as nat,
        |j: int| src[j % (src.len() as int)][j / (src.len() as int)],
    )
}

/// Where sample `i` of channel `c` stands in the interleaving.
pub proof fn lemma_interleave_index(src: Seq<Seq<u32>>, i: int, c: int)
    requires
        channels_wf(src),
        src.len() >= 1,
        0 <= i < row_len(src),
        0 <= c < src.len(),
    ensures
        0 <= i * (src.len() as int) + c < interleave(src).len(),
        interleave(src)[i * (src.len() as int) + c] == src[c][i],
{
    let cc = src.len() as int;
    assert(0 <= i * cc + c && i * cc + c < row_len(src) * cc) by (nonlinear_arith)
        requires
            0 <= i < row_len(src),
            0 <= c < cc,
            cc >= 1,
    ;
    vstd::arithmetic::div_mod::lemma_fundamental_div_mod_converse(i * cc + c, cc, i, c);
}

/// One response of the native frame decoder, as plain values: how many input
/// bytes the decoder consumed, and one sample row per channel.  An empty
/// `samples` (or empty rows) is a response that produced no audio.
pub struct SAudioVorbisFrame {
    pub consumed: usize,
    pub samples: Vec<Vec<u32>>,
}

impl SAudioVorbisFrame {
    /// The frame's channel rows as sequences.
    pub open spec fn rows(&self) -> Seq<Seq<u32>> {
        channels_view(self.samples@)
    }

    /// The rows are equally long.
    pub open spec fn wf(&self) -> bool {
        channels_wf(self.rows())
    }
}

/// How many sample-frames of `src` a mix into a buffer of `out_len` slots at
/// offset `pos` with `c` channels delivers: as many as exist, capped by the
/// whole frames that still fit.
pub open spec fn mix_k(src: Seq<Seq<u32>>, out_len: int, pos: int, c: int) -> int {
    vstd::math::min(row_len(src), (out_len - pos) / c)
}

/// Whether the whole frame fits.
pub open spec fn mix_fits(src: Seq<Seq<u32>>, out_len: int, pos: int, c: int) -> bool {
    row_len(src) <= (out_len - pos) / c
}

/// The output buffer after the mix: unchanged except that the delivered
/// prefix of the interleaving stands at `pos`.
pub open spec fn mix_out(src: Seq<Seq<u32>>, out: Seq<u32>, pos: int, c: int) -> Seq<u32> {
    let k = mix_k(src, out.len() as int, pos, c);
    out.subrange(0, pos) + interleave(src).take(k * c) + out.subrange(
        pos + k * c,
        out.len() as int,
    )
}

/// The write offset after the mix.
pub open spec fn mix_new_pos(src: Seq<Seq<u32>>, out_len: int, pos: int, c: int) -> int {
    pos + mix_k(src, out_len, pos, c) * c
}

/// A whole number of frames never outgrows the room it was capped to.
pub proof fn lemma_mix_bounds(src: Seq<Seq<u32>>, out_len: int, pos: int, c: int)
    requires
        c >= 1,
        0 <= pos <= out_len,
    ensures
        0 <= mix_k(src, out_len, pos, c),
        0 <= mix_new_pos(src, out_len, pos, c) <= out_len,
{
    let k = mix_k(src, out_len, pos, c);
    let room = (out_len - pos) / c;
    vstd::arithmetic::div_mod::lemma_fundamental_div_mod(out_len - pos, c);
    vstd::arithmetic::div_mod::lemma_mod_bound(out_len - pos, c);
    assert(k * c <= room * c) by (nonlinear_arith)
        requires
            0 <= k <= room,
            c >= 1,
    ;
}

/// Mixes one decoded frame into the interleaved output buffer, starting at
/// `output_pos`: sample `i` of channel `c` goes to slot
/// `output_pos + i * output_channels + c`.  Only as many whole sample-frames
/// are written as fit; the first component of the result tells whether the
/// whole frame fit, the second is the new write offset.
#[verifier::loop_isolation(false)]
pub fn saudio_vorbis_mix(
    decoded: &Vec<Vec<u32>>,
    output_buffer: &mut Vec<u32>,
    output_pos: usize,
    output_channels: usize,
) -> (r: (bool, usize))
    requires
        output_channels >= 1,
        decoded@.len() == output_channels,
        channels_wf(channels_view(decoded@)),
        output_pos <= old(output_buffer)@.len(),
    ensures
        final(output_buffer)@.len() == old(output_buffer)@.len(),
        final(output_buffer)@ == mix_out(
            channels_view(decoded@),
            old(output_buffer)@,
            output_pos as int,
            output_channels as int,
        ),
        r.0 == mix_fits(
            channels_view(decoded@),
            old(output_buffer)@.len() as int,
            output_pos as int,
            output_channels as int,
        ),
        r.1 == mix_new_pos(
            channels_view(decoded@),
            old(output_buffer)@.len() as int,
            output_pos as int,
            output_channels as int,
        ),
        output_pos <= r.1 <= old(output_buffer)@.len(),
{
    let ghost src = channels_view(decoded@);
    let src_frames: usize = decoded[0].len();
    let room: usize = (output_buffer.len() - output_pos) / output_channels;
    let k: usize = if src_frames <= room {
        src_frames
    } else {
        room
    };
    proof {
        assert(row_len(src) == src_frames);
        lemma_mix_bounds(
            src,
            output_buffer@.len() as int,
            output_pos as int,
            output_channels as int,
        );
    }
    let mut i: usize = 0;
    let mut dst: usize = output_pos;
    while i < k
        invariant
            0 <= i <= k,
            dst == output_pos + i * output_channels,
            output_buffer@.len() == old(output_buffer)@.len(),
            forall|j: int| 0 <= j < output_pos ==> output_buffer@[j] == old(output_buffer)@[j],
            forall|j: int|
                dst <= j < output_buffer@.len() ==> output_buffer@[j] == old(output_buffer)@[j],
            forall|j: int|
                0 <= j < i * output_channels ==> output_buffer@[output_pos + j] == interleave(
                    src,
                )[j],
        decreases k - i,
    {
        let mut c: usize = 0;
        while c < output_channels
            invariant
                0 <= i < k,
                0 <= c <= output_channels,
                dst == output_pos + i * output_channels + c,
                output_buffer@.len() == old(output_buffer)@.len(),
                forall|j: int| 0 <= j < output_pos ==> output_buffer@[j] == old(output_buffer)@[j],
                forall|j: int|
                    dst <= j < output_buffer@.len() ==> output_buffer@[j] == old(
                        output_buffer,
                    )@[j],
                forall|j: int|
                    0 <= j < i * output_channels + c ==> output_buffer@[output_pos + j]
                        == interleave(src)[j],
            decreases output_channels - c,
        {
            proof {
                assert(i * output_channels + c < k * output_channels) by (nonlinear_arith)
                    requires
                        0 <= i < k,
                        0 <= c < output_channels,
                ;
                lemma_interleave_index(src, i as int, c as int);
            }
            let amp = decoded[c][i];
            output_buffer[dst] = amp;
            dst = dst + 1;
            c = c + 1;
        }
        proof {
            assert(i * output_channels + output_channels == (i + 1) * output_channels)
                by (nonlinear_arith);
        }
        i = i + 1;
    }
    proof {
        let pos = output_pos as int;
        let cc = output_channels as int;
        let outl = old(output_buffer)@.len() as int;
        let kk = mix_k(src, outl, pos, cc);
        let m = mix_out(src, old(output_buffer)@, pos, cc);
        assert(kk == k);
        assert(kk * cc <= row_len(src) * cc) by (nonlinear_arith)
            requires
                0 <= kk <= row_len(src),
                cc >= 1,
        ;
        assert(m.len() == outl);
        assert forall|j: int| 0 <= j < outl implies output_buffer@[j] == m[j] by {
            if j < pos {
                assert(m[j] == old(output_buffer)@[j]);
            } else if j < pos + kk * cc {
                assert(m[j] == interleave(src).take(kk * cc)[j - pos]);
                assert(output_buffer@[pos + (j - pos)] == interleave(src)[j - pos]);
            } else {
                assert(m[j] == old(output_buffer)@[j]);
            }
        };
        assert(output_buffer@ =~= m);
    }
    (src_frames <= room, dst)
}

/// Mathematical model of one decoder response.
#[verifier::ext_equal]
pub struct FrameModel {
    /// Input bytes the decoder consumed for this response.
    pub consumed: int,
    /// One sample row per channel.
    pub rows: Seq<Seq<u32>>,
}

impl View for SAudioVorbisFrame {
    type V = FrameModel;

    open spec fn view(&self) -> FrameModel {
        FrameModel { consumed: self.consumed as int, rows: self.rows() }
    }
}

/// Well-formedness of a decoder response model.
pub open spec fn frame_model_wf(f: FrameModel) -> bool {
    &&& channels_wf(f.rows)
    &&& 0 <= f.consumed
}

/// What the driver that owns the native decoder should do next within one
/// `decode` call.
#[derive(Clone, Copy, PartialEq, Eq, Structural, Debug)]
pub enum SAudioVorbisStep {
    /// Ask the decoder for the next frame at the current read position; the
    /// payload is the write offset reached so far.
    Fetch(usize),
    /// The call is over; the payload is the sample-frames written by it.
    Done(usize),
}

/// Spec-level outcome of one protocol step.
pub enum StepModel {
    /// The channel counts differ; nothing changed.
    Mismatch,
    /// Fetch the next frame and continue at this write offset.
    Fetch(int),
    /// The call is over with this many sample-frames written.
    Done(int),
}

/// Whether an executable step reports the modelled outcome.
pub open spec fn step_matches(st: SAudioVorbisStep, m: StepModel) -> bool {
    match (st, m) {
        (SAudioVorbisStep::Fetch(p), StepModel::Fetch(q)) => p as int == q,
        (SAudioVorbisStep::Done(n), StepModel::Done(q)) => n as int == q,
        _ => false,
    }
}

/// Model of starting a `decode` call: deliver as much of the carry-over as
/// fits at the front of the output buffer, then decide whether the decoder
/// must produce more.
pub open spec fn begin_spec(s: StreamModel, out: Seq<u32>, c: int) -> (StreamModel, Seq<u32>, StepModel) {
    if c != s.info.channels {
        (s, out, StepModel::Mismatch)
    } else {
        let cap = out.len() as int / c;
        let carry_frames = s.carry.len() as int / c;
        let k = vstd::math::min(carry_frames, cap);
        let out1 = s.carry.take(k * c) + out.subrange(k * c, out.len() as int);
        let s1 = StreamModel {
            data: s.data,
            read_pos: s.read_pos,
            carry: s.carry.skip(k * c),
            info: s.info,
        };
        let step = if k < carry_frames {
            StepModel::Done(k)
        } else if s.read_pos == s.data.len() || cap == k {
            StepModel::Done(k)
        } else {
            StepModel::Fetch(k * c)
        };
        (s1, out1, step)
    }
}

/// Model of applying one decoder response within a `decode` call: advance the
/// read position, deliver what fits, keep the remainder as carry-over, and
/// decide whether the decoder must produce more.
pub open spec fn feed_spec(
    s: StreamModel,
    f: FrameModel,
    out: Seq<u32>,
    pos: int,
    c: int,
) -> (StreamModel, Seq<u32>, StepModel) {
    let n = row_len(f.rows);
    if n == 0 {
        if f.consumed == 0 {
            // the decoder made no forward progress: end the call
            (s, out, StepModel::Done(pos / c))
        } else {
            // resynchronization skip: non-audio bytes were consumed
            let s1 = StreamModel {
                data: s.data,
                read_pos: s.read_pos + f.consumed,
                carry: s.carry,
                info: s.info,
            };
            let step = if s1.read_pos == s1.data.len() || (out.len() - pos) / c == 0 {
                StepModel::Done(pos / c)
            } else {
                StepModel::Fetch(pos)
            };
            (s1, out, step)
        }
    } else if f.rows.len() != c {
        (s, out, StepModel::Mismatch)
    } else {
        let k = mix_k(f.rows, out.len() as int, pos, c);
        let out1 = mix_out(f.rows, out, pos, c);
        let pos1 = pos + k * c;
        let s1 = StreamModel {
            data: s.data,
            read_pos: s.read_pos + f.consumed,
            carry: interleave(f.rows).skip(k * c),
            info: s.info,
        };
        let step = if k < n {
            StepModel::Done(pos1 / c)
        } else if s1.read_pos == s1.data.len() || (out.len() - pos1) / c == 0 {
            StepModel::Done(pos1 / c)
        } else {
            StepModel::Fetch(pos1)
        };
        (s1, out1, step)
    }
}

/// Builds a stream handle from the mapped bytes and the result of the native
/// decoder's open call, classifying the decoder's error code exactly as the
/// error kinds above.  `opened` is whether the decoder produced a context.
pub fn saudio_vorbis_open(
    data: Vec<u8>,
    opened: bool,
    consumed: usize,
    error_code: i32,
    info: SAudioVorbisInfo,
) -> (r: Result<SAudioVorbis, SAudioVorbisError>)
    requires
        opened && error_code == VORBIS_NO_ERROR ==> consumed <= data@.len() && info.channels >= 1,
    ensures
        match r {
            Ok(stream) => {
                &&& opened && error_code == VORBIS_NO_ERROR
                &&& stream.wf()
                &&& stream@.data == data@
                &&& stream@.read_pos == consumed
                &&& stream@.carry.len() == 0
                &&& stream@.info == info
            },
            Err(e) => {
                &&& !(opened && error_code == VORBIS_NO_ERROR)
                &&& e == (if error_code == VORBIS_NEED_MORE_DATA {
                    SAudioVorbisError::InsufficientBuffer
                } else {
                    SAudioVorbisError::DecodeOpenFailed
                })
            },
        },
{
    if !opened || error_code != VORBIS_NO_ERROR {
        if error_code == VORBIS_NEED_MORE_DATA {
            Err(SAudioVorbisError::InsufficientBuffer)
        } else {
            Err(SAudioVorbisError::DecodeOpenFailed)
        }
    } else {
        let stream = SAudioVorbis { data, read_pos: consumed, carry: Vec::new(), info };
        proof {
            lemma_mod_zero(info.channels as int);
        }
        Ok(stream)
    }
}

/// Consumes the stream handle.  The driver releases the decoder context and
/// the mapping; afterwards the handle can no longer be used, by construction.
pub fn saudio_vorbis_close(stream: SAudioVorbis) {
    let _ = stream;
}

/// Returns true exactly when every mapped byte has been handed to the decoder.
pub fn saudio_vorbis_end_of_stream(stream: &SAudioVorbis) -> (r: bool)
    ensures
        r == (stream@.read_pos == stream@.data.len()),
{
    stream.data.len() == stream.read_pos
}

/// Returns the stream to its just-rewound state: nothing read, nothing
/// carried.  The driver must also tell the decoder to flush its lookahead.
pub fn saudio_vorbis_rewind(stream: &mut SAudioVorbis)
    requires
        old(stream).wf(),
    ensures
        final(stream).wf(),
        final(stream)@ == initial_model(old(stream)@.data, old(stream)@.info),
{
    stream.read_pos = 0;
    stream.carry = Vec::new();
    proof {
        assert(stream@ =~= initial_model(old(stream)@.data, old(stream)@.info));
        lemma_mod_zero(stream@.info.channels as int);
    }
}

/// Starts a `decode` call: delivers as much of the carry-over as fits at the
/// front of `output_buffer` and reports whether the driver must ask the
/// decoder for more.  Fails exactly when the destination channel count
/// differs from the stream's.
#[verifier::loop_isolation(false)]
pub fn saudio_vorbis_decode_begin(
    stream: &mut SAudioVorbis,
    output_buffer: &mut Vec<u32>,
    output_channels: usize,
) -> (r: Result<SAudioVorbisStep, SAudioVorbisError>)
    requires
        old(stream).wf(),
    ensures
        final(stream).wf(),
        final(stream)@.data == old(stream)@.data,
        final(stream)@.info == old(stream)@.info,
        final(stream)@.read_pos == old(stream)@.read_pos,
        final(output_buffer)@.len() == old(output_buffer)@.len(),
        ({
            let (s1, out1, step) = begin_spec(
                old(stream)@,
                old(output_buffer)@,
                output_channels as int,
            );
            match r {
                Ok(st) => {
                    &&& output_channels == old(stream)@.info.channels
                    &&& final(stream)@ == s1
                    &&& final(output_buffer)@ == out1
                    &&& step_matches(st, step)
                },
                Err(e) => {
                    &&& e == SAudioVorbisError::ChannelMismatch
                    &&& output_channels != old(stream)@.info.channels
                    &&& final(stream)@ == old(stream)@
                    &&& final(output_buffer)@ == old(output_buffer)@
                },
            }
        }),
{
    if output_channels != stream.info.channels {
        return Err(SAudioVorbisError::ChannelMismatch);
    }
    let ghost s0 = stream@;
    let ghost cint = output_channels as int;
    let cap: usize = output_buffer.len() / output_channels;
    let carry_frames: usize = stream.carry.len() / output_channels;
    let k: usize = if carry_frames <= cap {
        carry_frames
    } else {
        cap
    };
    proof {
        let clen = s0.carry.len() as int;
        let outl = old(output_buffer)@.len() as int;
        assert(cint >= 1);
        assert(clen % cint == 0);
        vstd::arithmetic::div_mod::lemma_fundamental_div_mod(clen, cint);
        assert(clen == cint * (clen / cint));
        assert(carry_frames == clen / cint);
        assert(carry_frames * cint == clen) by (nonlinear_arith)
            requires
                cint * (clen / cint) == clen,
                carry_frames == clen / cint,
        ;
        vstd::arithmetic::div_mod::lemma_fundamental_div_mod(outl, cint);
        vstd::arithmetic::div_mod::lemma_mod_bound(outl, cint);
        assert(cap == outl / cint);
        assert(cap * cint <= outl) by (nonlinear_arith)
            requires
                cint * (outl / cint) + (outl % cint) == outl,
                0 <= outl % cint,
                cap == outl / cint,
        ;
        assert(k * cint <= carry_frames * cint && k * cint <= cap * cint) by (nonlinear_arith)
            requires
                0 <= k <= carry_frames,
                k <= cap,
                cint >= 1,
        ;
    }
    let limit: usize = k * output_channels;
    let mut j: usize = 0;
    while j < limit
        invariant
            0 <= j <= limit,
            output_buffer@.len() == old(output_buffer)@.len(),
            forall|t: int| 0 <= t < j ==> output_buffer@[t] == s0.carry[t],
            forall|t: int|
                j <= t < output_buffer@.len() ==> output_buffer@[t] == old(output_buffer)@[t],
        decreases limit - j,
    {
        let amp = stream.carry[j];
        output_buffer[j] = amp;
        j = j + 1;
    }
    let mut rest: Vec<u32> = Vec::new();
    let mut i: usize = limit;
    while i < stream.carry.len()
        invariant
            limit <= i <= stream.carry@.len(),
            stream.carry@ == s0.carry,
            rest@ == s0.carry.subrange(limit as int, i as int),
        decreases stream.carry@.len() - i,
    {
        let amp = stream.carry[i];
        rest.push(amp);
        proof {
            assert(rest@ =~= s0.carry.subrange(limit as int, i + 1));
        }
        i = i + 1;
    }
    stream.carry = rest;
    proof {
        assert(stream@.carry =~= s0.carry.skip(limit as int));
        assert(stream@.carry.len() == (carry_frames - k) * cint) by (nonlinear_arith)
            requires
                stream@.carry.len() == s0.carry.len() - k * cint,
                s0.carry.len() == carry_frames * cint,
        ;
        vstd::arithmetic::div_mod::lemma_mod_multiples_basic((carry_frames - k) as int, cint);
        let (s1, out1, step) = begin_spec(s0, old(output_buffer)@, cint);
        assert(output_buffer@ =~= out1);
        assert(stream@ =~= s1);
    }
    if stream.carry.len() > 0 {
        Ok(SAudioVorbisStep::Done(k))
    } else if stream.read_pos == stream.data.len() || cap == k {
        Ok(SAudioVorbisStep::Done(k))
    } else {
        Ok(SAudioVorbisStep::Fetch(limit))
    }
}

/// Applies one decoder response within a `decode` call: advances the read
/// position, mixes what fits into `output_buffer` at `output_pos`, keeps the
/// undelivered remainder as the stream's carry-over, and reports whether the
/// driver must ask the decoder for more.  Fails exactly when the response's
/// channel count differs from the destination's.
#[verifier::loop_isolation(false)]
pub fn saudio_vorbis_decode_feed(
    stream: &mut SAudioVorbis,
    frame: &SAudioVorbisFrame,
    output_buffer: &mut Vec<u32>,
    output_pos: usize,
    output_channels: usize,
) -> (r: Result<SAudioVorbisStep, SAudioVorbisError>)
    requires
        old(stream).wf(),
        old(stream)@.carry.len() == 0,
        output_channels == old(stream)@.info.channels,
        frame.wf(),
        frame@.consumed <= old(stream)@.data.len() - old(stream)@.read_pos,
        output_pos <= old(output_buffer)@.len(),
        output_pos as int % (output_channels as int) == 0,
    ensures
        final(stream).wf(),
        final(stream)@.data == old(stream)@.data,
        final(stream)@.info == old(stream)@.info,
        final(output_buffer)@.len() == old(output_buffer)@.len(),
        ({
            let (s1, out1, step) = feed_spec(
                old(stream)@,
                frame@,
                old(output_buffer)@,
                output_pos as int,
                output_channels as int,
            );
            match r {
                Ok(st) => {
                    &&& !(step is Mismatch)
                    &&& final(stream)@ == s1
                    &&& final(output_buffer)@ == out1
                    &&& step_matches(st, step)
                },
                Err(e) => {
                    &&& e == SAudioVorbisError::ChannelMismatch
                    &&& step is Mismatch
                    &&& final(stream)@ == old(stream)@
                    &&& final(output_buffer)@ == old(output_buffer)@
                },
            }
        }),
{
    let ghost s0 = stream@;
    let ghost cint = output_channels as int;
    let n: usize = if frame.samples.len() == 0 {
        0
    } else {
        frame.samples[0].len()
    };
    if n == 0 {
        if frame.consumed == 0 {
            Ok(SAudioVorbisStep::Done(output_pos / output_channels))
        } else {
            let total = stream.data.len();
            stream.read_pos = stream.read_pos + frame.consumed;
            let room: usize = (output_buffer.len() - output_pos) / output_channels;
            if stream.read_pos == total || room == 0 {
                Ok(SAudioVorbisStep::Done(output_pos / output_channels))
            } else {
                Ok(SAudioVorbisStep::Fetch(output_pos))
            }
        }
    } else if frame.samples.len() != output_channels {
        Err(SAudioVorbisError::ChannelMismatch)
    } else {
        let total = stream.data.len();
        stream.read_pos = stream.read_pos + frame.consumed;
        let (fit, new_pos) = saudio_vorbis_mix(
            &frame.samples,
            output_buffer,
            output_pos,
            output_channels,
        );
        let ghost rows = frame@.rows;
        let ghost k_spec = mix_k(rows, old(output_buffer)@.len() as int, output_pos as int, cint);
        let room: usize = (output_buffer.len() - output_pos) / output_channels;
        let k: usize = if n <= room {
            n
        } else {
            room
        };
        proof {
            assert(k == k_spec);
            assert(new_pos == output_pos + k * cint);
        }
        let mut carry: Vec<u32> = Vec::new();
        let mut i: usize = k;
        while i < n
            invariant
                k <= i <= n,
                carry@.len() == (i - k) * cint,
                forall|j: int|
                    0 <= j < carry@.len() ==> carry@[j] == interleave(rows)[k_spec * cint + j],
            decreases n - i,
        {
            let mut c: usize = 0;
            while c < output_channels
                invariant
                    k <= i < n,
                    0 <= c <= output_channels,
                    carry@.len() == (i - k) * cint + c,
                    forall|j: int|
                        0 <= j < carry@.len() ==> carry@[j] == interleave(rows)[k_spec * cint + j],
                decreases output_channels - c,
            {
                proof {
                    lemma_interleave_index(rows, i as int, c as int);
                    assert(k_spec * cint + ((i - k) * cint + c) == i as int * cint + c)
                        by (nonlinear_arith)
                        requires
                            k_spec == k,
                            k <= i,
                    ;
                    assert((i - k) * cint + c < (n - k) * cint) by (nonlinear_arith)
                        requires
                            k <= i < n,
                            0 <= c < cint,
                    ;
                }
                let amp = frame.samples[c][i];
                carry.push(amp);
                c = c + 1;
            }
            proof {
                assert((i - k) * cint + cint == (i + 1 - k) * cint) by (nonlinear_arith);
            }
            i = i + 1;
        }
        stream.carry = carry;
        proof {
            assert((n - k) * cint <= interleave(rows).len()) by (nonlinear_arith)
                requires
                    interleave(rows).len() == row_len(rows) * rows.len(),
                    row_len(rows) == n,
                    rows.len() == cint,
                    0 <= k <= n,
            ;
            assert(interleave(rows).len() == n * cint);
            assert((n - k) * cint == n * cint - k_spec * cint) by (nonlinear_arith)
                requires
                    k_spec == k,
            ;
            assert(stream@.carry.len() == interleave(rows).len() - k_spec * cint);
            assert(stream@.carry =~= interleave(rows).skip(k_spec * cint));
            vstd::arithmetic::div_mod::lemma_mod_multiples_basic((n - k) as int, cint);
            assert(stream@.carry.len() as int % cint == 0);
            let (s1, out1, step) = feed_spec(
                s0,
                frame@,
                old(output_buffer)@,
                output_pos as int,
                cint,
            );
            assert(stream@ =~= s1);
            assert(output_buffer@ == out1);
        }
        if !fit {
            Ok(SAudioVorbisStep::Done(new_pos / output_channels))
        } else if stream.read_pos == total || (output_buffer.len() - new_pos)
            / output_channels == 0 {
            Ok(SAudioVorbisStep::Done(new_pos / output_channels))
        } else {
            Ok(SAudioVorbisStep::Fetch(new_pos))
        }
    }
}

} // verus!

