//! Laws of the streaming decoder, proved over the models of `vorbis`.
//!
//! A whole `decode` call is one `begin` step followed by `feed` steps until
//! the call reports that it is over.  The driver's loop supplies one decoder
//! response per `feed`; here a call is modelled against an arbitrary script
//! of responses, so everything proved holds for whatever the decoder returns.

use vstd::prelude::*;

use crate::vorbis::FrameModel;
use crate::vorbis::SAudioVorbisInfo;
use crate::vorbis::initial_model;
use crate::vorbis::StepModel;
use crate::vorbis::StreamModel;
use crate::vorbis::begin_spec;
use crate::vorbis::channels_wf;
use crate::vorbis::feed_spec;
use crate::vorbis::frame_model_wf;
use crate::vorbis::interleave;
use crate::vorbis::lemma_mix_bounds;
use crate::vorbis::lemma_mod_zero;
use crate::vorbis::mix_k;
use crate::vorbis::mix_out;
use crate::vorbis::row_len;
use crate::vorbis::stream_wf;

verus! {

/// The outcome of one whole `decode` call in the model.
#[verifier::ext_equal]
pub struct CallModel {
    /// The stream after the call.
    pub s: StreamModel,
    /// The output buffer after the call.
    pub out: Seq<u32>,
    /// The write offset the call reached.
    pub pos: int,
    /// The sample-frames the call returned.
    pub frames: int,
    /// How many decoder responses the call consumed.
    pub used: int,
}

/// Every response in a script is well formed, and every response that carries
/// samples carries them for exactly `c` channels.
pub open spec fn frames_ok(fs: Seq<FrameModel>, c: int) -> bool {
    forall|i: int|
        0 <= i < fs.len() ==> {
            &&& frame_model_wf(#[trigger] fs[i])
            &&& (row_len(fs[i].rows) == 0 || fs[i].rows.len() == c)
        }
}

/// The samples a script of decoder responses produces, interleaved, in order:
/// what an unbounded-buffer decode of the script would deliver.
pub open spec fn decoded_concat(fs: Seq<FrameModel>) -> Seq<u32>
    decreases fs.len(),
{
    if fs.len() <= 0 {
        Seq::empty()
    } else {
        interleave(fs[0].rows) + decoded_concat(fs.skip(1))
    }
}

/// Feeding decoder responses one by one, as the driver's loop does, until the
/// call reports that it is over or the script runs out.
pub open spec fn feed_run(
    s: StreamModel,
    fs: Seq<FrameModel>,
    out: Seq<u32>,
    pos: int,
    c: int,
) -> CallModel
    decreases fs.len(),
{
    if fs.len() <= 0 {
        CallModel { s, out, pos, frames: pos / c, used: 0 }
    } else {
        let (s1, out1, step) = feed_spec(s, fs[0], out, pos, c);
        match step {
            StepModel::Fetch(p) => {
                let r = feed_run(s1, fs.skip(1), out1, p, c);
                CallModel { s: r.s, out: r.out, pos: r.pos, frames: r.frames, used: 1 + r.used }
            },
            StepModel::Done(nf) => CallModel {
                s: s1,
                out: out1,
                pos: nf * c,
                frames: nf,
                used: 1,
            },
            StepModel::Mismatch => CallModel { s: s1, out: out1, pos, frames: pos / c, used: 1 },
        }
    }
}

/// One whole `decode` call against a script of decoder responses.
pub open spec fn decode_call_spec(
    s: StreamModel,
    fs: Seq<FrameModel>,
    out: Seq<u32>,
    c: int,
) -> CallModel {
    let (s1, out1, step) = begin_spec(s, out, c);
    match step {
        StepModel::Fetch(p) => feed_run(s1, fs, out1, p, c),
        StepModel::Done(nf) => CallModel { s: s1, out: out1, pos: nf * c, frames: nf, used: 0 },
        StepModel::Mismatch => CallModel { s: s1, out: out1, pos: 0, frames: 0, used: 0 },
    }
}

/// A nonnegative multiple of the divisor divides back exactly.
proof fn lemma_div_exact(x: int, c: int)
    requires
        c >= 1,
        x % c == 0,
    ensures
        (x / c) * c == x,
{
    vstd::arithmetic::div_mod::lemma_fundamental_div_mod(x, c);
    assert((x / c) * c == x) by (nonlinear_arith)
        requires
            x == c * (x / c),
    ;
}

/// Adding whole frames keeps the offset a whole number of frames.
proof fn lemma_mod_add_multiple(x: int, k: int, c: int)
    requires
        c >= 1,
        x % c == 0,
    ensures
        (x + k * c) % c == 0,
{
    vstd::arithmetic::div_mod::lemma_fundamental_div_mod(x, c);
    let q = x / c;
    assert(x + k * c == (q + k) * c) by (nonlinear_arith)
        requires
            x == c * q,
    ;
    vstd::arithmetic::div_mod::lemma_mod_multiples_basic(q + k, c);
}

/// How the buffer after a mix decomposes: the prefix is kept, the delivered
/// part of the interleaving stands at the write offset, the suffix is kept.
pub proof fn lemma_mix_out_parts(src: Seq<Seq<u32>>, out: Seq<u32>, pos: int, c: int)
    requires
        c >= 1,
        channels_wf(src),
        src.len() == c,
        0 <= pos <= out.len(),
    ensures
        ({
            let k = mix_k(src, out.len() as int, pos, c);
            let m = mix_out(src, out, pos, c);
            &&& m.len() == out.len()
            &&& 0 <= k * c <= out.len() - pos
            &&& k * c <= interleave(src).len()
            &&& interleave(src).len() == row_len(src) * c
            &&& m.subrange(0, pos) == out.subrange(0, pos)
            &&& m.subrange(pos, pos + k * c) == interleave(src).take(k * c)
            &&& m.subrange(pos + k * c, out.len() as int) == out.subrange(
                pos + k * c,
                out.len() as int,
            )
        }),
{
    let k = mix_k(src, out.len() as int, pos, c);
    let m = mix_out(src, out, pos, c);
    lemma_mix_bounds(src, out.len() as int, pos, c);
    assert(k * c <= row_len(src) * c) by (nonlinear_arith)
        requires
            0 <= k <= row_len(src),
            c >= 1,
    ;
    assert(m.subrange(0, pos) =~= out.subrange(0, pos));
    assert(m.subrange(pos, pos + k * c) =~= interleave(src).take(k * c));
    assert(m.subrange(pos + k * c, out.len() as int) =~= out.subrange(
        pos + k * c,
        out.len() as int,
    ));
}

/// Splitting a concatenation one response at a time.
proof fn lemma_decoded_concat_step(fs: Seq<FrameModel>, u: int)
    requires
        0 <= u,
        u + 1 <= fs.len(),
    ensures
        decoded_concat(fs.take(u + 1)) == interleave(fs[0].rows) + decoded_concat(
            fs.skip(1).take(u),
        ),
{
    assert(fs.take(u + 1).len() == u + 1);
    assert(fs.take(u + 1)[0] == fs[0]);
    assert(fs.take(u + 1).skip(1) =~= fs.skip(1).take(u));
}

/// A script's tail is as well formed as the script.
proof fn lemma_frames_ok_skip(fs: Seq<FrameModel>, c: int)
    requires
        frames_ok(fs, c),
        fs.len() >= 1,
    ensures
        frames_ok(fs.skip(1), c),
{
    assert forall|i: int| 0 <= i < fs.skip(1).len() implies {
        &&& frame_model_wf(#[trigger] fs.skip(1)[i])
        &&& (row_len(fs.skip(1)[i].rows) == 0 || fs.skip(1)[i].rows.len() == c)
    } by {
        assert(fs.skip(1)[i] == fs[i + 1]);
        assert(frame_model_wf(fs[i + 1]));
    };
}

/// Zero divided by a positive divisor is zero.
proof fn lemma_div_zero(c: int)
    requires
        c >= 1,
    ensures
        0int / c == 0,
{
    vstd::arithmetic::div_mod::lemma_fundamental_div_mod_converse_div(0, c, 0, 0);
}

/// How starting a call decomposes: the carry-over prefix that fits stands at
/// the front of the buffer, the rest of the buffer is kept, and the stream
/// keeps exactly the undelivered remainder of its carry-over.
pub proof fn lemma_begin_parts(s: StreamModel, out: Seq<u32>, c: int)
    requires
        c == s.info.channels,
        c >= 1,
        s.carry.len() as int % c == 0,
    ensures
        ({
            let (s1, out1, step) = begin_spec(s, out, c);
            let cap = out.len() as int / c;
            let carry_frames = s.carry.len() as int / c;
            let k = vstd::math::min(carry_frames, cap);
            &&& carry_frames * c == s.carry.len()
            &&& 0 <= k * c <= out.len()
            &&& k * c <= s.carry.len()
            &&& out1.len() == out.len()
            &&& s1.data == s.data
            &&& s1.read_pos == s.read_pos
            &&& s1.info == s.info
            &&& out1.subrange(0, k * c) == s.carry.take(k * c)
            &&& out1.subrange(k * c, out.len() as int) == out.subrange(k * c, out.len() as int)
            &&& s1.carry == s.carry.skip(k * c)
            &&& s.carry.take(k * c) + s1.carry == s.carry
            &&& s1.carry.len() as int % c == 0
            &&& (k * c) % c == 0
            &&& (step is Fetch ==> s1.carry.len() == 0)
        }),
{
    let (s1, out1, step) = begin_spec(s, out, c);
    let clen = s.carry.len() as int;
    let outl = out.len() as int;
    let cap = outl / c;
    let carry_frames = clen / c;
    let k = vstd::math::min(carry_frames, cap);
    lemma_div_exact(clen, c);
    vstd::arithmetic::div_mod::lemma_fundamental_div_mod(outl, c);
    vstd::arithmetic::div_mod::lemma_mod_bound(outl, c);
    assert(0 <= carry_frames && 0 <= cap) by (nonlinear_arith)
        requires
            carry_frames * c == clen,
            c * cap + outl % c == outl,
            0 <= outl % c < c,
            0 <= clen,
            0 <= outl,
            c >= 1,
    ;
    assert(k * c <= carry_frames * c && k * c <= cap * c && 0 <= k * c) by (nonlinear_arith)
        requires
            0 <= k <= carry_frames,
            k <= cap,
            c >= 1,
    ;
    assert(cap * c <= outl) by (nonlinear_arith)
        requires
            c * cap + outl % c == outl,
            0 <= outl % c,
    ;
    assert(out1.subrange(0, k * c) =~= s.carry.take(k * c));
    assert(out1.subrange(k * c, outl) =~= out.subrange(k * c, outl));
    assert(s.carry.take(k * c) + s1.carry =~= s.carry);
    assert(s1.carry.len() == (carry_frames - k) * c) by (nonlinear_arith)
        requires
            s1.carry.len() == clen - k * c,
            carry_frames * c == clen,
    ;
    vstd::arithmetic::div_mod::lemma_mod_multiples_basic(carry_frames - k, c);
    lemma_mod_add_multiple(0, k, c);
    if step is Fetch {
        assert(k == carry_frames);
    }
}

/// What one run of the driver's feed loop does, whatever the decoder
/// returned: the buffer keeps its length (nothing is ever written beyond it)
/// and everything outside the delivered span; the write offset stays a whole
/// number of frames and only advances; the read position only advances; and
/// the delivered span followed by the new carry-over is exactly the
/// concatenation of the samples the consumed responses produced — no sample
/// is lost, duplicated or reordered.
pub proof fn lemma_feed_run(s: StreamModel, fs: Seq<FrameModel>, out: Seq<u32>, pos: int, c: int)
    requires
        c >= 1,
        s.info.channels == c,
        s.carry.len() == 0,
        0 <= pos <= out.len(),
        pos % c == 0,
        frames_ok(fs, c),
    ensures
        ({
            let r = feed_run(s, fs, out, pos, c);
            &&& r.out.len() == out.len()
            &&& pos <= r.pos <= out.len()
            &&& r.pos % c == 0
            &&& r.frames == r.pos / c
            &&& r.s.data == s.data
            &&& r.s.info == s.info
            &&& s.read_pos <= r.s.read_pos
            &&& r.s.carry.len() as int % c == 0
            &&& 0 <= r.used <= fs.len()
            &&& r.out.subrange(0, pos) == out.subrange(0, pos)
            &&& r.out.subrange(r.pos, out.len() as int) == out.subrange(r.pos, out.len() as int)
            &&& r.out.subrange(pos, r.pos) + r.s.carry == decoded_concat(fs.take(r.used))
        }),
    decreases fs.len(),
{
    let r = feed_run(s, fs, out, pos, c);
    if fs.len() <= 0 {
        assert(fs.take(0) =~= Seq::<FrameModel>::empty());
        assert(r.out.subrange(pos, pos) + r.s.carry =~= decoded_concat(fs.take(0)));
    } else {
        let f = fs[0];
        assert(frame_model_wf(f));
        let (s1, out1, step) = feed_spec(s, f, out, pos, c);
        let n = row_len(f.rows);
        lemma_decoded_concat_step(fs, 0);
        assert(fs.skip(1).take(0) =~= Seq::<FrameModel>::empty());
        if n == 0 {
            assert(interleave(f.rows).len() == 0);
            assert(decoded_concat(fs.take(1)) =~= Seq::<u32>::empty());
            if f.consumed == 0 {
                lemma_div_exact(pos, c);
                assert(r.pos == pos);
                assert(r.out.subrange(pos, pos) + r.s.carry =~= decoded_concat(fs.take(1)));
            } else if s1.read_pos == s1.data.len() || (out.len() - pos) / c == 0 {
                lemma_div_exact(pos, c);
                assert(r.pos == pos);
                assert(r.out.subrange(pos, pos) + r.s.carry =~= decoded_concat(fs.take(1)));
            } else {
                lemma_frames_ok_skip(fs, c);
                lemma_feed_run(s1, fs.skip(1), out, pos, c);
                let rr = feed_run(s1, fs.skip(1), out, pos, c);
                assert(r.used == 1 + rr.used);
                lemma_decoded_concat_step(fs, rr.used);
                assert(decoded_concat(fs.take(1 + rr.used)) == interleave(f.rows)
                    + decoded_concat(fs.skip(1).take(rr.used)));
                assert(interleave(f.rows) + decoded_concat(fs.skip(1).take(rr.used))
                    =~= decoded_concat(fs.skip(1).take(rr.used)));
            }
        } else {
            assert(f.rows.len() == c);
            let k = mix_k(f.rows, out.len() as int, pos, c);
            lemma_mix_out_parts(f.rows, out, pos, c);
            let pos1 = pos + k * c;
            lemma_mod_add_multiple(pos, k, c);
            let ileav = interleave(f.rows);
            assert(ileav.take(k * c) + ileav.skip(k * c) =~= ileav);
            assert(s1.carry == ileav.skip(k * c));
            assert(s1.carry.len() == (n - k) * c) by (nonlinear_arith)
                requires
                    s1.carry.len() == n * c - k * c,
            ;
            vstd::arithmetic::div_mod::lemma_mod_multiples_basic(n - k, c);
            assert(s1.carry.len() as int % c == 0);
            if k < n || s1.read_pos == s1.data.len() || (out.len() - pos1) / c == 0 {
                lemma_div_exact(pos1, c);
                assert(r.pos == pos1);
                assert(r.out == mix_out(f.rows, out, pos, c));
                assert(decoded_concat(fs.take(1)) =~= ileav);
                assert(r.out.subrange(pos, pos1) + r.s.carry == ileav.take(k * c) + ileav.skip(
                    k * c,
                ));
            } else {
                assert(k == n);
                assert(s1.carry.len() == 0);
                lemma_frames_ok_skip(fs, c);
                lemma_feed_run(s1, fs.skip(1), out1, pos1, c);
                let rr = feed_run(s1, fs.skip(1), out1, pos1, c);
                assert(r.used == 1 + rr.used);
                assert(r.out == rr.out && r.pos == rr.pos && r.s == rr.s);
                // the prefix of the buffer, up to where this response was
                // delivered, is what the mix left there
                assert(r.out.subrange(0, pos) =~= out.subrange(0, pos)) by {
                    assert forall|j: int| 0 <= j < pos implies r.out[j] == out[j] by {
                        assert(rr.out.subrange(0, pos1)[j] == out1.subrange(0, pos1)[j]);
                        assert(out1.subrange(0, pos)[j] == out.subrange(0, pos)[j]);
                    };
                };
                assert(r.out.subrange(pos, pos1) =~= out1.subrange(pos, pos1)) by {
                    assert forall|j: int| pos <= j < pos1 implies r.out[j] == out1[j] by {
                        assert(rr.out.subrange(0, pos1)[j] == out1.subrange(0, pos1)[j]);
                    };
                };
                assert(out1.subrange(pos, pos1) == ileav.take(k * c));
                assert(ileav.take(k * c) =~= ileav);
                // assemble: delivered = this response's samples followed by
                // what the rest of the run delivered
                assert(r.out.subrange(pos, r.pos) =~= r.out.subrange(pos, pos1) + r.out.subrange(
                    pos1,
                    r.pos,
                ));
                assert((r.out.subrange(pos, pos1) + r.out.subrange(pos1, r.pos)) + rr.s.carry
                    =~= r.out.subrange(pos, pos1) + (r.out.subrange(pos1, r.pos) + rr.s.carry));
                assert(r.out.subrange(pos1, r.pos) + rr.s.carry == decoded_concat(
                    fs.skip(1).take(rr.used),
                ));
                lemma_decoded_concat_step(fs, rr.used);
                assert(r.out.subrange(pos, r.pos) + r.s.carry == decoded_concat(
                    fs.take(1 + rr.used),
                ));
                // the suffix beyond the run's final offset is untouched
                assert(r.out.subrange(r.pos, out.len() as int) =~= out.subrange(
                    r.pos,
                    out.len() as int,
                )) by {
                    assert forall|j: int| r.pos <= j < out.len() implies r.out[j] == out[j] by {
                        assert(rr.out.subrange(rr.pos, out1.len() as int)[j - rr.pos]
                            == out1.subrange(rr.pos, out1.len() as int)[j - rr.pos]);
                        assert(out1.subrange(pos1, out.len() as int)[j - pos1] == out.subrange(
                            pos1,
                            out.len() as int,
                        )[j - pos1]);
                    };
                };
            }
        }
    }
}

/// Conservation across one whole `decode` call, and no overrun: the buffer
/// keeps its length; the span the call delivered, followed by what it left
/// carried, is exactly the carry-over it started with followed by every
/// sample the consumed decoder responses produced.  Summed over a sequence of
/// calls, the frames returned therefore equal the frames decoded, up to the
/// final carry-over — with a buffer large enough, exactly.
pub proof fn lemma_decode_call_conservation(
    s: StreamModel,
    fs: Seq<FrameModel>,
    out: Seq<u32>,
    c: int,
)
    requires
        c == s.info.channels,
        c >= 1,
        s.carry.len() as int % c == 0,
        frames_ok(fs, c),
    ensures
        ({
            let r = decode_call_spec(s, fs, out, c);
            &&& r.out.len() == out.len()
            &&& 0 <= r.pos <= out.len()
            &&& r.pos == r.frames * c
            &&& r.s.data == s.data
            &&& r.s.info == s.info
            &&& r.s.carry.len() as int % c == 0
            &&& s.read_pos <= r.s.read_pos
            &&& 0 <= r.used <= fs.len()
            &&& r.out.subrange(0, r.pos) + r.s.carry == s.carry + decoded_concat(fs.take(r.used))
        }),
{
    let r = decode_call_spec(s, fs, out, c);
    let (s1, out1, step) = begin_spec(s, out, c);
    lemma_begin_parts(s, out, c);
    let cap = out.len() as int / c;
    let carry_frames = s.carry.len() as int / c;
    let k = vstd::math::min(carry_frames, cap);
    assert(fs.take(0) =~= Seq::<FrameModel>::empty());
    match step {
        StepModel::Done(nf) => {
            assert(nf == k);
            assert(r.pos == k * c);
            assert(r.out.subrange(0, k * c) + r.s.carry == s.carry + decoded_concat(fs.take(0)))
                by {
                assert(r.out.subrange(0, k * c) == s.carry.take(k * c));
                assert(s.carry + decoded_concat(fs.take(0)) =~= s.carry);
            };
        },
        StepModel::Fetch(p) => {
            assert(p == k * c);
            assert(s1.carry.len() == 0);
            assert(k * c == s.carry.len());
            lemma_feed_run(s1, fs, out1, k * c, c);
            let rr = feed_run(s1, fs, out1, k * c, c);
            assert(r == rr);
            lemma_div_exact(rr.pos, c);
            // the carry-over stands first in the buffer, untouched by the run
            assert(rr.out.subrange(0, k * c) =~= s.carry) by {
                assert(rr.out.subrange(0, k * c) == out1.subrange(0, k * c));
                assert(out1.subrange(0, k * c) == s.carry.take(k * c));
                assert(s.carry.take(k * c) =~= s.carry);
            };
            assert(rr.out.subrange(0, rr.pos) =~= rr.out.subrange(0, k * c) + rr.out.subrange(
                k * c,
                rr.pos,
            ));
            assert((rr.out.subrange(0, k * c) + rr.out.subrange(k * c, rr.pos)) + rr.s.carry
                =~= rr.out.subrange(0, k * c) + (rr.out.subrange(k * c, rr.pos) + rr.s.carry));
            assert(rr.out.subrange(k * c, rr.pos) + rr.s.carry == decoded_concat(
                fs.take(rr.used),
            ));
        },
        StepModel::Mismatch => {
            assert(false);
        },
    }
}

/// One call of a session: the decoder responses its driver loop received,
/// and the destination buffer it was given.
pub struct SessionCall {
    pub fs: Seq<FrameModel>,
    pub out: Seq<u32>,
}

/// Every call's script of responses is well formed for `c` channels.
pub open spec fn session_calls_ok(calls: Seq<SessionCall>, c: int) -> bool {
    forall|i: int| 0 <= i < calls.len() ==> frames_ok((#[trigger] calls[i]).fs, c)
}

/// Running a sequence of `decode` calls: the stream afterwards, everything
/// the calls delivered in order, the sample-frames they returned in sum, and
/// everything the consumed decoder responses produced in order.
pub open spec fn session_run(s: StreamModel, calls: Seq<SessionCall>, c: int) -> (
    StreamModel,
    Seq<u32>,
    int,
    Seq<u32>,
)
    decreases calls.len(),
{
    if calls.len() <= 0 {
        (s, Seq::empty(), 0, Seq::empty())
    } else {
        let r = decode_call_spec(s, calls[0].fs, calls[0].out, c);
        let (s2, rest, frames, decoded) = session_run(r.s, calls.skip(1), c);
        (
            s2,
            r.out.subrange(0, r.pos) + rest,
            r.frames + frames,
            decoded_concat(calls[0].fs.take(r.used)) + decoded,
        )
    }
}

/// Conservation across any sequence of `decode` calls: everything the calls
/// delivered, followed by the carry-over left at the end, is exactly the
/// initial carry-over followed by every sample the decoder produced for them;
/// and the frames returned in sum account exactly for the samples delivered.
/// With no carry-over at either end, the frames returned equal the frames
/// decoded.
pub proof fn lemma_session_conservation(s: StreamModel, calls: Seq<SessionCall>, c: int)
    requires
        c == s.info.channels,
        c >= 1,
        s.carry.len() as int % c == 0,
        session_calls_ok(calls, c),
    ensures
        ({
            let (s2, delivered, frames, decoded) = session_run(s, calls, c);
            &&& delivered + s2.carry == s.carry + decoded
            &&& delivered.len() == frames * c
            &&& s2.info == s.info
            &&& s2.data == s.data
            &&& s2.carry.len() as int % c == 0
        }),
    decreases calls.len(),
{
    let (s2, delivered, frames, decoded) = session_run(s, calls, c);
    if calls.len() <= 0 {
        assert(delivered + s2.carry =~= s.carry + decoded);
    } else {
        assert(frames_ok(calls[0].fs, c));
        let r = decode_call_spec(s, calls[0].fs, calls[0].out, c);
        lemma_decode_call_conservation(s, calls[0].fs, calls[0].out, c);
        assert forall|i: int| 0 <= i < calls.skip(1).len() implies frames_ok(
            (#[trigger] calls.skip(1)[i]).fs,
            c,
        ) by {
            assert(calls.skip(1)[i] == calls[i + 1]);
            assert(frames_ok(calls[i + 1].fs, c));
        };
        lemma_session_conservation(r.s, calls.skip(1), c);
        let (s2r, rest, frames_r, decoded_r) = session_run(r.s, calls.skip(1), c);
        let d0 = r.out.subrange(0, r.pos);
        let dec0 = decoded_concat(calls[0].fs.take(r.used));
        // regroup the concatenations around the first call's conservation
        assert((d0 + rest) + s2.carry =~= d0 + (rest + s2.carry));
        assert(rest + s2.carry == r.s.carry + decoded_r);
        assert(d0 + (r.s.carry + decoded_r) =~= (d0 + r.s.carry) + decoded_r);
        assert(d0 + r.s.carry == s.carry + dec0);
        assert((s.carry + dec0) + decoded_r =~= s.carry + (dec0 + decoded_r));
        // the frames returned account exactly for the samples delivered
        assert(d0.len() == r.frames * c);
        assert(delivered.len() == (r.frames + frames_r) * c) by (nonlinear_arith)
            requires
                delivered.len() == r.frames * c + frames_r * c,
        ;
    }
}

/// Carry-over correctness: when a response's samples only partly fit, the
/// undelivered remainder is kept, and a following call with enough room
/// delivers exactly that remainder as its first samples — bit-identical,
/// before anything newly decoded.
pub proof fn lemma_carry_over_correctness(
    s: StreamModel,
    f: FrameModel,
    out1: Seq<u32>,
    pos: int,
    c: int,
    out2: Seq<u32>,
)
    requires
        stream_wf(s),
        c == s.info.channels,
        s.carry.len() == 0,
        frame_model_wf(f),
        f.rows.len() == c,
        row_len(f.rows) >= 1,
        0 <= pos <= out1.len(),
        pos % c == 0,
        f.consumed <= s.data.len() - s.read_pos,
        mix_k(f.rows, out1.len() as int, pos, c) < row_len(f.rows),
        out2.len() as int / c >= row_len(f.rows) - mix_k(f.rows, out1.len() as int, pos, c),
    ensures
        ({
            let k = mix_k(f.rows, out1.len() as int, pos, c);
            let rem = interleave(f.rows).skip(k * c);
            let (s1, o1, step1) = feed_spec(s, f, out1, pos, c);
            let (s2, o2, step2) = begin_spec(s1, out2, c);
            &&& s1.carry == rem
            &&& rem.len() >= 1
            &&& o2.subrange(0, rem.len() as int) == rem
            &&& s2.carry.len() == 0
        }),
{
    let n = row_len(f.rows);
    let k = mix_k(f.rows, out1.len() as int, pos, c);
    let rem = interleave(f.rows).skip(k * c);
    let (s1, o1, step1) = feed_spec(s, f, out1, pos, c);
    lemma_mix_out_parts(f.rows, out1, pos, c);
    assert(s1.carry == rem);
    assert(rem.len() == (n - k) * c) by (nonlinear_arith)
        requires
            rem.len() == n * c - k * c,
    ;
    assert(rem.len() >= 1) by (nonlinear_arith)
        requires
            rem.len() == (n - k) * c,
            n - k >= 1,
            c >= 1,
    ;
    vstd::arithmetic::div_mod::lemma_mod_multiples_basic(n - k, c);
    assert(stream_wf(s1)) by {
        assert(s1.carry.len() as int % c == 0);
    };
    // the next call's begin step drains the whole remainder
    let (s2, o2, step2) = begin_spec(s1, out2, c);
    lemma_begin_parts(s1, out2, c);
    let cap2 = out2.len() as int / c;
    let carry_frames2 = s1.carry.len() as int / c;
    assert(carry_frames2 == n - k) by {
        lemma_div_exact(s1.carry.len() as int, c);
        assert(carry_frames2 * c == (n - k) * c);
        assert(carry_frames2 == n - k) by (nonlinear_arith)
            requires
                carry_frames2 * c == (n - k) * c,
                c >= 1,
        ;
    };
    let k2 = vstd::math::min(carry_frames2, cap2);
    assert(k2 == n - k);
    assert(k2 * c == s1.carry.len());
    assert(o2.subrange(0, rem.len() as int) == s1.carry.take(k2 * c));
    assert(s1.carry.take(k2 * c) =~= rem);
    assert(s2.carry =~= Seq::<u32>::empty());
}

/// Rewind idempotence: a rewound stream, whose decoder first skips the header
/// bytes as a resynchronization, then delivers exactly what a freshly opened
/// stream — whose open consumed those header bytes — delivers on the same
/// decoder responses: the same samples, the same frame count, the same state.
pub proof fn lemma_rewind_idempotence(
    data: Seq<u8>,
    info: SAudioVorbisInfo,
    h: int,
    rf: FrameModel,
    fs: Seq<FrameModel>,
    out: Seq<u32>,
    c: int,
)
    requires
        c == info.channels,
        c >= 1,
        1 <= h <= data.len(),
        rf.consumed == h,
        row_len(rf.rows) == 0,
        frame_model_wf(rf),
        out.len() as int / c >= 1,
    ensures
        ({
            let fresh = StreamModel { data, read_pos: h, carry: Seq::empty(), info };
            let r0 = decode_call_spec(initial_model(data, info), seq![rf] + fs, out, c);
            let rh = decode_call_spec(fresh, fs, out, c);
            &&& r0.s == rh.s
            &&& r0.out == rh.out
            &&& r0.frames == rh.frames
        }),
{
    let s0 = initial_model(data, info);
    let fresh = StreamModel { data, read_pos: h, carry: Seq::empty(), info };
    let cap = out.len() as int / c;
    lemma_mod_zero(c);
    lemma_div_zero(c);
    assert(stream_wf(s0));
    assert(stream_wf(fresh));
    lemma_begin_parts(s0, out, c);
    lemma_begin_parts(fresh, out, c);
    let (s0b, out0b, step0) = begin_spec(s0, out, c);
    let (shb, outhb, steph) = begin_spec(fresh, out, c);
    assert(out0b =~= out);
    assert(outhb =~= out);
    assert(s0b =~= s0);
    assert(shb =~= fresh);
    // the rewound stream has not reached end of stream, so its call fetches
    assert(step0 is Fetch);
    assert(step0 == StepModel::Fetch(0));
    let script = seq![rf] + fs;
    assert(script.len() == 1 + fs.len());
    assert(script[0] == rf);
    assert(script.skip(1) =~= fs);
    let (s1, out1, step1) = feed_spec(s0, rf, out, 0, c);
    assert(s1 =~= fresh);
    assert(out1 == out);
    if h == data.len() {
        // the skip ends at end of stream: both calls deliver nothing
        assert(step1 == StepModel::Done(0));
        assert(steph == StepModel::Done(0));
    } else {
        assert(step1 == StepModel::Fetch(0));
        assert(steph == StepModel::Fetch(0));
        assert(feed_run(s0, script, out, 0, c).s == feed_run(fresh, fs, out, 0, c).s);
    }
}

/// End-of-stream exactness, forward direction: at end of stream with no
/// carry-over pending, a `decode` call returns 0 frames, writes nothing and
/// changes nothing — whatever the decoder would have answered.
pub proof fn lemma_eos_no_progress(s: StreamModel, fs: Seq<FrameModel>, out: Seq<u32>, c: int)
    requires
        stream_wf(s),
        c == s.info.channels,
        s.carry.len() == 0,
        s.read_pos == s.data.len(),
    ensures
        ({
            let r = decode_call_spec(s, fs, out, c);
            &&& r.frames == 0
            &&& r.out == out
            &&& r.s == s
            &&& r.used == 0
        }),
{
    lemma_begin_parts(s, out, c);
    lemma_div_zero(c);
    let (s1, out1, step) = begin_spec(s, out, c);
    assert(step == StepModel::Done(0));
    assert(out1 =~= out);
    assert(s1 =~= s);
}

/// End-of-stream exactness, converse direction: away from end of stream, a
/// call whose first decoder response is productive — it consumed bytes or
/// produced samples, as the decoder does whenever it is handed bytes — makes
/// forward progress: it returns at least one frame or advances the read
/// position.
pub proof fn lemma_not_eos_progress(
    s: StreamModel,
    f: FrameModel,
    fs: Seq<FrameModel>,
    out: Seq<u32>,
    c: int,
)
    requires
        stream_wf(s),
        c == s.info.channels,
        s.carry.len() == 0,
        s.read_pos < s.data.len(),
        out.len() as int / c >= 1,
        frame_model_wf(f),
        row_len(f.rows) == 0 || f.rows.len() == c,
        f.consumed >= 1 || row_len(f.rows) >= 1,
        frames_ok(fs, c),
    ensures
        ({
            let r = decode_call_spec(s, seq![f] + fs, out, c);
            r.frames >= 1 || r.s.read_pos > s.read_pos
        }),
{
    let script = seq![f] + fs;
    assert(script[0] == f);
    assert(script.skip(1) =~= fs);
    lemma_begin_parts(s, out, c);
    lemma_mod_zero(c);
    lemma_div_zero(c);
    let (s1, out1, step) = begin_spec(s, out, c);
    assert(step == StepModel::Fetch(0));
    assert(s1 =~= s);
    let r = decode_call_spec(s, script, out, c);
    let (s2, out2, step2) = feed_spec(s, f, out1, 0, c);
    let n = row_len(f.rows);
    let cap = out.len() as int / c;
    if n == 0 {
        // a resynchronization skip: the read position advances
        assert(s2.read_pos == s.read_pos + f.consumed);
        match step2 {
            StepModel::Done(nf) => {
                assert(r.s == s2);
            },
            StepModel::Fetch(p) => {
                lemma_feed_run(s2, fs, out1, 0, c);
                assert(r.s == feed_run(s2, fs, out1, 0, c).s);
            },
            StepModel::Mismatch => {
                assert(false);
            },
        }
    } else {
        // at least one frame fits at the front of the buffer
        let k = mix_k(f.rows, out1.len() as int, 0, c);
        assert(k >= 1);
        lemma_mix_out_parts(f.rows, out1, 0, c);
        lemma_mod_add_multiple(0, k, c);
        match step2 {
            StepModel::Done(nf) => {
                assert(nf == (k * c) / c);
                lemma_div_exact(k * c, c);
                assert(nf * c == k * c);
                assert(nf == k) by (nonlinear_arith)
                    requires
                        nf * c == k * c,
                        c >= 1,
                ;
            },
            StepModel::Fetch(p) => {
                assert(p == k * c);
                lemma_feed_run(s2, fs, out2, k * c, c);
                let rr = feed_run(s2, fs, out2, k * c, c);
                assert(r.frames == rr.pos / c);
                vstd::arithmetic::div_mod::lemma_div_is_ordered(k * c, rr.pos, c);
                lemma_div_exact(k * c, c);
                assert((k * c) / c == k) by (nonlinear_arith)
                    requires
                        ((k * c) / c) * c == k * c,
                        c >= 1,
                ;
            },
            StepModel::Mismatch => {
                assert(false);
            },
        }
    }
}

} // verus!
