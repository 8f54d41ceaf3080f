//! The stream decoder: consumes a byte chunk plus the residue of the
//! previous call, extracts every complete, checksum-validated feedback
//! frame, and returns the frames together with the new residue.
//!
//! The decoder scans for the two-byte marker, discards noise bytes that
//! precede it, waits for more data when a frame is still incomplete, and on
//! a checksum mismatch moves a single byte forward from the marker so that
//! it can resynchronize on misaligned or corrupted streams.

use vstd::prelude::*;

use crate::checksum::xor_fold;
use crate::checksum::xor_range;
use crate::frame::FeedbackFrame;
use crate::frame::FrameView;
use crate::frame::MARKER0;
use crate::frame::MARKER1;

verus! {

/// The buffer begins with the two-byte frame start marker.
pub open spec fn starts_with_marker(s: Seq<u8>) -> bool {
    s.len() >= 2 && s[0] == MARKER0 && s[1] == MARKER1
}

/// Total byte count of the candidate frame at the head of the buffer: the
/// two markers, the length byte, and as many further bytes as the length
/// byte counts.
pub open spec fn head_frame_len(s: Seq<u8>) -> int
    recommends
        s.len() >= 3,
{
    3 + s[2]
}

/// The complete candidate frame at the head of the buffer validates: its
/// length byte covers at least the id, size and checksum bytes, and the
/// trailing checksum byte equals the XOR fold of the payload region.
pub open spec fn head_frame_ok(s: Seq<u8>) -> bool
    recommends
        starts_with_marker(s),
        s.len() >= head_frame_len(s),
{
    s[2] >= 3 && xor_fold(s.subrange(5, head_frame_len(s) - 1)) == s[head_frame_len(s) - 1]
}

/// The feedback frame carried by the valid candidate at the head of the
/// buffer: the id byte and the payload region.
pub open spec fn head_frame_view(s: Seq<u8>) -> FrameView
    recommends
        starts_with_marker(s),
        s.len() >= head_frame_len(s),
        head_frame_ok(s),
{
    FrameView { id: s[3], payload: s.subrange(5, head_frame_len(s) - 1) }
}

/// One decoding pass over a buffer: the feedback frames of every complete,
/// validated candidate, and the residue that must be carried into the next
/// call.
///
/// Noise bytes before a marker are dropped; an incomplete frame (or a
/// trailing first marker byte) is kept whole as residue; a candidate whose
/// checksum does not match is skipped by a single byte so that scanning can
/// resynchronize.
pub open spec fn scan(s: Seq<u8>) -> (Seq<FrameView>, Seq<u8>)
    decreases s.len(),
{
    if s.len() == 0 {
        (Seq::<FrameView>::empty(), s)
    } else if s.len() == 1 {
        if s[0] == MARKER0 {
            (Seq::<FrameView>::empty(), s)
        } else {
            (Seq::<FrameView>::empty(), Seq::<u8>::empty())
        }
    } else if !starts_with_marker(s) {
        scan(s.skip(1))
    } else if s.len() == 2 {
        (Seq::<FrameView>::empty(), s)
    } else if s.len() < head_frame_len(s) {
        (Seq::<FrameView>::empty(), s)
    } else if head_frame_ok(s) {
        let rest = scan(s.skip(head_frame_len(s)));
        (seq![head_frame_view(s)] + rest.0, rest.1)
    } else {
        scan(s.skip(1))
    }
}

/// The models of a list of feedback frames.
pub open spec fn views_of(frames: Seq<FeedbackFrame>) -> Seq<FrameView> {
    frames.map_values(|f: FeedbackFrame| f@)
}

proof fn lemma_views_push(s: Seq<FeedbackFrame>, f: FeedbackFrame)
    ensures
        views_of(s.push(f)) == views_of(s).push(f@),
{
    let a = views_of(s.push(f));
    let b = views_of(s).push(f@);
    assert forall|k: int| 0 <= k < a.len() implies a[k] =~= b[k] by {
        if k < s.len() {
            assert(s.push(f)[k] == s[k]);
        } else {
            assert(s.push(f)[k] == f);
        }
    }
    assert(a =~= b);
}

/// Soft outcome of a decode call: either feedback frames were produced, or
/// none were found — the latter is informational, not a failure, and the
/// caller is expected to call again with fresh bytes.
#[derive(Clone, Copy, Debug, PartialEq, Eq, Structural)]
pub enum DecodeCondition {
    FramesAvailable,
    NoCompleteFrame,
}

/// The condition a decode call reports: `NoCompleteFrame` exactly when the
/// call produced no feedback frames.
pub fn decode_condition(frames: &Vec<FeedbackFrame>) -> (r: DecodeCondition)
    ensures
        r == (if frames@.len() == 0 {
            DecodeCondition::NoCompleteFrame
        } else {
            DecodeCondition::FramesAvailable
        }),
{
    if frames.len() == 0 {
        DecodeCondition::NoCompleteFrame
    } else {
        DecodeCondition::FramesAvailable
    }
}

/// Appending bytes to a buffer only extends what one decoding pass finds:
/// the frames of the longer buffer are the frames of the shorter one
/// followed by whatever a pass over its residue plus the new bytes finds,
/// and both end in the same residue.
pub proof fn lemma_scan_append(s: Seq<u8>, t: Seq<u8>)
    ensures
        scan(s + t).0 == scan(s).0 + scan(scan(s).1 + t).0,
        scan(s + t).1 == scan(scan(s).1 + t).1,
    decreases s.len(),
{
    let u = s + t;
    let r = scan(s).1;
    if s.len() == 0 {
        assert(r + t =~= u);
        assert(scan(s).0 + scan(r + t).0 =~= scan(r + t).0);
    } else if s.len() == 1 {
        if s[0] == MARKER0 {
            assert(r + t =~= u);
            assert(scan(s).0 + scan(r + t).0 =~= scan(r + t).0);
        } else if t.len() == 0 {
            assert(u =~= s);
            assert((r + t).len() == 0);
            assert(scan(r + t).1 == r + t);
            assert(scan(u).1 =~= scan(r + t).1);
            assert(scan(s).0 + scan(r + t).0 =~= scan(r + t).0);
        } else {
            assert(u[0] == s[0]);
            assert(!starts_with_marker(u));
            assert(u.skip(1) =~= t);
            assert(scan(u) == scan(u.skip(1)));
            assert(r + t =~= t);
            assert(scan(s).0 + scan(r + t).0 =~= scan(r + t).0);
        }
    } else if !starts_with_marker(s) {
        assert(u[0] == s[0]);
        assert(u[1] == s[1]);
        assert(!starts_with_marker(u));
        assert(scan(s) == scan(s.skip(1)));
        assert(scan(u) == scan(u.skip(1)));
        assert(u.skip(1) =~= s.skip(1) + t);
        lemma_scan_append(s.skip(1), t);
    } else if s.len() == 2 || s.len() < head_frame_len(s) {
        assert(r == s);
        assert(r + t =~= u);
        assert(scan(s).0 + scan(r + t).0 =~= scan(r + t).0);
    } else {
        let m = head_frame_len(s);
        assert(u[0] == s[0] && u[1] == s[1] && u[2] == s[2]);
        assert(starts_with_marker(u));
        assert(head_frame_len(u) == m);
        assert(u.len() >= s.len() >= m >= 3);
        if s[2] >= 3 {
            assert(u.subrange(5, m - 1) =~= s.subrange(5, m - 1));
            assert(u[m - 1] == s[m - 1]);
        }
        if head_frame_ok(s) {
            assert(head_frame_ok(u));
            assert(u[3] == s[3]);
            assert(head_frame_view(u) =~= head_frame_view(s));
            assert(u.skip(m) =~= s.skip(m) + t);
            lemma_scan_append(s.skip(m), t);
            let hv = seq![head_frame_view(s)];
            assert(scan(s).0 == hv + scan(s.skip(m)).0);
            assert(r == scan(s.skip(m)).1);
            assert(scan(u).0 == hv + scan(s.skip(m) + t).0);
            assert(hv + (scan(s.skip(m)).0 + scan(r + t).0) =~= (hv + scan(s.skip(m)).0) + scan(
                r + t,
            ).0);
        } else {
            assert(!head_frame_ok(u));
            assert(scan(s) == scan(s.skip(1)));
            assert(scan(u) == scan(u.skip(1)));
            assert(u.skip(1) =~= s.skip(1) + t);
            lemma_scan_append(s.skip(1), t);
        }
    }
}

/// Chunk-boundary independence: splitting a byte stream at any point and
/// feeding the second chunk together with the first chunk's residue finds
/// exactly the frames of decoding the whole stream at once, and ends with
/// the same residue.
pub proof fn lemma_chunk_independence(whole: Seq<u8>, cut: int)
    requires
        0 <= cut <= whole.len(),
    ensures
        scan(whole.take(cut)).0 + scan(scan(whole.take(cut)).1 + whole.skip(cut)).0 == scan(
            whole,
        ).0,
        scan(scan(whole.take(cut)).1 + whole.skip(cut)).1 == scan(whole).1,
{
    lemma_scan_append(whole.take(cut), whole.skip(cut));
    assert(whole.take(cut) + whole.skip(cut) =~= whole);
}

/// The residue never contains a complete valid frame: a decoding pass over
/// a residue alone finds no frames and returns the residue unchanged.
pub proof fn lemma_residue_drained(s: Seq<u8>)
    ensures
        scan(scan(s).1).0 == Seq::<FrameView>::empty(),
        scan(scan(s).1).1 == scan(s).1,
    decreases s.len(),
{
    if s.len() == 0 {
    } else if s.len() == 1 {
        if s[0] == MARKER0 {
        } else {
            assert(scan(s).1 == Seq::<u8>::empty());
            assert(scan(Seq::<u8>::empty()).0 == Seq::<FrameView>::empty());
            assert(scan(Seq::<u8>::empty()).1 == Seq::<u8>::empty());
        }
    } else if !starts_with_marker(s) {
        assert(scan(s) == scan(s.skip(1)));
        lemma_residue_drained(s.skip(1));
    } else if s.len() == 2 || s.len() < head_frame_len(s) {
    } else if head_frame_ok(s) {
        assert(scan(s).1 == scan(s.skip(head_frame_len(s))).1);
        lemma_residue_drained(s.skip(head_frame_len(s)));
    } else {
        assert(scan(s) == scan(s.skip(1)));
        lemma_residue_drained(s.skip(1));
    }
}

/// A single corrupted byte in the payload region of a valid candidate frame
/// makes its checksum mismatch: the decoder drops the candidate and moves a
/// single byte forward, resynchronizing on whatever follows.
pub proof fn lemma_corrupt_frame_skipped(c: Seq<u8>, k: int, b: u8, rest: Seq<u8>)
    requires
        starts_with_marker(c),
        c.len() == head_frame_len(c),
        head_frame_ok(c),
        5 <= k < c.len() - 1,
        b != c[k],
    ensures
        !head_frame_ok(c.update(k, b)),
        scan(c.update(k, b) + rest) == scan((c.update(k, b) + rest).skip(1)),
{
    let c2 = c.update(k, b);
    let m = head_frame_len(c);
    assert(c2.len() == c.len());
    assert(c2[0] == c[0] && c2[1] == c[1] && c2[2] == c[2]);
    assert(head_frame_len(c2) == m);
    let pay = c.subrange(5, m - 1);
    let pay2 = c2.subrange(5, m - 1);
    assert(pay2 =~= pay.update(k - 5, b));
    assert(pay[k - 5] == c[k]);
    crate::checksum::lemma_xor_fold_update(pay, k - 5, b);
    let x = xor_fold(pay);
    let a = c[k];
    assert((x ^ a) ^ b != x) by (bit_vector)
        requires
            a != b,
    ;
    assert(c2[m - 1] == c[m - 1]);
    assert(!head_frame_ok(c2));
    let u = c2 + rest;
    assert(u[0] == c2[0] && u[1] == c2[1] && u[2] == c2[2]);
    assert(starts_with_marker(u));
    assert(head_frame_len(u) == m);
    assert(u.len() >= m >= 6);
    assert(u.subrange(5, m - 1) =~= pay2);
    assert(u[m - 1] == c2[m - 1]);
    assert(!head_frame_ok(u));
    assert(scan(u) == scan(u.skip(1)));
}

/// Decodes one chunk: the effective input is the residue of the previous
/// call followed by the new bytes; the result is the list of feedback
/// frames found and the residue for the next call.  A call that finds no
/// frame returns them all unresolved in the residue (or drops them as
/// noise), never blocking.
#[verifier::loop_isolation(false)]
#[verifier::rlimit(60)]
pub fn decode(new_bytes: &Vec<u8>, residue: &Vec<u8>) -> (out: (Vec<FeedbackFrame>, Vec<u8>))
    ensures
        views_of(out.0@) == scan(residue@ + new_bytes@).0,
        out.1@ == scan(residue@ + new_bytes@).1,
{
    let mut buf: Vec<u8> = Vec::new();
    let mut k: usize = 0;
    while k < residue.len()
        invariant
            k <= residue.len(),
            buf@ == residue@.take(k as int),
        decreases residue.len() - k,
    {
        buf.push(residue[k]);
        k = k + 1;
    }
    proof {
        assert(buf@ =~= residue@);
    }
    k = 0;
    while k < new_bytes.len()
        invariant
            k <= new_bytes.len(),
            buf@ == residue@ + new_bytes@.take(k as int),
        decreases new_bytes.len() - k,
    {
        buf.push(new_bytes[k]);
        k = k + 1;
    }
    proof {
        assert(buf@ =~= residue@ + new_bytes@);
    }
    let ghost g = buf@;
    let n = buf.len();
    let mut frames: Vec<FeedbackFrame> = Vec::new();
    let mut i: usize = 0;
    let mut done: bool = false;
    proof {
        assert(g.skip(0) =~= g);
        assert(views_of(frames@) + scan(g).0 =~= scan(g).0);
    }
    while !done
        invariant
            i <= n,
            scan(g).0 == views_of(frames@) + scan(g.skip(i as int)).0,
            scan(g).1 == scan(g.skip(i as int)).1,
            done ==> scan(g.skip(i as int)).0 == Seq::<FrameView>::empty(),
            done ==> scan(g.skip(i as int)).1 == g.skip(i as int),
        decreases n - i + (if done { 0int } else { 1int }),
    {
        let ghost s = g.skip(i as int);
        proof {
            assert(s.len() == n - i);
        }
        if i == n {
            done = true;
        } else if n - i == 1 {
            proof {
                assert(s[0] == g[i as int]);
            }
            if buf[i] == MARKER0 {
                done = true;
            } else {
                i = i + 1;
                proof {
                    assert(g.skip(i as int) =~= Seq::<u8>::empty());
                    assert(scan(s).0 == Seq::<FrameView>::empty());
                    assert(scan(s).1 == Seq::<u8>::empty());
                }
            }
        } else {
            proof {
                assert(s[0] == g[i as int]);
                assert(s[1] == g[i + 1]);
            }
            if !(buf[i] == MARKER0 && buf[i + 1] == MARKER1) {
                i = i + 1;
                proof {
                    assert(!starts_with_marker(s));
                    assert(s.skip(1) =~= g.skip(i as int));
                    assert(scan(s) == scan(s.skip(1)));
                }
            } else if n - i == 2 {
                done = true;
            } else {
                proof {
                    assert(s[2] == g[i + 2]);
                }
                let l = buf[i + 2];
                let total: usize = 3 + (l as usize);
                proof {
                    assert(head_frame_len(s) == total);
                }
                if n - i < total {
                    done = true;
                } else if l >= 3 {
                    let end: usize = i + total - 1;
                    let crc = xor_range(&buf, i + 5, end);
                    proof {
                        assert(s.subrange(5, head_frame_len(s) - 1) =~= g.subrange(
                            i + 5,
                            end as int,
                        ));
                        assert(s[head_frame_len(s) - 1] == g[end as int]);
                    }
                    if crc == buf[end] {
                        let id = buf[i + 3];
                        let mut payload: Vec<u8> = Vec::new();
                        let mut j: usize = i + 5;
                        while j < end
                            invariant
                                i + 5 <= j <= end,
                                payload@ == g.subrange(i + 5, j as int),
                            decreases end - j,
                        {
                            payload.push(buf[j]);
                            j = j + 1;
                        }
                        let fb = FeedbackFrame { id, payload };
                        proof {
                            assert(head_frame_ok(s));
                            assert(scan(s).0 == seq![head_frame_view(s)] + scan(
                                s.skip(head_frame_len(s)),
                            ).0);
                            assert(scan(s).1 == scan(s.skip(head_frame_len(s))).1);
                            assert(head_frame_view(s) =~= fb@);
                            assert(s.skip(head_frame_len(s)) =~= g.skip(i + total));
                            lemma_views_push(frames@, fb);
                            assert(views_of(frames@) + scan(s).0 =~= views_of(frames@.push(fb))
                                + scan(g.skip(i + total)).0);
                        }
                        frames.push(fb);
                        i = i + total;
                    } else {
                        i = i + 1;
                        proof {
                            assert(!head_frame_ok(s));
                            assert(s.skip(1) =~= g.skip(i as int));
                            assert(scan(s) == scan(s.skip(1)));
                        }
                    }
                } else {
                    i = i + 1;
                    proof {
                        assert(!head_frame_ok(s));
                        assert(s.skip(1) =~= g.skip(i as int));
                        assert(scan(s) == scan(s.skip(1)));
                    }
                }
            }
        }
    }
    let mut res: Vec<u8> = Vec::new();
    let mut j: usize = i;
    while j < n
        invariant
            i <= j <= n,
            res@ == g.subrange(i as int, j as int),
        decreases n - j,
    {
        res.push(buf[j]);
        j = j + 1;
    }
    proof {
        assert(res@ =~= g.skip(i as int));
        assert(views_of(frames@) + Seq::<FrameView>::empty() =~= views_of(frames@));
    }
    (frames, res)
}

} // verus!
