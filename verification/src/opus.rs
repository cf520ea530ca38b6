//! Opus-in-Ogg encoding: the two header packets, frame extraction with
//! zero padding, and granule-position arithmetic. The codec itself and
//! the page writer come from outside crates and are reached through the
//! trusted items in [`crate::codec`].

use vstd::prelude::*;

verus! {

/// Samples per Opus frame at 16 kHz (60 ms of audio).
pub const OPUS_FRAME_SIZE: usize = 960;

/// Granule-position advance per frame: frames are counted in the
/// codec's fixed 48 kHz timebase, three ticks per 16 kHz sample.
pub const GRANULE_PER_FRAME: u64 = 2880;

/// The identification header packet: the magic signature, version 1,
/// one channel, no pre-skip, the codec's internal 48 kHz rate field,
/// zero output gain and channel-mapping family 0.
pub open spec fn opus_head_bytes() -> Seq<u8> {
    seq![
        79u8, 112u8, 117u8, 115u8, 72u8, 101u8, 97u8, 100u8,
        1u8,
        1u8,
        0u8, 0u8,
        128u8, 187u8, 0u8, 0u8,
        0u8, 0u8,
        0u8,
    ]
}

/// The comment header packet: the magic signature, the vendor string
/// and zero user comments.
pub open spec fn opus_tags_bytes() -> Seq<u8> {
    seq![
        79u8, 112u8, 117u8, 115u8, 84u8, 97u8, 103u8, 115u8,
        9u8, 0u8, 0u8, 0u8,
        70u8, 108u8, 117u8, 120u8, 86u8, 111u8, 105u8, 99u8, 101u8,
        0u8, 0u8, 0u8, 0u8,
    ]
}

/// Builds the Opus identification header packet.
pub fn create_opus_head() -> (r: Vec<u8>)
    ensures
        r@ == opus_head_bytes(),
{
    let mut head: Vec<u8> = Vec::new();
    head.push(79);
    head.push(112);
    head.push(117);
    head.push(115);
    head.push(72);
    head.push(101);
    head.push(97);
    head.push(100);
    head.push(1);
    head.push(1);
    head.push(0);
    head.push(0);
    head.push(128);
    head.push(187);
    head.push(0);
    head.push(0);
    head.push(0);
    head.push(0);
    head.push(0);
    proof {
        assert(head@ =~= opus_head_bytes());
    }
    head
}

/// Builds the Opus comment header packet.
pub fn create_opus_tags() -> (r: Vec<u8>)
    ensures
        r@ == opus_tags_bytes(),
{
    let mut tags: Vec<u8> = Vec::new();
    tags.push(79);
    tags.push(112);
    tags.push(117);
    tags.push(115);
    tags.push(84);
    tags.push(97);
    tags.push(103);
    tags.push(115);
    tags.push(9);
    tags.push(0);
    tags.push(0);
    tags.push(0);
    tags.push(70);
    tags.push(108);
    tags.push(117);
    tags.push(120);
    tags.push(86);
    tags.push(111);
    tags.push(105);
    tags.push(99);
    tags.push(101);
    tags.push(0);
    tags.push(0);
    tags.push(0);
    tags.push(0);
    proof {
        assert(tags@ =~= opus_tags_bytes());
    }
    tags
}

/// Frame `i` of a sample buffer, zero-padded to the full frame size.
pub open spec fn padded_frame(s: Seq<i16>, i: int) -> Seq<i16> {
    Seq::new(
        OPUS_FRAME_SIZE as nat,
        |j: int|
            if i * OPUS_FRAME_SIZE + j < s.len() {
                s[i * OPUS_FRAME_SIZE + j]
            } else {
                0i16
            },
    )
}

/// Number of frames needed to carry `len` samples: a trailing partial
/// frame counts as a full one.
pub open spec fn frame_count(len: int) -> int {
    (len + OPUS_FRAME_SIZE - 1) / OPUS_FRAME_SIZE as int
}

/// Number of frames needed to carry `len` samples.
pub fn frames_for(len: usize) -> (r: usize)
    requires
        len + OPUS_FRAME_SIZE <= usize::MAX,
    ensures
        r == frame_count(len as int),
        len > 0 ==> r >= 1,
        forall|i: int| 0 <= i < r ==> #[trigger] (i * OPUS_FRAME_SIZE) < len,
{
    let r = (len + OPUS_FRAME_SIZE - 1) / OPUS_FRAME_SIZE;
    proof {
        if len > 0 {
            assert((len + OPUS_FRAME_SIZE - 1) / OPUS_FRAME_SIZE as int >= 1) by (nonlinear_arith)
                requires
                    len >= 1,
            ;
        }
        assert forall|i: int| 0 <= i < r implies #[trigger] (i * OPUS_FRAME_SIZE) < len by {
            vstd::arithmetic::mul::lemma_mul_inequality(i + 1, r as int, OPUS_FRAME_SIZE as int);
            vstd::arithmetic::mul::lemma_mul_is_distributive_add_other_way(
                OPUS_FRAME_SIZE as int,
                i,
                1,
            );
            vstd::arithmetic::div_mod::lemma_fundamental_div_mod(
                len + OPUS_FRAME_SIZE - 1,
                OPUS_FRAME_SIZE as int,
            );
            vstd::arithmetic::div_mod::lemma_mod_bound(
                len + OPUS_FRAME_SIZE - 1,
                OPUS_FRAME_SIZE as int,
            );
            vstd::arithmetic::mul::lemma_mul_is_commutative(r as int, OPUS_FRAME_SIZE as int);
            assert(r * OPUS_FRAME_SIZE <= len + OPUS_FRAME_SIZE - 1);
        }
    }
    r
}

/// Extracts frame `i` of the buffer, zero-padding a short final frame.
pub fn padded_frame_at(samples: &Vec<i16>, i: usize) -> (r: Vec<i16>)
    requires
        (i as int) * OPUS_FRAME_SIZE < samples@.len(),
    ensures
        r@ == padded_frame(samples@, i as int),
        r@.len() == OPUS_FRAME_SIZE,
{
    let n = samples.len();
    let base = i * OPUS_FRAME_SIZE;
    let mut frame: Vec<i16> = Vec::new();
    let mut j: usize = 0;
    while j < OPUS_FRAME_SIZE
        invariant
            0 <= j <= OPUS_FRAME_SIZE,
            base == i * OPUS_FRAME_SIZE,
            base < n,
            n == samples@.len(),
            frame@.len() == j,
            forall|k: int| 0 <= k < j ==> frame@[k] == padded_frame(samples@, i as int)[k],
        decreases OPUS_FRAME_SIZE - j,
    {
        if j < n - base {
            let v = samples[base + j];
            frame.push(v);
        } else {
            frame.push(0);
        }
        j = j + 1;
    }
    proof {
        assert(frame@ =~= padded_frame(samples@, i as int));
    }
    frame
}

/// The granule position written with frame `i`: frames completed so
/// far, in 48 kHz ticks.
pub open spec fn granule_at(i: int) -> int {
    (i + 1) * GRANULE_PER_FRAME
}

} // verus!
