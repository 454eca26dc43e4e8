//! Animation synthesis: turning an ordered frame sequence, a loop mode and
//! per-frame delays into one encoded GIF byte stream.
//!
//! Delays are carried in milliseconds; the source format counts in ticks of
//! a tenth of a second, and a missing delay entry stands for one tick, never
//! for zero.

use vstd::prelude::*;

use crate::frame::{frames_view, Frame, FrameV};

verus! {

/// The display duration a frame falls back to when the delay sequence is
/// absent or too short: one tick, that is 100 milliseconds.
pub const DEFAULT_DELAY_MS: u32 = 100;

/// How an animation repeats: forever, or a fixed number of times.
#[derive(Debug, Clone, Copy, PartialEq, Eq, Structural)]
pub enum LoopMode {
    Infinite,
    FiniteCount(u32),
}

/// Why synthesis yielded no animation. Either failure is non-fatal to the
/// surrounding model: the still frames stay usable.
#[derive(Debug, Clone, Copy, PartialEq, Eq, Structural)]
pub enum EncodeError {
    /// There were no frames to encode.
    NoFrames,
    /// The encoder rejected the frames, e.g. a dimension too large for the
    /// container.
    Encoder,
}

/// The mathematical value of an optional delay sequence.
pub open spec fn delay_view(delay: Option<Vec<u32>>) -> Option<Seq<u32>> {
    match delay {
        Some(v) => Some(v@),
        None => None,
    }
}

/// The duration, in milliseconds, frame `i` displays for: the delay entry
/// where one exists, one tick otherwise.
pub open spec fn effective_delay(delay: Option<Seq<u32>>, i: int) -> u32 {
    match delay {
        Some(d) => if 0 <= i < d.len() {
            d[i]
        } else {
            DEFAULT_DELAY_MS
        },
        None => DEFAULT_DELAY_MS,
    }
}

/// The per-frame durations for `n` frames under an optional delay sequence.
pub open spec fn effective_delays(delay: Option<Seq<u32>>, n: nat) -> Seq<u32> {
    Seq::new(n, |i: int| effective_delay(delay, i))
}

/// The container-level repeat metadata a loop mode encodes as: none for an
/// infinite repeat, otherwise the count truncated to the container's
/// sixteen-bit field.
pub open spec fn spec_repeat(m: LoopMode) -> Option<u16> {
    match m {
        LoopMode::Infinite => None,
        LoopMode::FiniteCount(n) => Some((n % 0x10000) as u16),
    }
}

/// Whether every frame of a sequence fits the GIF container, whose image
/// descriptor stores each dimension in sixteen bits.
pub open spec fn frames_encodable(frames: Seq<FrameV>) -> bool {
    forall|i: int|
        0 <= i < frames.len() ==> (#[trigger] frames[i]).width <= 0xFFFF && frames[i].height
            <= 0xFFFF
}

/// The GIF byte stream the encoder produces for the given frames, per-frame
/// durations in milliseconds, and repeat metadata. The encoder is a pure
/// function of these arguments, so its output is named rather than spelled
/// out.
pub uninterp spec fn gif_encoding(
    frames: Seq<FrameV>,
    delays_ms: Seq<u32>,
    repeat: Option<u16>,
) -> Seq<u8>;

/// Declares `image::error::ImageError`, the error the GIF encoder reports,
/// so the encoding wrapper can return it; the caller maps it to the
/// library's own error.
#[verifier::external_type_specification]
#[verifier::external_body]
pub struct ExImageError(image::error::ImageError);

/// Relies on `image::codecs::gif::GifEncoder` (`new_with_speed` at the fast
/// compression tier, `set_repeat`, `encode_frames`): writes the frames, each
/// with its duration and the repeat metadata, into one GIF byte stream;
/// deterministic in its arguments. The encoder fails exactly when a frame's
/// width or height exceeds the container's sixteen-bit field (its
/// `gif_dimensions` check); writing into a `Vec` cannot fail, the palette a
/// quantized frame carries never exceeds 256 colours, and
/// `image::RgbaImage::from_raw` is documented to return a buffer whenever
/// the container holds at least `4 * width * height` bytes, which
/// well-formedness guarantees exactly.
#[verifier::external_body]
fn encode_gif(frames: &Vec<Frame>, delays_ms: &Vec<u32>, repeat: Option<u16>) -> (r: Result<
    Vec<u8>,
    image::error::ImageError,
>)
    requires
        frames@.len() == delays_ms@.len(),
        forall|i: int| 0 <= i < frames@.len() ==> frames@[i].wf(),
    ensures
        r matches Ok(bytes) ==> bytes@ == gif_encoding(frames_view(frames@), delays_ms@, repeat),
        r is Ok <==> frames_encodable(frames_view(frames@)),
{
    let mut out: Vec<u8> = Vec::new();
    let res = {
        let mut enc = image::codecs::gif::GifEncoder::new_with_speed(&mut out, 10);
        let rep = match repeat {
            Some(n) => image::codecs::gif::Repeat::Finite(n),
            None => image::codecs::gif::Repeat::Infinite,
        };
        enc.set_repeat(rep).and_then(|_| enc.encode_frames(frames.iter().zip(delays_ms.iter()).filter_map(|(f, ms)| {
            let delay = image::Delay::from_numer_denom_ms(*ms, 1);
            image::RgbaImage::from_raw(f.width, f.height, f.rgba.clone())
                .map(|buf| image::Frame::from_parts(buf, 0, 0, delay))
        })))
    };
    res.map(|_| out)
}

/// Encodes the frames into one animated GIF byte stream, with each frame's
/// duration taken from the delay sequence in milliseconds (one tick where an
/// entry is missing) and the loop mode mapped to the container's repeat
/// metadata.
pub fn animate(frames: &Vec<Frame>, loop_mode: &LoopMode, delay: &Option<Vec<u32>>) -> (r: Result<
    Vec<u8>,
    EncodeError,
>)
    requires
        forall|i: int| 0 <= i < frames@.len() ==> frames@[i].wf(),
    ensures
        frames@.len() == 0 <==> r == Err::<Vec<u8>, EncodeError>(EncodeError::NoFrames),
        r is Ok <==> frames@.len() > 0 && frames_encodable(frames_view(frames@)),
        r is Err ==> r == Err::<Vec<u8>, EncodeError>(EncodeError::NoFrames) || r == Err::<
            Vec<u8>,
            EncodeError,
        >(EncodeError::Encoder),
        r matches Ok(bytes) ==> bytes@ == gif_encoding(
            frames_view(frames@),
            effective_delays(delay_view(*delay), frames@.len()),
            spec_repeat(*loop_mode),
        ),
{
    if frames.len() == 0 {
        return Err(EncodeError::NoFrames);
    }
    let n = frames.len();
    let mut delays: Vec<u32> = Vec::new();
    let mut i: usize = 0;
    while i < n
        invariant
            i <= n,
            n == frames@.len(),
            delays@.len() == i as int,
            forall|j: int| 0 <= j < i as int ==> delays@[j] == effective_delay(
                delay_view(*delay),
                j,
            ),
        decreases n - i,
    {
        let d: u32 = match delay {
            Some(v) => if i < v.len() {
                v[i]
            } else {
                DEFAULT_DELAY_MS
            },
            None => DEFAULT_DELAY_MS,
        };
        delays.push(d);
        i = i + 1;
    }
    proof {
        assert(delays@ =~= effective_delays(delay_view(*delay), frames@.len()));
    }
    let repeat: Option<u16> = match loop_mode {
        LoopMode::Infinite => None,
        LoopMode::FiniteCount(c) => Some((*c % 0x10000) as u16),
    };
    proof {
        assert(repeat == spec_repeat(*loop_mode));
    }
    match encode_gif(frames, &delays, repeat) {
        Ok(bytes) => Ok(bytes),
        Err(_) => Err(EncodeError::Encoder),
    }
}


} // verus!
