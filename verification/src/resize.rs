//! The resize request, the clamping policy applied to it, and the resampler.
//!
//! A resize is strictly an upscale-or-noop operation: a request is first
//! clamped against the original dimensions, and a request that exceeds the
//! original in neither dimension degrades to no resize at all.

use vstd::prelude::*;

use crate::dmi_utils::{filter_code, CustomFilterType};
use crate::frame::{Frame, FrameV};

verus! {

/// A target size for displaying an icon: either the source dimensions, or a
/// requested bounding box.
#[derive(Debug, Clone, Copy, PartialEq, Eq, Structural)]
pub enum StateboxResizing {
    Original,
    Resized { height: u32, width: u32 },
}

impl Default for StateboxResizing {
    fn default() -> (r: Self)
        ensures
            r == (StateboxResizing::Resized { height: 64, width: 64 }),
    {
        StateboxResizing::Resized { height: 64, width: 64 }
    }
}

/// The effective request the policy derives from a raw request: a dimension
/// is accepted only where it exceeds the original, is clamped to the original
/// otherwise, and a request exceeding in neither dimension degrades to
/// `Original`.
pub open spec fn spec_effective_resize(
    original_height: u32,
    original_width: u32,
    request: StateboxResizing,
) -> StateboxResizing {
    match request {
        StateboxResizing::Original => StateboxResizing::Original,
        StateboxResizing::Resized { height, width } => {
            if height > original_height && width > original_width {
                StateboxResizing::Resized { height, width }
            } else if height > original_height {
                StateboxResizing::Resized { height, width: original_width }
            } else if width > original_width {
                StateboxResizing::Resized { height: original_height, width }
            } else {
                StateboxResizing::Original
            }
        },
    }
}

/// The dimensions an icon displays at under an effective request:
/// `(height, width)`.
pub open spec fn spec_displayed_size(
    original_height: u32,
    original_width: u32,
    effective: StateboxResizing,
) -> (u32, u32) {
    match effective {
        StateboxResizing::Original => (original_height, original_width),
        StateboxResizing::Resized { height, width } => (height, width),
    }
}

/// Computes the effective resize request for the given original dimensions.
pub fn effective_resize(
    original_height: u32,
    original_width: u32,
    request: StateboxResizing,
) -> (r: StateboxResizing)
    ensures
        r == spec_effective_resize(original_height, original_width, request),
{
    match request {
        StateboxResizing::Original => StateboxResizing::Original,
        StateboxResizing::Resized { height, width } => {
            if height > original_height && width > original_width {
                StateboxResizing::Resized { height, width }
            } else if height > original_height {
                StateboxResizing::Resized { height, width: original_width }
            } else if width > original_width {
                StateboxResizing::Resized { height: original_height, width }
            } else {
                StateboxResizing::Original
            }
        },
    }
}

/// Clamping is idempotent: re-applying the policy to an already effective
/// request leaves it, and hence the displayed dimensions, unchanged.
pub proof fn lemma_effective_resize_idempotent(
    original_height: u32,
    original_width: u32,
    request: StateboxResizing,
)
    ensures
        spec_effective_resize(
            original_height,
            original_width,
            spec_effective_resize(original_height, original_width, request),
        ) == spec_effective_resize(original_height, original_width, request),
        spec_displayed_size(
            original_height,
            original_width,
            spec_effective_resize(
                original_height,
                original_width,
                spec_effective_resize(original_height, original_width, request),
            ),
        ) == spec_displayed_size(
            original_height,
            original_width,
            spec_effective_resize(original_height, original_width, request),
        ),
{
}

/// Downscale rejection: a request exceeding the original in neither
/// dimension resolves to `Original` exactly.
pub proof fn lemma_downscale_rejected(
    original_height: u32,
    original_width: u32,
    height: u32,
    width: u32,
)
    requires
        height <= original_height,
        width <= original_width,
    ensures
        spec_effective_resize(
            original_height,
            original_width,
            StateboxResizing::Resized { height, width },
        ) == StateboxResizing::Original,
{
}

/// The pixel bytes the resampler produces for the given source pixels,
/// source dimensions, target dimensions and filter. The resampler is a pure
/// function of these arguments, so its output is named rather than spelled
/// out.
pub uninterp spec fn resampled(
    rgba: Seq<u8>,
    src_width: u32,
    src_height: u32,
    dst_width: u32,
    dst_height: u32,
    filter: u8,
) -> Seq<u8>;

/// Whether the resampler's buffers for one frame fit in memory: both the
/// target image and the intermediate buffer the sampler allocates, which is
/// source-width pixels wide and target-height pixels tall.
pub open spec fn resample_fits(f: FrameV, dst_width: u32, dst_height: u32) -> bool {
    &&& 4 * (dst_width as int) * (dst_height as int) <= usize::MAX as int
    &&& 4 * (f.width as int) * (dst_height as int) <= usize::MAX as int
}

/// The frame the resampler produces for a source frame and a target size.
pub open spec fn resampled_frame(
    f: FrameV,
    dst_width: u32,
    dst_height: u32,
    filter: CustomFilterType,
) -> FrameV {
    FrameV {
        width: dst_width,
        height: dst_height,
        rgba: resampled(f.rgba, f.width, f.height, dst_width, dst_height, filter_code(filter)),
    }
}

/// The frame sequence the resampler produces from a source sequence.
pub open spec fn resampled_frames(
    frames: Seq<FrameV>,
    dst_width: u32,
    dst_height: u32,
    filter: CustomFilterType,
) -> Seq<FrameV> {
    frames.map_values(|f: FrameV| resampled_frame(f, dst_width, dst_height, filter))
}

/// Relies on `image::imageops::resize`: resamples the pixels to exactly the
/// requested dimensions with the chosen filter, stretching rather than
/// keeping the aspect ratio; it is deterministic in its arguments and total
/// over well-formed buffers whose target, and whose intermediate buffer of
/// source width by target height, fit in memory (the precondition bounds
/// both pixel counts, so neither buffer's size check can fail).
/// `image::RgbaImage::from_raw` is documented to return a buffer whenever the
/// container holds at least `4 * width * height` bytes, which
/// well-formedness guarantees exactly.
#[verifier::external_body]
fn resample_rgba(frame: &Frame, width: u32, height: u32, filter: CustomFilterType) -> (r: Option<
    Frame,
>)
    requires
        frame.wf(),
        resample_fits(frame@, width, height),
    ensures
        r is Some,
        r matches Some(f) ==> f.width == width && f.height == height && f.rgba@ == resampled(
            frame.rgba@,
            frame.width,
            frame.height,
            width,
            height,
            filter_code(filter),
        ) && f.rgba@.len() == 4 * (width as int) * (height as int),
{
    let ft = match filter {
        CustomFilterType::Nearest => image::imageops::FilterType::Nearest,
        CustomFilterType::Triangle => image::imageops::FilterType::Triangle,
        CustomFilterType::CatmullRom => image::imageops::FilterType::CatmullRom,
        CustomFilterType::Gaussian => image::imageops::FilterType::Gaussian,
        CustomFilterType::Lanczos3 => image::imageops::FilterType::Lanczos3,
    };
    match image::RgbaImage::from_raw(frame.width, frame.height, frame.rgba.clone()) {
        Some(buf) => {
            let out = image::imageops::resize(&buf, width, height, ft);
            Some(Frame { width, height, rgba: out.into_raw() })
        },
        None => None,
    }
}

/// Resamples one frame to the target dimensions.
pub fn resample_frame(frame: &Frame, width: u32, height: u32, filter: CustomFilterType) -> (r:
    Frame)
    requires
        frame.wf(),
        resample_fits(frame@, width, height),
    ensures
        r@ == resampled_frame(frame@, width, height, filter),
        r.wf(),
{
    match resample_rgba(frame, width, height, filter) {
        Some(f) => f,
        None => vstd::pervasive::unreached(),
    }
}



} // verus!
