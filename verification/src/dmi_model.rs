//! The decoded DMI model: raw icon data as the format decoder hands it over,
//! and the parsed aggregate built from it.
//!
//! Images are stored frame-major across directions in the raw flat list:
//! frame `f` of direction `d` sits at flat index `d + f * dirs`. Extraction
//! tolerates truncated files by stopping early instead of failing the state.

use vstd::prelude::*;

use crate::animation::{
    animate, delay_view, effective_delays, frames_encodable, gif_encoding, spec_repeat, LoopMode,
};
use crate::dmi_utils::{spec_direction_index, CustomFilterType, Directions};
use crate::frame::{frames_view, Frame, FrameV};
use crate::resize::{
    effective_resize, resample_fits, resample_frame, resampled_frame, resampled_frames,
    spec_displayed_size, spec_effective_resize, StateboxResizing,
};

verus! {

/// One state as the raw format decoder delivers it: declared direction and
/// frame counts, playback metadata, and the flat frame-major image list.
/// Delays are in milliseconds (the decoder's ticks times one hundred).
#[derive(Debug, Clone)]
pub struct RawState {
    pub name: String,
    pub dirs: u8,
    pub frames: u32,
    pub images: Vec<Frame>,
    pub delay: Option<Vec<u32>>,
    pub loop_mode: LoopMode,
    pub rewind: bool,
    pub movement: bool,
}

impl RawState {
    /// Every raw image carries exactly one RGBA quadruple per pixel.
    pub open spec fn wf(&self) -> bool {
        forall|i: int| 0 <= i < self.images@.len() ==> self.images@[i].wf()
    }

    /// The resampler's buffers fit in memory for every image of this state
    /// under the given target dimensions.
    #[verifier::opaque]
    pub open spec fn resample_fits_all(&self, width: u32, height: u32) -> bool {
        forall|i: int|
            0 <= i < self.images@.len() ==> resample_fits(
                (#[trigger] self.images@[i])@,
                width,
                height,
            )
    }
}

/// A raw icon as the format decoder delivers it: the source dimensions and
/// the list of raw states, in file order, duplicate names included.
#[derive(Debug, Clone)]
pub struct RawIcon {
    pub width: u32,
    pub height: u32,
    pub states: Vec<RawState>,
}

impl RawIcon {
    /// Every state's images are well formed.
    pub open spec fn wf(&self) -> bool {
        forall|i: int| 0 <= i < self.states@.len() ==> (#[trigger] self.states@[i]).wf()
    }

    /// The resampler's buffers fit in memory for every image of every state
    /// under the given target dimensions.
    pub open spec fn resample_fits_all(&self, width: u32, height: u32) -> bool {
        forall|i: int|
            0 <= i < self.states@.len() ==> (#[trigger] self.states@[i]).resample_fits_all(
                width,
                height,
            )
    }
}

/// An encoded animation: one owned GIF byte stream. The playable widget
/// handle derived from these same bytes belongs to the surrounding shell.
#[derive(Debug, Clone)]
pub struct Animated {
    pub bytes: Vec<u8>,
}

impl Animated {
    pub fn new(bytes: Vec<u8>) -> (r: Self)
        ensures
            r.bytes@ == bytes@,
    {
        Animated { bytes }
    }
}

/// How many frames extraction yields for direction `d` of a state declaring
/// `frame_count` frames over `dirs` directions, when the flat image list
/// holds `len` entries: `min(frame_count, ceil((len - d) / dirs))`, clamped
/// at zero. Extraction never reads at or past `len`.
pub open spec fn spec_extracted_count(frame_count: int, dirs: int, d: int, len: int) -> int
    recommends
        1 <= dirs,
        0 <= d < dirs,
        0 <= len,
{
    let avail = if d >= len {
        0
    } else {
        (len - d + dirs - 1) / dirs
    };
    if frame_count <= avail {
        frame_count
    } else {
        avail
    }
}

/// When `a <= c * b`, the ceiling of `a / b` is at most `c`.
proof fn lemma_ceil_le(a: int, b: int, c: int)
    requires
        1 <= b,
        0 <= a,
        0 <= c,
        a <= c * b,
    ensures
        (a + b - 1) / b <= c,
{
    let q = (a + b - 1) / b;
    let r = (a + b - 1) % b;
    vstd::arithmetic::div_mod::lemma_fundamental_div_mod(a + b - 1, b);
    if q >= c + 1 {
        assert(b * q >= b * (c + 1)) by (nonlinear_arith)
            requires
                q >= c + 1,
                b >= 1,
        ;
        assert(b * (c + 1) == c * b + b) by (nonlinear_arith);
        assert(false);
    }
}

/// When `(c - 1) * b < a`, the ceiling of `a / b` is at least `c`.
proof fn lemma_le_ceil(a: int, b: int, c: int)
    requires
        1 <= b,
        0 <= a,
        1 <= c,
        (c - 1) * b < a,
    ensures
        c <= (a + b - 1) / b,
{
    let q = (a + b - 1) / b;
    let r = (a + b - 1) % b;
    vstd::arithmetic::div_mod::lemma_fundamental_div_mod(a + b - 1, b);
    if q <= c - 1 {
        assert(b * q <= b * (c - 1)) by (nonlinear_arith)
            requires
                q <= c - 1,
                b >= 1,
        ;
        assert(b * (c - 1) == (c - 1) * b) by (nonlinear_arith);
        assert(false);
    }
}

/// Slices the flat frame-major image list of a state into the frame sequence
/// of direction `dir_index`: frame `f` is read at flat index
/// `dir_index + f * dirs`, and extraction stops early, without failing, at
/// the first index that falls outside the list.
#[verifier::loop_isolation(false)]
pub fn extract_frames(images: &Vec<Frame>, dir_index: u8, dirs: u8, frame_count: u32) -> (r: Vec<
    Frame,
>)
    requires
        1 <= dirs,
        dir_index < dirs,
    ensures
        r@.len() == spec_extracted_count(
            frame_count as int,
            dirs as int,
            dir_index as int,
            images@.len() as int,
        ),
        forall|f: int|
            #![trigger r@[f]]
            0 <= f < r@.len() ==> dir_index + f * dirs < images@.len() && r@[f]@ == images@[
                dir_index + f * dirs
            ]@,
{
    let ghost d = dir_index as int;
    let ghost dn = dirs as int;
    let ghost len = images@.len() as int;
    let mut out: Vec<Frame> = Vec::new();
    let mut f: u32 = 0;
    let mut stop: u8 = 0;
    while stop == 0 && f < frame_count
        invariant
            f <= frame_count,
            stop <= 1,
            out@.len() == f as int,
            1 <= dn,
            0 <= d < dn,
            d == dir_index as int,
            dn == dirs as int,
            len == images@.len() as int,
            forall|j: int| 0 <= j < f as int ==> d + #[trigger] (j * dn) < len,
            forall|j: int|
                #![trigger out@[j]]
                0 <= j < f as int ==> out@[j]@ == images@[d + j * dn]@,
            stop == 1 ==> d + (f as int) * dn >= len,
        decreases frame_count - f + 1 - stop,
    {
        proof {
            assert((f as int) * dn <= 0xffff_ffff * 0xff) by (nonlinear_arith)
                requires
                    0 <= f as int <= 0xffff_ffff,
                    0 <= dn <= 0xff,
            ;
        }
        let idx: u64 = dir_index as u64 + (f as u64) * (dirs as u64);
        if idx >= images.len() as u64 {
            stop = 1;
        } else {
            out.push(images[idx as usize].clone());
            f = f + 1;
        }
    }
    proof {
        // The loop stops either at the declared frame count or at the first
        // flat index that falls outside the list; both agree with the
        // min-with-ceiling count.
        let cnt = out@.len() as int;
        if cnt == frame_count as int {
            if cnt >= 1 {
                assert(out@[cnt - 1]@ == images@[d + (cnt - 1) * dn]@);
                assert(d + (cnt - 1) * dn < len);
                assert((cnt - 1) * dn >= 0) by (nonlinear_arith)
                    requires
                        cnt - 1 >= 0,
                        dn >= 1,
                ;
                lemma_le_ceil(len - d, dn, cnt);
            } else if d < len {
                vstd::arithmetic::div_mod::lemma_div_pos_is_pos(len - d + dn - 1, dn);
            }
        } else {
            assert(d + cnt * dn >= len);
            if d >= len {
                if cnt >= 1 {
                    assert(out@[0]@ == images@[d + 0 * dn]@);
                    assert(d + 0 * dn < len);
                    assert(false);
                }
            } else {
                if cnt == 0 {
                    assert(d + 0 * dn >= len);
                    assert(false);
                }
                assert(out@[cnt - 1]@ == images@[d + (cnt - 1) * dn]@);
                assert(d + (cnt - 1) * dn < len);
                lemma_ceil_le(len - d, dn, cnt);
                lemma_le_ceil(len - d, dn, cnt);
            }
        }
        assert(out@.len() == spec_extracted_count(frame_count as int, dn, d, len));
    }
    out
}

/// The original frame sequence extraction yields for direction `d` of a
/// state with the given flat image list, direction count and frame count.
pub open spec fn spec_extract(images: Seq<FrameV>, d: int, dirs: int, frame_count: int) -> Seq<
    FrameV,
> {
    Seq::new(
        spec_extracted_count(frame_count, dirs, d, images.len() as int) as nat,
        |f: int| images[d + f * dirs],
    )
}

/// The per-direction images of one state: the original frames, the optional
/// resized derivatives, and the optional synthesized animations. The two
/// `resized_*` fields and the two `*_animated` fields are independently
/// optional: animation synthesis can fail while frames stand, and the other
/// way round.
#[derive(Debug, Clone)]
pub struct DirImage {
    pub resized_frames: Option<Vec<Frame>>,
    pub original_frames: Vec<Frame>,
    pub resized_animated: Option<Animated>,
    pub original_animated: Option<Animated>,
}

impl Default for DirImage {
    fn default() -> (r: Self)
        ensures
            r.resized_frames is None,
            r.original_frames@.len() == 0,
            r.resized_animated is None,
            r.original_animated is None,
    {
        DirImage {
            resized_frames: None,
            original_frames: Vec::new(),
            resized_animated: None,
            original_animated: None,
        }
    }
}

/// What a parsed per-direction entry holds, relative to the raw data it was
/// built from: the originals are exactly the extracted frames; an original
/// animation, where present, encodes them with the state's delays and loop
/// mode; and the resized derivatives exist exactly under an effective
/// `Resized` request on a non-empty frame sequence, resampled to its
/// dimensions.
pub open spec fn dir_image_matches(
    di: DirImage,
    images: Seq<FrameV>,
    d: int,
    dirs: int,
    frame_count: int,
    loop_mode: LoopMode,
    delay: Option<Seq<u32>>,
    resizing: StateboxResizing,
    filter: CustomFilterType,
) -> bool {
    let orig = spec_extract(images, d, dirs, frame_count);
    &&& frames_view(di.original_frames@) == orig
    &&& (match di.original_animated {
        Some(a) => a.bytes@ == gif_encoding(
            orig,
            effective_delays(delay, orig.len()),
            spec_repeat(loop_mode),
        ),
        None => true,
    })
    &&& (di.original_animated is Some <==> orig.len() > 0 && frames_encodable(orig))
    &&& (orig.len() == 0 ==> di.resized_frames is None && di.resized_animated is None)
    &&& (match resizing {
        StateboxResizing::Original => di.resized_frames is None && di.resized_animated is None,
        StateboxResizing::Resized { height, width } => orig.len() > 0 ==> {
            &&& (match di.resized_frames {
                Some(rf) => frames_view(rf@) == resampled_frames(orig, width, height, filter),
                None => false,
            })
            &&& (match di.resized_animated {
                Some(a) => a.bytes@ == gif_encoding(
                    resampled_frames(orig, width, height, filter),
                    effective_delays(delay, orig.len()),
                    spec_repeat(loop_mode),
                ),
                None => true,
            })
            &&& (di.resized_animated is Some <==> frames_encodable(
                resampled_frames(orig, width, height, filter),
            ))
        },
    })
}

/// Resamples every frame of a sequence to the target dimensions.
fn resample_all(frames: &Vec<Frame>, width: u32, height: u32, filter: CustomFilterType) -> (r: Vec<
    Frame,
>)
    requires
        forall|i: int| 0 <= i < frames@.len() ==> frames@[i].wf(),
        forall|i: int|
            0 <= i < frames@.len() ==> resample_fits((#[trigger] frames@[i])@, width, height),
    ensures
        r@.len() == frames@.len(),
        forall|i: int|
            #![trigger r@[i]]
            0 <= i < r@.len() ==> r@[i]@ == resampled_frame(frames@[i]@, width, height, filter)
                && r@[i].wf(),
        frames_view(r@) == resampled_frames(frames_view(frames@), width, height, filter),
{
    let n = frames.len();
    let mut out: Vec<Frame> = Vec::new();
    let mut i: usize = 0;
    while i < n
        invariant
            i <= n,
            n == frames@.len(),
            out@.len() == i as int,
            forall|k: int| 0 <= k < frames@.len() ==> (#[trigger] frames@[k]).wf(),
            forall|k: int|
                0 <= k < frames@.len() ==> resample_fits((#[trigger] frames@[k])@, width, height),
            forall|k: int|
                #![trigger out@[k]]
                0 <= k < i as int ==> out@[k]@ == resampled_frame(frames@[k]@, width, height, filter)
                    && out@[k].wf(),
        decreases n - i,
    {
        let resized = resample_frame(&frames[i], width, height, filter);
        out.push(resized);
        i = i + 1;
    }
    proof {
        assert(frames_view(out@) =~= resampled_frames(frames_view(frames@), width, height, filter));
    }
    out
}

impl DirImage {
    /// The resampler's buffers fit in memory for every original frame of
    /// this entry under the given target dimensions.
    #[verifier::opaque]
    pub open spec fn resample_fits_all(&self, width: u32, height: u32) -> bool {
        forall|i: int|
            0 <= i < self.original_frames@.len() ==> resample_fits(
                (#[trigger] self.original_frames@[i])@,
                width,
                height,
            )
    }

    /// The frame sequence consumers currently see: the resized derivative
    /// where one exists, the originals otherwise.
    pub open spec fn spec_display_frames(&self) -> Seq<Frame> {
        match self.resized_frames {
            Some(rf) => rf@,
            None => self.original_frames@,
        }
    }

    /// Builds the per-direction entry for `direction` of a raw state:
    /// extracts the original frames, synthesizes their animation, and, under
    /// a `Resized` request, resamples them and synthesizes the resized
    /// animation too. A direction whose extraction yields no frames becomes
    /// the empty default entry.
    pub fn parse_from_raw(
        state: &RawState,
        resizing: &StateboxResizing,
        direction: Directions,
        frame_num: u32,
        loop_mode: LoopMode,
        filter_type: CustomFilterType,
    ) -> (r: Self)
        requires
            state.wf(),
            1 <= state.dirs,
            spec_direction_index(direction) < state.dirs,
            *resizing matches StateboxResizing::Resized { height, width }
                ==> state.resample_fits_all(width, height),
        ensures
            dir_image_matches(
                r,
                frames_view(state.images@),
                spec_direction_index(direction) as int,
                state.dirs as int,
                frame_num as int,
                loop_mode,
                delay_view(state.delay),
                *resizing,
                filter_type,
            ),
            forall|i: int|
                0 <= i < r.original_frames@.len() ==> (#[trigger] r.original_frames@[i]).wf(),
    {
        let dir_index: u8 = u8::from(direction);
        let original_frames = extract_frames(&state.images, dir_index, state.dirs, frame_num);
        let ghost orig = spec_extract(
            frames_view(state.images@),
            dir_index as int,
            state.dirs as int,
            frame_num as int,
        );
        proof {
            reveal(RawState::resample_fits_all);
            assert(frames_view(original_frames@) =~= orig);
            assert forall|i: int| 0 <= i < original_frames@.len() implies (#[trigger] original_frames@[
                i
            ]).wf() by {
                assert(original_frames@[i]@ == state.images@[dir_index as int + i
                    * state.dirs as int]@);
                assert(state.images@[dir_index as int + i * state.dirs as int].wf());
            }
            match *resizing {
                StateboxResizing::Resized { height, width } => {
                    assert forall|i: int| 0 <= i < original_frames@.len() implies resample_fits(
                        (#[trigger] original_frames@[i])@,
                        width,
                        height,
                    ) by {
                        assert(original_frames@[i]@ == state.images@[dir_index as int + i
                            * state.dirs as int]@);
                        assert(resample_fits(
                            state.images@[dir_index as int + i * state.dirs as int]@,
                            width,
                            height,
                        ));
                    }
                },
                StateboxResizing::Original => {},
            }
        }
        if original_frames.len() == 0 {
            let empty = DirImage::default();
            proof {
                assert(frames_view(empty.original_frames@) =~= orig);
            }
            return empty;
        }
        let original_animated = match animate(&original_frames, &loop_mode, &state.delay) {
            Ok(bytes) => Some(Animated::new(bytes)),
            Err(_) => None,
        };
        match resizing {
            StateboxResizing::Original => DirImage {
                resized_frames: None,
                original_frames,
                resized_animated: None,
                original_animated,
            },
            StateboxResizing::Resized { height, width } => {
                let resized_frames = resample_all(&original_frames, *width, *height, filter_type);
                let resized_animated = match animate(&resized_frames, &loop_mode, &state.delay) {
                    Ok(bytes) => Some(Animated::new(bytes)),
                    Err(_) => None,
                };
                DirImage {
                    resized_frames: Some(resized_frames),
                    original_frames,
                    resized_animated,
                    original_animated,
                }
            },
        }
    }

    /// Recomputes the resized derivative of this entry in place, leaving the
    /// original frames and the original animation untouched. An `Original`
    /// request, or an empty frame sequence, clears the derivative instead of
    /// leaving it stale.
    pub fn resize(
        &mut self,
        loop_mode: LoopMode,
        delay: &Option<Vec<u32>>,
        resizing: StateboxResizing,
        filter_type: CustomFilterType,
    )
        requires
            forall|i: int|
                0 <= i < old(self).original_frames@.len() ==> (#[trigger] old(self).original_frames@[i]).wf(),
            resizing matches StateboxResizing::Resized { height, width } ==> old(
                self,
            ).resample_fits_all(width, height),
        ensures
            final(self).original_frames == old(self).original_frames,
            final(self).original_animated == old(self).original_animated,
            match resizing {
                StateboxResizing::Original => final(self).resized_frames is None && final(self).resized_animated is None,
                StateboxResizing::Resized { height, width } => {
                    &&& (old(self).original_frames@.len() == 0 ==> final(self).resized_frames
                        is None && final(self).resized_animated is None)
                    &&& (old(self).original_frames@.len() > 0 ==> {
                        let resampled_seq = resampled_frames(
                            frames_view(old(self).original_frames@),
                            width,
                            height,
                            filter_type,
                        );
                        &&& (match final(self).resized_frames {
                            Some(rf) => frames_view(rf@) == resampled_seq,
                            None => false,
                        })
                        &&& (match final(self).resized_animated {
                            Some(a) => a.bytes@ == gif_encoding(
                                resampled_seq,
                                effective_delays(
                                    delay_view(*delay),
                                    old(self).original_frames@.len(),
                                ),
                                spec_repeat(loop_mode),
                            ),
                            None => true,
                        })
                        &&& (final(self).resized_animated is Some <==> frames_encodable(
                            resampled_seq,
                        ))
                    })
                },
            },
    {
        proof {
            reveal(DirImage::resample_fits_all);
        }
        match resizing {
            StateboxResizing::Original => {
                self.resized_frames = None;
                self.resized_animated = None;
            },
            StateboxResizing::Resized { height, width } => {
                if self.original_frames.len() == 0 {
                    self.resized_frames = None;
                    self.resized_animated = None;
                } else {
                    let resized_frames = resample_all(
                        &self.original_frames,
                        width,
                        height,
                        filter_type,
                    );
                    let resized_animated = match animate(&resized_frames, &loop_mode, delay) {
                        Ok(bytes) => Some(Animated::new(bytes)),
                        Err(_) => None,
                    };
                    self.resized_animated = resized_animated;
                    self.resized_frames = Some(resized_frames);
                }
            },
        }
    }

    /// The displayed frame at `frame`: from the resized derivative where one
    /// exists, from the originals otherwise.
    pub fn get_frame(&self, frame: usize) -> (r: Option<&Frame>)
        ensures
            frame < self.spec_display_frames().len() ==> (r matches Some(f) && *f
                == self.spec_display_frames()[frame as int]),
            frame >= self.spec_display_frames().len() ==> r is None,
    {
        match &self.resized_frames {
            Some(frames) => {
                if frame < frames.len() {
                    Some(&frames[frame])
                } else {
                    None
                }
            },
            None => {
                if frame < self.original_frames.len() {
                    Some(&self.original_frames[frame])
                } else {
                    None
                }
            },
        }
    }

    /// The original frame at `frame`, untouched by any resize.
    pub fn get_original_frame(&self, frame: usize) -> (r: Option<&Frame>)
        ensures
            frame < self.original_frames@.len() ==> (r matches Some(f) && *f
                == self.original_frames@[frame as int]),
            frame >= self.original_frames@.len() ==> r is None,
    {
        if frame < self.original_frames.len() {
            Some(&self.original_frames[frame])
        } else {
            None
        }
    }

    /// The displayed animation: the resized one where it exists, the
    /// original otherwise.
    pub fn get_animated(&self) -> (r: Option<&Animated>)
        ensures
            match self.resized_animated {
                Some(_) => (r matches Some(a) && Some(*a) == self.resized_animated),
                None => match self.original_animated {
                    Some(_) => (r matches Some(a) && Some(*a) == self.original_animated),
                    None => r is None,
                },
            },
    {
        if let Some(animated) = &self.resized_animated {
            Some(animated)
        } else {
            self.original_animated.as_ref()
        }
    }

    /// The original animation, untouched by any resize.
    pub fn get_original_animated(&self) -> (r: Option<&Animated>)
        ensures
            match self.original_animated {
                Some(_) => (r matches Some(a) && Some(*a) == self.original_animated),
                None => r is None,
            },
    {
        self.original_animated.as_ref()
    }
}

/// How many direction entries a declared direction count yields: the
/// format reserves eight ordinals, so at most eight entries are built.
pub open spec fn spec_dir_count(dirs: u8) -> int {
    if dirs as int <= 8 {
        dirs as int
    } else {
        8
    }
}

/// One named animation unit of an icon: its playback metadata and one
/// per-direction entry for each declared direction, keyed by the direction
/// ordinal.
#[derive(Debug, Clone)]
pub struct ParsedState {
    pub name: String,
    pub delay: Option<Vec<u32>>,
    pub loop_mode: LoopMode,
    pub rewind: bool,
    pub frames: u32,
    pub movement: bool,
    pub dirs: Vec<DirImage>,
}

impl Default for ParsedState {
    fn default() -> (r: Self)
        ensures
            r.name@.len() == 0,
            r.delay is None,
            r.loop_mode == LoopMode::Infinite,
            !r.rewind,
            r.frames == 0,
            !r.movement,
            r.dirs@.len() == 0,
    {
        ParsedState {
            name: String::new(),
            delay: None,
            loop_mode: LoopMode::Infinite,
            rewind: false,
            frames: 0,
            movement: false,
            dirs: Vec::new(),
        }
    }
}

/// What a parsed state holds, relative to the raw state it was built from:
/// the metadata is carried over unchanged, and entry `d` of `dirs` is the
/// per-direction entry for ordinal `d`.
#[verifier::opaque]
pub open spec fn state_matches_raw(
    ps: ParsedState,
    raw: RawState,
    resizing: StateboxResizing,
    filter: CustomFilterType,
) -> bool {
    &&& ps.name@ == raw.name@
    &&& delay_view(ps.delay) == delay_view(raw.delay)
    &&& ps.loop_mode == raw.loop_mode
    &&& ps.rewind == raw.rewind
    &&& ps.frames == raw.frames
    &&& ps.movement == raw.movement
    &&& ps.dirs@.len() == spec_dir_count(raw.dirs)
    &&& forall|d: int|
        0 <= d < ps.dirs@.len() ==> dir_image_matches(
            #[trigger] ps.dirs@[d],
            frames_view(raw.images@),
            d,
            raw.dirs as int,
            raw.frames as int,
            raw.loop_mode,
            delay_view(raw.delay),
            resizing,
            filter,
        )
}

/// How a per-direction entry after a resize relates to the entry before it:
/// the originals are untouched, and the resized derivative is recomputed
/// under a `Resized` request on a non-empty frame sequence and cleared
/// otherwise.
pub open spec fn dir_resized_from(
    new_di: DirImage,
    old_di: DirImage,
    loop_mode: LoopMode,
    delay: Option<Seq<u32>>,
    resizing: StateboxResizing,
    filter: CustomFilterType,
) -> bool {
    &&& new_di.original_frames == old_di.original_frames
    &&& new_di.original_animated == old_di.original_animated
    &&& match resizing {
        StateboxResizing::Original => new_di.resized_frames is None && new_di.resized_animated
            is None,
        StateboxResizing::Resized { height, width } => {
            &&& (old_di.original_frames@.len() == 0 ==> new_di.resized_frames is None
                && new_di.resized_animated is None)
            &&& (old_di.original_frames@.len() > 0 ==> {
                let resampled_seq = resampled_frames(
                    frames_view(old_di.original_frames@),
                    width,
                    height,
                    filter,
                );
                &&& (match new_di.resized_frames {
                    Some(rf) => frames_view(rf@) == resampled_seq,
                    None => false,
                })
                &&& (match new_di.resized_animated {
                    Some(a) => a.bytes@ == gif_encoding(
                        resampled_seq,
                        effective_delays(delay, old_di.original_frames@.len()),
                        spec_repeat(loop_mode),
                    ),
                    None => true,
                })
                &&& (new_di.resized_animated is Some <==> frames_encodable(resampled_seq))
            })
        },
    }
}

/// How a whole state after a resize relates to the state before it: the
/// metadata and the original data are untouched, each per-direction entry is
/// resized.
pub open spec fn state_resized_from(
    new_ps: ParsedState,
    old_ps: ParsedState,
    resizing: StateboxResizing,
    filter: CustomFilterType,
) -> bool {
    &&& new_ps.name == old_ps.name
    &&& new_ps.delay == old_ps.delay
    &&& new_ps.loop_mode == old_ps.loop_mode
    &&& new_ps.rewind == old_ps.rewind
    &&& new_ps.frames == old_ps.frames
    &&& new_ps.movement == old_ps.movement
    &&& new_ps.dirs@.len() == old_ps.dirs@.len()
    &&& forall|d: int|
        0 <= d < new_ps.dirs@.len() ==> dir_resized_from(
            #[trigger] new_ps.dirs@[d],
            old_ps.dirs@[d],
            old_ps.loop_mode,
            delay_view(old_ps.delay),
            resizing,
            filter,
        )
}

/// Copies an optional delay sequence.
fn clone_delay(delay: &Option<Vec<u32>>) -> (r: Option<Vec<u32>>)
    ensures
        delay_view(r) == delay_view(*delay),
{
    match delay {
        Some(v) => {
            let n = v.len();
            let mut out: Vec<u32> = Vec::new();
            let mut i: usize = 0;
            while i < n
                invariant
                    i <= n,
                    n == v@.len(),
                    out@ =~= v@.subrange(0, i as int),
                decreases n - i,
            {
                out.push(v[i]);
                i = i + 1;
            }
            proof {
                assert(out@ =~= v@);
            }
            Some(out)
        },
        None => None,
    }
}

impl ParsedState {
    /// Every original frame held by every direction entry is well formed.
    #[verifier::opaque]
    pub open spec fn wf(&self) -> bool {
        forall|d: int, i: int|
            0 <= d < self.dirs@.len() && 0 <= i < self.dirs@[d].original_frames@.len()
                ==> (#[trigger] self.dirs@[d].original_frames@[i]).wf()
    }

    /// The resampler's buffers fit in memory for every original frame of
    /// every direction entry under the given target dimensions.
    pub open spec fn resample_fits_all(&self, width: u32, height: u32) -> bool {
        forall|d: int|
            0 <= d < self.dirs@.len() ==> (#[trigger] self.dirs@[d]).resample_fits_all(
                width,
                height,
            )
    }

    /// The per-direction entry for a direction, where the state declares it.
    pub open spec fn spec_dir(&self, dir: Directions) -> Option<DirImage> {
        if spec_direction_index(dir) < self.dirs@.len() {
            Some(self.dirs@[spec_direction_index(dir) as int])
        } else {
            None
        }
    }

    /// Builds one state of the model from a raw state: one per-direction
    /// entry for each declared direction ordinal, under the already
    /// effective resize request.
    #[verifier::loop_isolation(false)]
    pub fn parse_from_raw(
        state: &RawState,
        resizing: StateboxResizing,
        filter_type: CustomFilterType,
    ) -> (r: Self)
        requires
            state.wf(),
            resizing matches StateboxResizing::Resized { height, width }
                ==> state.resample_fits_all(width, height),
        ensures
            state_matches_raw(r, *state, resizing, filter_type),
            r.wf(),
    {
        proof {
            reveal(state_matches_raw);
            reveal(ParsedState::wf);
        }
        let n: u8 = if state.dirs > 8 {
            8
        } else {
            state.dirs
        };
        let mut dirs: Vec<DirImage> = Vec::new();
        let mut d: u8 = 0;
        while d < n
            invariant
                d <= n,
                dirs@.len() == d as int,
                forall|k: int|
                    0 <= k < d as int ==> dir_image_matches(
                        #[trigger] dirs@[k],
                        frames_view(state.images@),
                        k,
                        state.dirs as int,
                        state.frames as int,
                        state.loop_mode,
                        delay_view(state.delay),
                        resizing,
                        filter_type,
                    ),
                forall|k: int, i: int|
                    0 <= k < d as int && 0 <= i < dirs@[k].original_frames@.len()
                        ==> (#[trigger] dirs@[k].original_frames@[i]).wf(),
            decreases n - d,
        {
            let direction: Directions = Directions::from(d);
            proof {
                crate::dmi_utils::lemma_direction_round_trip(d);
            }
            let di = DirImage::parse_from_raw(
                state,
                &resizing,
                direction,
                state.frames,
                state.loop_mode,
                filter_type,
            );
            dirs.push(di);
            d = d + 1;
        }
        ParsedState {
            name: state.name.clone(),
            delay: clone_delay(&state.delay),
            loop_mode: state.loop_mode,
            rewind: state.rewind,
            frames: state.frames,
            movement: state.movement,
            dirs,
        }
    }

    /// Recomputes the resized derivative of every direction entry in place,
    /// leaving the metadata and the original data untouched.
    #[verifier::loop_isolation(false)]
    pub fn resize(&mut self, resizing: StateboxResizing, filter_type: CustomFilterType)
        requires
            old(self).wf(),
            resizing matches StateboxResizing::Resized { height, width } ==> old(
                self,
            ).resample_fits_all(width, height),
        ensures
            state_resized_from(*final(self), *old(self), resizing, filter_type),
            final(self).wf(),
    {
        proof {
            reveal(ParsedState::wf);
        }
        let n = self.dirs.len();
        let mut d: usize = 0;
        while d < n
            invariant
                d <= n,
                n == self.dirs@.len(),
                self.name == old(self).name,
                self.delay == old(self).delay,
                self.loop_mode == old(self).loop_mode,
                self.rewind == old(self).rewind,
                self.frames == old(self).frames,
                self.movement == old(self).movement,
                self.dirs@.len() == old(self).dirs@.len(),
                forall|k: int|
                    0 <= k < d as int ==> dir_resized_from(
                        #[trigger] self.dirs@[k],
                        old(self).dirs@[k],
                        old(self).loop_mode,
                        delay_view(old(self).delay),
                        resizing,
                        filter_type,
                    ),
                forall|k: int| d as int <= k < n ==> self.dirs@[k] == old(self).dirs@[k],
            decreases n - d,
        {
            let loop_mode = self.loop_mode;
            let delay = clone_delay(&self.delay);
            let di: &mut DirImage = &mut self.dirs[d];
            di.resize(loop_mode, &delay, resizing, filter_type);
            d = d + 1;
        }
    }

    /// The displayed frame at `frame` for a direction.
    pub fn get_frame(&self, dir: &Directions, frame: usize) -> (r: Option<&Frame>)
        ensures
            match self.spec_dir(*dir) {
                Some(di) => (frame < di.spec_display_frames().len() ==> (r matches Some(f) && *f
                    == di.spec_display_frames()[frame as int])) && (frame
                    >= di.spec_display_frames().len() ==> r is None),
                None => r is None,
            },
    {
        let index: u8 = u8::from(*dir);
        if (index as usize) < self.dirs.len() {
            self.dirs[index as usize].get_frame(frame)
        } else {
            None
        }
    }

    /// The original frame at `frame` for a direction, untouched by any
    /// resize.
    pub fn get_original_frame(&self, dir: &Directions, frame: usize) -> (r: Option<&Frame>)
        ensures
            match self.spec_dir(*dir) {
                Some(di) => (frame < di.original_frames@.len() ==> (r matches Some(f) && *f
                    == di.original_frames@[frame as int])) && (frame >= di.original_frames@.len()
                    ==> r is None),
                None => r is None,
            },
    {
        let index: u8 = u8::from(*dir);
        if (index as usize) < self.dirs.len() {
            self.dirs[index as usize].get_original_frame(frame)
        } else {
            None
        }
    }

    /// The displayed animation for a direction.
    pub fn get_animated(&self, dir: &Directions) -> (r: Option<&Animated>)
        ensures
            match self.spec_dir(*dir) {
                Some(di) => match di.resized_animated {
                    Some(_) => (r matches Some(a) && Some(*a) == di.resized_animated),
                    None => match di.original_animated {
                        Some(_) => (r matches Some(a) && Some(*a) == di.original_animated),
                        None => r is None,
                    },
                },
                None => r is None,
            },
    {
        let index: u8 = u8::from(*dir);
        if (index as usize) < self.dirs.len() {
            self.dirs[index as usize].get_animated()
        } else {
            None
        }
    }

    /// The original animation for a direction, untouched by any resize.
    pub fn get_original_animated(&self, dir: &Directions) -> (r: Option<&Animated>)
        ensures
            match self.spec_dir(*dir) {
                Some(di) => match di.original_animated {
                    Some(_) => (r matches Some(a) && Some(*a) == di.original_animated),
                    None => r is None,
                },
                None => r is None,
            },
    {
        let index: u8 = u8::from(*dir);
        if (index as usize) < self.dirs.len() {
            self.dirs[index as usize].get_original_animated()
        } else {
            None
        }
    }
}

/// Whether `k` is the last index before `bound` holding a state of its name.
pub open spec fn is_last_with_name_upto(raws: Seq<RawState>, k: int, bound: int) -> bool {
    &&& 0 <= k < bound <= raws.len()
    &&& forall|m: int| k < m < bound ==> (#[trigger] raws[m]).name@ != raws[k].name@
}

/// What the parsed state list holds once the raw states before `bound` have
/// been folded in: names unique, every entry built from the last raw state
/// of its name seen so far, every seen name present, every entry well
/// formed.
pub open spec fn states_match_raw_upto(
    states: Seq<ParsedState>,
    raws: Seq<RawState>,
    bound: int,
    resizing: StateboxResizing,
    filter: CustomFilterType,
) -> bool {
    &&& forall|i: int, j: int|
        0 <= i < j < states.len() ==> (#[trigger] states[i]).name@ != (#[trigger] states[j]).name@
    &&& forall|j: int|
        0 <= j < states.len() ==> exists|k: int|
            #![trigger is_last_with_name_upto(raws, k, bound)]
            is_last_with_name_upto(raws, k, bound) && raws[k].name@ == (#[trigger] states[j]).name@
                && state_matches_raw(states[j], raws[k], resizing, filter)
    &&& forall|k: int|
        0 <= k < bound ==> exists|j: int|
            0 <= j < states.len() && (#[trigger] raws[k]).name@ == states[j].name@
    &&& forall|j: int| 0 <= j < states.len() ==> (#[trigger] states[j]).wf()
}

/// What the parsed state list holds, relative to the whole raw state list:
/// one entry per distinct raw name, each built from the last raw state of
/// that name (a later duplicate overwrites an earlier one).
pub open spec fn states_match_raw(
    states: Seq<ParsedState>,
    raws: Seq<RawState>,
    resizing: StateboxResizing,
    filter: CustomFilterType,
) -> bool {
    states_match_raw_upto(states, raws, raws.len() as int, resizing, filter)
}

/// Folding in a raw state whose name is already present replaces that entry
/// and keeps the state list matching the raw prefix.
#[verifier::rlimit(50)]
proof fn lemma_states_replace(
    states_old: Seq<ParsedState>,
    raws: Seq<RawState>,
    bound: int,
    j: int,
    ps: ParsedState,
    resizing: StateboxResizing,
    filter: CustomFilterType,
)
    requires
        0 <= bound < raws.len(),
        states_match_raw_upto(states_old, raws, bound, resizing, filter),
        0 <= j < states_old.len(),
        states_old[j].name@ == raws[bound].name@,
        state_matches_raw(ps, raws[bound], resizing, filter),
        ps.wf(),
    ensures
        states_match_raw_upto(states_old.update(j, ps), raws, bound + 1, resizing, filter),
{
    reveal(state_matches_raw);
    let states_new = states_old.update(j, ps);
    assert(ps.name@ == raws[bound].name@);
    assert forall|j2: int| 0 <= j2 < states_new.len() implies (#[trigger] states_new[j2]).name@
        == states_old[j2].name@ by {
        if j2 != j {
            assert(states_new[j2] == states_old[j2]);
        }
    }
    assert forall|i: int, j2: int| 0 <= i < j2 < states_new.len() implies (
    #[trigger] states_new[i]).name@ != (#[trigger] states_new[j2]).name@ by {
        assert(states_new[i].name@ == states_old[i].name@);
        assert(states_new[j2].name@ == states_old[j2].name@);
    }
    assert forall|j2: int| 0 <= j2 < states_new.len() implies exists|k: int|
        #![trigger is_last_with_name_upto(raws, k, bound + 1)]
        is_last_with_name_upto(raws, k, bound + 1) && raws[k].name@ == (
        #[trigger] states_new[j2]).name@ && state_matches_raw(
        states_new[j2],
        raws[k],
        resizing,
        filter,
    ) by {
        if j2 == j {
            assert(is_last_with_name_upto(raws, bound, bound + 1));
            assert(states_new[j2] == ps);
        } else {
            let k2 = choose|k2: int|
                is_last_with_name_upto(raws, k2, bound) && raws[k2].name@ == (
                #[trigger] states_old[j2]).name@ && state_matches_raw(
                    states_old[j2],
                    raws[k2],
                    resizing,
                    filter,
                );
            assert(states_new[j2] == states_old[j2]);
            assert(states_old[j2].name@ != states_old[j].name@);
            assert(raws[k2].name@ != raws[bound].name@);
            assert(is_last_with_name_upto(raws, k2, bound + 1));
        }
    }
    assert forall|k2: int| 0 <= k2 < bound + 1 implies exists|j2: int|
        0 <= j2 < states_new.len() && (#[trigger] raws[k2]).name@ == states_new[j2].name@ by {
        if k2 == bound {
            assert(states_new[j].name@ == raws[bound].name@);
        } else {
            let j2 = choose|j2: int|
                0 <= j2 < states_old.len() && (#[trigger] raws[k2]).name@ == states_old[j2].name@;
            assert(states_new[j2].name@ == states_old[j2].name@);
        }
    }
    assert forall|j2: int| 0 <= j2 < states_new.len() implies (#[trigger] states_new[j2]).wf() by {
        if j2 != j {
            assert(states_new[j2] == states_old[j2]);
        }
    }
}

/// Folding in a raw state whose name is new appends its entry and keeps the
/// state list matching the raw prefix.
#[verifier::rlimit(50)]
proof fn lemma_states_push(
    states_old: Seq<ParsedState>,
    raws: Seq<RawState>,
    bound: int,
    ps: ParsedState,
    resizing: StateboxResizing,
    filter: CustomFilterType,
)
    requires
        0 <= bound < raws.len(),
        states_match_raw_upto(states_old, raws, bound, resizing, filter),
        forall|j: int|
            0 <= j < states_old.len() ==> (#[trigger] states_old[j]).name@ != raws[bound].name@,
        state_matches_raw(ps, raws[bound], resizing, filter),
        ps.wf(),
    ensures
        states_match_raw_upto(states_old.push(ps), raws, bound + 1, resizing, filter),
{
    reveal(state_matches_raw);
    let states_new = states_old.push(ps);
    assert(ps.name@ == raws[bound].name@);
    assert forall|j2: int| 0 <= j2 < states_old.len() implies (#[trigger] states_new[j2])
        == states_old[j2] by {}
    assert forall|i: int, j2: int| 0 <= i < j2 < states_new.len() implies (
    #[trigger] states_new[i]).name@ != (#[trigger] states_new[j2]).name@ by {
        if j2 == states_old.len() as int {
            assert(states_new[i] == states_old[i]);
        } else {
            assert(states_new[i] == states_old[i]);
            assert(states_new[j2] == states_old[j2]);
        }
    }
    assert forall|j2: int| 0 <= j2 < states_new.len() implies exists|k: int|
        #![trigger is_last_with_name_upto(raws, k, bound + 1)]
        is_last_with_name_upto(raws, k, bound + 1) && raws[k].name@ == (
        #[trigger] states_new[j2]).name@ && state_matches_raw(
        states_new[j2],
        raws[k],
        resizing,
        filter,
    ) by {
        if j2 == states_old.len() as int {
            assert(is_last_with_name_upto(raws, bound, bound + 1));
            assert(states_new[j2] == ps);
        } else {
            let k2 = choose|k2: int|
                is_last_with_name_upto(raws, k2, bound) && raws[k2].name@ == (
                #[trigger] states_old[j2]).name@ && state_matches_raw(
                    states_old[j2],
                    raws[k2],
                    resizing,
                    filter,
                );
            assert(states_new[j2] == states_old[j2]);
            assert(raws[k2].name@ != raws[bound].name@);
            assert(is_last_with_name_upto(raws, k2, bound + 1));
        }
    }
    assert forall|k2: int| 0 <= k2 < bound + 1 implies exists|j2: int|
        0 <= j2 < states_new.len() && (#[trigger] raws[k2]).name@ == states_new[j2].name@ by {
        if k2 == bound {
            assert(states_new[states_old.len() as int].name@ == raws[bound].name@);
        } else {
            let j2 = choose|j2: int|
                0 <= j2 < states_old.len() && (#[trigger] raws[k2]).name@ == states_old[j2].name@;
            assert(states_new[j2] == states_old[j2]);
        }
    }
    assert forall|j2: int| 0 <= j2 < states_new.len() implies (#[trigger] states_new[j2]).wf() by {
        if j2 < states_old.len() as int {
            assert(states_new[j2] == states_old[j2]);
        } else {
            assert(states_new[j2] == ps);
        }
    }
}

/// The position of the state carrying `name`, where one exists.
fn find_state_index(states: &Vec<ParsedState>, name: &String) -> (r: Option<usize>)
    ensures
        match r {
            Some(j) => j < states@.len() && states@[j as int].name@ == name@,
            None => forall|j: int|
                0 <= j < states@.len() ==> (#[trigger] states@[j]).name@ != name@,
        },
{
    let n = states.len();
    let mut j: usize = 0;
    while j < n
        invariant
            j <= n,
            n == states@.len(),
            forall|m: int| 0 <= m < j as int ==> (#[trigger] states@[m]).name@ != name@,
        decreases n - j,
    {
        if states[j].name == *name {
            return Some(j);
        }
        j = j + 1;
    }
    None
}

/// The whole decoded icon: its source and displayed dimensions and its
/// states. A duplicate state name in the source is a known format quirk;
/// the last state of a name wins, so names are unique here.
#[derive(Debug, Clone)]
pub struct ParsedDMI {
    pub original_height: u32,
    pub original_width: u32,
    pub displayed_height: u32,
    pub displayed_width: u32,
    pub states: Vec<ParsedState>,
}

impl Default for ParsedDMI {
    fn default() -> (r: Self)
        ensures
            r.original_height == 0,
            r.original_width == 0,
            r.displayed_height == 0,
            r.displayed_width == 0,
            r.states@.len() == 0,
    {
        ParsedDMI {
            original_height: 0,
            original_width: 0,
            displayed_height: 0,
            displayed_width: 0,
            states: Vec::new(),
        }
    }
}

/// Parses every raw state under the effective request, a later duplicate
/// name overwriting an earlier entry, so that names come out unique.
fn parse_states(
    raw_states: &Vec<RawState>,
    eff: StateboxResizing,
    filter_type: CustomFilterType,
) -> (states: Vec<ParsedState>)
    requires
        forall|i: int| 0 <= i < raw_states@.len() ==> (#[trigger] raw_states@[i]).wf(),
        eff matches StateboxResizing::Resized { height, width } ==> forall|i: int|
            0 <= i < raw_states@.len() ==> (#[trigger] raw_states@[i]).resample_fits_all(
                width,
                height,
            ),
    ensures
        states_match_raw(states@, raw_states@, eff, filter_type),
        forall|j: int| 0 <= j < states@.len() ==> (#[trigger] states@[j]).wf(),
{
    let n = raw_states.len();
    let mut states: Vec<ParsedState> = Vec::new();
    let mut k: usize = 0;
    while k < n
        invariant
            k <= n,
            n == raw_states@.len(),
            forall|i: int| 0 <= i < raw_states@.len() ==> (#[trigger] raw_states@[i]).wf(),
            eff matches StateboxResizing::Resized { height, width } ==> forall|i: int|
                0 <= i < raw_states@.len() ==> (#[trigger] raw_states@[i]).resample_fits_all(
                    width,
                    height,
                ),
            states_match_raw_upto(states@, raw_states@, k as int, eff, filter_type),
        decreases n - k,
    {
        let ps = ParsedState::parse_from_raw(&raw_states[k], eff, filter_type);
        let ghost states_old = states@;
        match find_state_index(&states, &raw_states[k].name) {
            Some(j) => {
                let slot: &mut ParsedState = &mut states[j];
                *slot = ps;
                proof {
                    lemma_states_replace(
                        states_old,
                        raw_states@,
                        k as int,
                        j as int,
                        ps,
                        eff,
                        filter_type,
                    );
                    assert(states@ =~= states_old.update(j as int, ps));
                }
            },
            None => {
                states.push(ps);
                proof {
                    lemma_states_push(states_old, raw_states@, k as int, ps, eff, filter_type);
                    assert(states@ =~= states_old.push(ps));
                }
            },
        }
        k = k + 1;
    }
    states
}

impl ParsedDMI {
    /// Every state is well formed.
    pub open spec fn wf(&self) -> bool {
        forall|s: int| 0 <= s < self.states@.len() ==> (#[trigger] self.states@[s]).wf()
    }

    /// The resampler's buffers fit in memory for every original frame of
    /// every state under the given target dimensions.
    pub open spec fn resample_fits_all(&self, width: u32, height: u32) -> bool {
        forall|s: int|
            0 <= s < self.states@.len() ==> (#[trigger] self.states@[s]).resample_fits_all(
                width,
                height,
            )
    }

    /// Builds the whole model from a raw icon: the resize policy is applied
    /// to the request once, the displayed dimensions follow it, and every
    /// raw state is parsed under the effective request, a later duplicate
    /// name overwriting an earlier entry.
    pub fn parse_from_raw(
        raw: RawIcon,
        resizing: StateboxResizing,
        filter_type: CustomFilterType,
    ) -> (r: Self)
        requires
            raw.wf(),
            spec_effective_resize(raw.height, raw.width, resizing) matches StateboxResizing::Resized {
                height,
                width,
            } ==> raw.resample_fits_all(width, height),
        ensures
            r.original_height == raw.height,
            r.original_width == raw.width,
            (r.displayed_height, r.displayed_width) == spec_displayed_size(
                raw.height,
                raw.width,
                spec_effective_resize(raw.height, raw.width, resizing),
            ),
            states_match_raw(
                r.states@,
                raw.states@,
                spec_effective_resize(raw.height, raw.width, resizing),
                filter_type,
            ),
            r.wf(),
    {
        let eff = effective_resize(raw.height, raw.width, resizing);
        let (displayed_height, displayed_width) = match eff {
            StateboxResizing::Original => (raw.height, raw.width),
            StateboxResizing::Resized { height, width } => (height, width),
        };
        let states = parse_states(&raw.states, eff, filter_type);
        ParsedDMI {
            original_height: raw.height,
            original_width: raw.width,
            displayed_height,
            displayed_width,
            states,
        }
    }

    /// Applies the resize policy to a request and recomputes every state's
    /// resized derivatives under the effective request, never touching the
    /// original data. An effective request of `Original` clears all
    /// derivatives rather than leaving them stale.
    #[verifier::loop_isolation(false)]
    pub fn resize(&mut self, resizing: StateboxResizing, filter_type: CustomFilterType)
        requires
            old(self).wf(),
            spec_effective_resize(
                old(self).original_height,
                old(self).original_width,
                resizing,
            ) matches StateboxResizing::Resized { height, width } ==> old(self).resample_fits_all(
                width,
                height,
            ),
        ensures
            final(self).original_height == old(self).original_height,
            final(self).original_width == old(self).original_width,
            (final(self).displayed_height, final(self).displayed_width) == spec_displayed_size(
                old(self).original_height,
                old(self).original_width,
                spec_effective_resize(
                    old(self).original_height,
                    old(self).original_width,
                    resizing,
                ),
            ),
            final(self).states@.len() == old(self).states@.len(),
            forall|j: int|
                0 <= j < old(self).states@.len() ==> state_resized_from(
                    #[trigger] final(self).states@[j],
                    old(self).states@[j],
                    spec_effective_resize(
                        old(self).original_height,
                        old(self).original_width,
                        resizing,
                    ),
                    filter_type,
                ),
            final(self).wf(),
    {
        let eff = effective_resize(self.original_height, self.original_width, resizing);
        match eff {
            StateboxResizing::Original => {
                self.displayed_height = self.original_height;
                self.displayed_width = self.original_width;
            },
            StateboxResizing::Resized { height, width } => {
                self.displayed_height = height;
                self.displayed_width = width;
            },
        }
        let n = self.states.len();
        let mut j: usize = 0;
        while j < n
            invariant
                j <= n,
                n == self.states@.len(),
                self.states@.len() == old(self).states@.len(),
                self.original_height == old(self).original_height,
                self.original_width == old(self).original_width,
                eff == spec_effective_resize(
                    old(self).original_height,
                    old(self).original_width,
                    resizing,
                ),
                (self.displayed_height, self.displayed_width) == spec_displayed_size(
                    old(self).original_height,
                    old(self).original_width,
                    eff,
                ),
                forall|m: int|
                    0 <= m < j as int ==> state_resized_from(
                        #[trigger] self.states@[m],
                        old(self).states@[m],
                        eff,
                        filter_type,
                    ),
                forall|m: int| j as int <= m < n ==> self.states@[m] == old(self).states@[m],
                forall|m: int| 0 <= m < j as int ==> (#[trigger] self.states@[m]).wf(),
            decreases n - j,
        {
            let slot: &mut ParsedState = &mut self.states[j];
            slot.resize(eff, filter_type);
            j = j + 1;
        }
    }

    /// The state carrying `name`, where one exists; names are unique after a
    /// parse, so the match is the entry built from the last raw state of
    /// that name.
    pub fn get_state(&self, name: &String) -> (r: Option<&ParsedState>)
        ensures
            match r {
                Some(ps) => ps.name@ == name@ && exists|j: int|
                    0 <= j < self.states@.len() && (#[trigger] self.states@[j]) == *ps,
                None => forall|j: int|
                    0 <= j < self.states@.len() ==> (#[trigger] self.states@[j]).name@ != name@,
            },
    {
        match find_state_index(&self.states, name) {
            Some(j) => Some(&self.states[j]),
            None => None,
        }
    }
}

/// Non-destructive resize: a resize never changes what the original frame
/// accessors return. For every state and direction entry, the original
/// frames and the original animation after the resize are those before it.
pub proof fn lemma_resize_non_destructive(
    pre: ParsedDMI,
    post: ParsedDMI,
    effective: StateboxResizing,
    filter: CustomFilterType,
    j: int,
    d: int,
)
    requires
        post.states.len() == pre.states.len(),
        0 <= j < pre.states@.len(),
        state_resized_from(post.states@[j], pre.states@[j], effective, filter),
        0 <= d < pre.states@[j].dirs@.len(),
    ensures
        post.states@[j].dirs@[d].original_frames == pre.states@[j].dirs@[d].original_frames,
        post.states@[j].dirs@[d].original_animated == pre.states@[j].dirs@[d].original_animated,
{
}

/// The names of the raw states, in file order, duplicates included.
pub fn state_names(icon: &RawIcon) -> (r: Vec<String>)
    ensures
        r@.len() == icon.states@.len(),
        forall|k: int| 0 <= k < r@.len() ==> (#[trigger] r@[k])@ == icon.states@[k].name@,
{
    let n = icon.states.len();
    let mut out: Vec<String> = Vec::new();
    let mut k: usize = 0;
    while k < n
        invariant
            k <= n,
            n == icon.states@.len(),
            out@.len() == k as int,
            forall|m: int| 0 <= m < k as int ==> (#[trigger] out@[m])@ == icon.states@[m].name@,
        decreases n - k,
    {
        out.push(icon.states[k].name.clone());
        k = k + 1;
    }
    out
}

/// The still frame an export of `name` yields: the first image of the last
/// raw state carrying that name that has any image, where there is one.
pub fn first_frame_of_named_state<'a>(icon: &'a RawIcon, name: &String) -> (r: Option<&'a Frame>)
    ensures
        match r {
            Some(f) => exists|k: int|
                #![trigger icon.states@[k]]
                0 <= k < icon.states@.len() && icon.states@[k].name@ == name@ && icon.states@[
                    k
                ].images@.len() > 0 && *f == icon.states@[k].images@[0] && forall|m: int|
                    k < m < icon.states@.len() ==> (#[trigger] icon.states@[m]).name@ != name@
                        || icon.states@[m].images@.len() == 0,
            None => forall|k: int|
                0 <= k < icon.states@.len() ==> (#[trigger] icon.states@[k]).name@ != name@
                    || icon.states@[k].images@.len() == 0,
        },
{
    let n = icon.states.len();
    let mut best: Option<usize> = None;
    let mut k: usize = 0;
    while k < n
        invariant
            k <= n,
            n == icon.states@.len(),
            match best {
                Some(b) => b < k && icon.states@[b as int].name@ == name@ && icon.states@[
                    b as int
                ].images@.len() > 0 && forall|m: int|
                    b < m < k as int ==> (#[trigger] icon.states@[m]).name@ != name@
                        || icon.states@[m].images@.len() == 0,
                None => forall|m: int|
                    0 <= m < k as int ==> (#[trigger] icon.states@[m]).name@ != name@
                        || icon.states@[m].images@.len() == 0,
            },
        decreases n - k,
    {
        if icon.states[k].name == *name && icon.states[k].images.len() > 0 {
            best = Some(k);
        }
        k = k + 1;
    }
    match best {
        Some(b) => Some(&icon.states[b].images[0]),
        None => None,
    }
}

/// The text that joins a list of names with a separator between every two
/// neighbours: nothing for an empty list, and no leading or trailing
/// separator otherwise.
pub open spec fn spec_joined(names: Seq<Seq<char>>, delimeter: Seq<char>) -> Seq<char>
    decreases names.len(),
{
    if names.len() == 0 {
        Seq::empty()
    } else if names.len() == 1 {
        names[0]
    } else {
        spec_joined(names.drop_last(), delimeter) + delimeter + names.last()
    }
}

/// Joins names with the configured separator, as the copy action hands them
/// to the clipboard.
pub fn join_names(names: &Vec<String>, delimeter: &String) -> (r: String)
    ensures
        r@ == spec_joined(names@.map_values(|s: String| s@), delimeter@),
{
    let ghost all = names@.map_values(|s: String| s@);
    let mut out = String::new();
    let mut i: usize = 0;
    while i < names.len()
        invariant
            i <= names@.len(),
            all == names@.map_values(|s: String| s@),
            out@ == spec_joined(all.subrange(0, i as int), delimeter@),
        decreases names@.len() - i,
    {
        if i > 0 {
            out.append(delimeter.as_str());
        }
        out.append(names[i].as_str());
        i = i + 1;
        proof {
            let prefix = all.subrange(0, i as int);
            assert(prefix.drop_last() =~= all.subrange(0, i as int - 1));
            assert(prefix.last() == all[i as int - 1]);
        }
    }
    proof {
        assert(all.subrange(0, all.len() as int) =~= all);
    }
    out
}


} // verus!
