use dmi_assistant::animation::LoopMode;
use dmi_assistant::dmi_model::{
    extract_frames, first_frame_of_named_state, join_names, state_names, ParsedDMI, RawIcon,
    RawState,
};
use dmi_assistant::dmi_utils::{CustomFilterType, Directions};
use dmi_assistant::frame::Frame;
use dmi_assistant::resize::StateboxResizing;

/// A well-formed frame filled with one repeated byte, so frames are easy to
/// tell apart.
fn solid_frame(width: u32, height: u32, byte: u8) -> Frame {
    Frame {
        width,
        height,
        rgba: vec![byte; (4 * width * height) as usize],
    }
}

/// A raw state whose image at flat index `i` is filled with byte `i`.
fn raw_state(name: &str, dirs: u8, frames: u32, image_count: usize, size: u32) -> RawState {
    let mut images = Vec::new();
    for i in 0..image_count {
        images.push(solid_frame(size, size, i as u8));
    }
    RawState {
        name: name.to_string(),
        dirs,
        frames,
        images,
        delay: Some(vec![100, 100]),
        loop_mode: LoopMode::Infinite,
        rewind: false,
        movement: false,
    }
}

#[test]
fn extraction_full_grid() {
    // dirs = 4, frames = 2, 8 images: every direction gets two frames, the
    // one for direction d and frame f sitting at flat index d + 4 * f.
    let state = raw_state("idle", 4, 2, 8, 2);
    for d in 0..4u8 {
        let frames = extract_frames(&state.images, d, 4, 2);
        assert_eq!(frames.len(), 2);
        assert_eq!(frames[0].rgba, state.images[d as usize].rgba);
        assert_eq!(frames[1].rgba, state.images[d as usize + 4].rgba);
    }
}

#[test]
fn extraction_truncates_at_list_end() {
    // Same state but only 6 images: directions 0 and 1 keep two frames,
    // directions 2 and 3 are truncated to one, matching
    // min(frames, ceil((len - d) / dirs)).
    let state = raw_state("idle", 4, 2, 6, 2);
    let expected = [2usize, 2, 1, 1];
    for d in 0..4u8 {
        let frames = extract_frames(&state.images, d, 4, 2);
        assert_eq!(frames.len(), expected[d as usize]);
    }
}

#[test]
fn extraction_missing_direction_is_empty() {
    // Direction 3 of a one-image state has nothing to extract.
    let state = raw_state("idle", 4, 2, 1, 2);
    let frames = extract_frames(&state.images, 3, 4, 2);
    assert_eq!(frames.len(), 0);
}

#[test]
fn parse_full_icon() {
    // One state, four directions, two frames, eight images: four direction
    // entries of two original frames each, every one animated.
    let icon = RawIcon {
        width: 2,
        height: 2,
        states: vec![raw_state("idle", 4, 2, 8, 2)],
    };
    let parsed = ParsedDMI::parse_from_raw(icon, StateboxResizing::Original, CustomFilterType::Nearest);
    assert_eq!(parsed.original_width, 2);
    assert_eq!(parsed.original_height, 2);
    assert_eq!(parsed.displayed_width, 2);
    assert_eq!(parsed.displayed_height, 2);
    assert_eq!(parsed.states.len(), 1);
    let state = parsed.get_state(&"idle".to_string()).expect("state missing");
    assert_eq!(state.dirs.len(), 4);
    for di in &state.dirs {
        assert_eq!(di.original_frames.len(), 2);
        assert!(di.get_original_animated().is_some());
        assert!(di.resized_frames.is_none());
    }
}

#[test]
fn parse_truncated_icon_keeps_state() {
    // The same file with only six images present: the state still exists,
    // directions 2 and 3 just hold one frame.
    let icon = RawIcon {
        width: 2,
        height: 2,
        states: vec![raw_state("idle", 4, 2, 6, 2)],
    };
    let parsed = ParsedDMI::parse_from_raw(icon, StateboxResizing::Original, CustomFilterType::Nearest);
    let state = parsed.get_state(&"idle".to_string()).expect("state missing");
    assert_eq!(state.dirs.len(), 4);
    assert_eq!(state.dirs[0].original_frames.len(), 2);
    assert_eq!(state.dirs[1].original_frames.len(), 2);
    assert_eq!(state.dirs[2].original_frames.len(), 1);
    assert_eq!(state.dirs[3].original_frames.len(), 1);
}

#[test]
fn duplicate_state_names_last_wins() {
    let first = raw_state("walk", 1, 1, 1, 2);
    let mut second = raw_state("walk", 1, 2, 2, 2);
    second.rewind = true;
    let icon = RawIcon {
        width: 2,
        height: 2,
        states: vec![first, second],
    };
    let parsed = ParsedDMI::parse_from_raw(icon, StateboxResizing::Original, CustomFilterType::Nearest);
    assert_eq!(parsed.states.len(), 1);
    let state = parsed.get_state(&"walk".to_string()).expect("state missing");
    assert_eq!(state.frames, 2);
    assert!(state.rewind);
}

#[test]
fn get_state_unknown_name_is_none() {
    let icon = RawIcon {
        width: 2,
        height: 2,
        states: vec![raw_state("idle", 1, 1, 1, 2)],
    };
    let parsed = ParsedDMI::parse_from_raw(icon, StateboxResizing::Original, CustomFilterType::Nearest);
    assert!(parsed.get_state(&"missing".to_string()).is_none());
}

#[test]
fn resize_clamps_width_and_displays_it() {
    // A 128 by 32 request on a 64 by 64 original: width reverts to the
    // original, so the icon displays at 128 by 64.
    let icon = RawIcon {
        width: 64,
        height: 64,
        states: vec![raw_state("idle", 1, 1, 1, 64)],
    };
    let mut parsed =
        ParsedDMI::parse_from_raw(icon, StateboxResizing::Original, CustomFilterType::Nearest);
    parsed.resize(
        StateboxResizing::Resized { height: 128, width: 32 },
        CustomFilterType::Nearest,
    );
    assert_eq!(parsed.displayed_height, 128);
    assert_eq!(parsed.displayed_width, 64);
    let state = parsed.get_state(&"idle".to_string()).expect("state missing");
    let frame = state.get_frame(&Directions::South, 0).expect("frame missing");
    assert_eq!(frame.height, 128);
    assert_eq!(frame.width, 64);
}

#[test]
fn downscale_request_reverts_to_original() {
    // A request exceeding the original in neither dimension performs no
    // resize at all and keeps no resized buffers.
    let icon = RawIcon {
        width: 64,
        height: 64,
        states: vec![raw_state("idle", 1, 1, 1, 64)],
    };
    let mut parsed = ParsedDMI::parse_from_raw(
        icon,
        StateboxResizing::Resized { height: 32, width: 32 },
        CustomFilterType::Nearest,
    );
    assert_eq!(parsed.displayed_height, 64);
    assert_eq!(parsed.displayed_width, 64);
    let state = parsed.get_state(&"idle".to_string()).expect("state missing");
    assert!(state.dirs[0].resized_frames.is_none());
    assert!(state.dirs[0].resized_animated.is_none());
    // An explicit resize to equal dimensions clears derivatives too.
    parsed.resize(
        StateboxResizing::Resized { height: 64, width: 64 },
        CustomFilterType::Nearest,
    );
    assert_eq!(parsed.displayed_height, 64);
    assert_eq!(parsed.displayed_width, 64);
    let state = parsed.get_state(&"idle".to_string()).expect("state missing");
    assert!(state.dirs[0].resized_frames.is_none());
}

#[test]
fn resize_is_non_destructive() {
    // After any resize, the original frame accessors return pixel-identical
    // data.
    let icon = RawIcon {
        width: 2,
        height: 2,
        states: vec![raw_state("idle", 4, 2, 8, 2)],
    };
    let parsed =
        ParsedDMI::parse_from_raw(icon, StateboxResizing::Original, CustomFilterType::Nearest);
    let mut resized = parsed.clone();
    resized.resize(
        StateboxResizing::Resized { height: 8, width: 8 },
        CustomFilterType::Nearest,
    );
    assert_eq!(resized.displayed_height, 8);
    assert_eq!(resized.displayed_width, 8);
    let before = parsed.get_state(&"idle".to_string()).unwrap();
    let after = resized.get_state(&"idle".to_string()).unwrap();
    for d in 0..4u8 {
        let dir = Directions::from(d);
        for f in 0..2usize {
            let old_frame = before.get_original_frame(&dir, f).expect("missing before");
            let new_frame = after.get_original_frame(&dir, f).expect("missing after");
            assert_eq!(old_frame.width, new_frame.width);
            assert_eq!(old_frame.height, new_frame.height);
            assert_eq!(old_frame.rgba, new_frame.rgba);
        }
    }
}

#[test]
fn resize_applies_effective_request_to_frames() {
    // Nearest-neighbour upscale of a uniform frame stays uniform, at the
    // exact effective dimensions; the resampler visibly transformed it.
    let icon = RawIcon {
        width: 1,
        height: 1,
        states: vec![raw_state("dot", 1, 1, 1, 1)],
    };
    let mut parsed =
        ParsedDMI::parse_from_raw(icon, StateboxResizing::Original, CustomFilterType::Nearest);
    parsed.resize(
        StateboxResizing::Resized { height: 2, width: 2 },
        CustomFilterType::Nearest,
    );
    let state = parsed.get_state(&"dot".to_string()).unwrap();
    let frame = state.get_frame(&Directions::South, 0).expect("frame missing");
    assert_eq!(frame.width, 2);
    assert_eq!(frame.height, 2);
    assert_eq!(frame.rgba.len(), 16);
    assert_eq!(frame.rgba, vec![0u8; 16]);
    // The originals are still one pixel.
    let original = state.get_original_frame(&Directions::South, 0).expect("original missing");
    assert_eq!(original.width, 1);
    assert_eq!(original.rgba.len(), 4);
}

#[test]
fn state_names_lists_duplicates_in_order() {
    let icon = RawIcon {
        width: 2,
        height: 2,
        states: vec![
            raw_state("a", 1, 1, 1, 2),
            raw_state("b", 1, 1, 1, 2),
            raw_state("a", 1, 1, 1, 2),
        ],
    };
    let names = state_names(&icon);
    assert_eq!(names, vec!["a".to_string(), "b".to_string(), "a".to_string()]);
}

#[test]
fn first_frame_prefers_last_named_state_with_images() {
    let mut early = raw_state("x", 1, 1, 1, 2);
    early.images = vec![solid_frame(2, 2, 7)];
    let mut late_empty = raw_state("x", 1, 1, 1, 2);
    late_empty.images = Vec::new();
    let icon = RawIcon {
        width: 2,
        height: 2,
        states: vec![early, raw_state("y", 1, 1, 1, 2), late_empty],
    };
    let frame = first_frame_of_named_state(&icon, &"x".to_string()).expect("frame missing");
    assert_eq!(frame.rgba, vec![7u8; 16]);
    assert!(first_frame_of_named_state(&icon, &"z".to_string()).is_none());
}

#[test]
fn parse_with_resize_builds_derivatives() {
    // Parsing under an accepted upscale request produces resized frames and
    // a resized animation beside the untouched originals.
    let icon = RawIcon {
        width: 2,
        height: 2,
        states: vec![raw_state("idle", 1, 2, 2, 2)],
    };
    let parsed = ParsedDMI::parse_from_raw(
        icon,
        StateboxResizing::Resized { height: 4, width: 4 },
        CustomFilterType::Nearest,
    );
    assert_eq!(parsed.displayed_height, 4);
    assert_eq!(parsed.displayed_width, 4);
    let state = parsed.get_state(&"idle".to_string()).expect("state missing");
    let dir = &state.dirs[0];
    let resized = dir.resized_frames.as_ref().expect("no resized frames");
    assert_eq!(resized.len(), 2);
    assert_eq!(resized[0].width, 4);
    assert_eq!(resized[0].height, 4);
    assert!(dir.resized_animated.is_some());
    assert_eq!(dir.original_frames[0].width, 2);
}

#[test]
fn join_names_separates_neighbours() {
    let names = vec!["idle".to_string(), "walk".to_string(), "run".to_string()];
    assert_eq!(join_names(&names, &", ".to_string()), "idle, walk, run");
}

#[test]
fn join_names_edge_cases() {
    let none: Vec<String> = Vec::new();
    assert_eq!(join_names(&none, &", ".to_string()), "");
    assert_eq!(join_names(&vec!["solo".to_string()], &", ".to_string()), "solo");
}

#[test]
fn oversized_frames_keep_stills_but_no_animation() {
    // A frame too wide for the GIF container: the direction entry keeps its
    // still frames while no animated view is synthesized.
    let wide = solid_frame(70000, 1, 3);
    let state = RawState {
        name: "banner".to_string(),
        dirs: 1,
        frames: 1,
        images: vec![wide],
        delay: None,
        loop_mode: LoopMode::Infinite,
        rewind: false,
        movement: false,
    };
    let icon = RawIcon { width: 70000, height: 1, states: vec![state] };
    let parsed =
        ParsedDMI::parse_from_raw(icon, StateboxResizing::Original, CustomFilterType::Nearest);
    let state = parsed.get_state(&"banner".to_string()).expect("state missing");
    assert_eq!(state.dirs[0].original_frames.len(), 1);
    assert_eq!(state.dirs[0].original_frames[0].width, 70000);
    assert!(state.dirs[0].original_animated.is_none());
}
