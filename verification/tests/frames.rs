use hypetrigger::frames::{
    allocate_frame_buffers, frame_buffer_size, frame_size_fits, FrameDims, FrameRouter,
    ReadOutcome, RouterAction, CHANNELS,
};

#[test]
fn buffer_size_is_three_bytes_per_pixel() {
    assert_eq!(CHANNELS, 3);
    assert_eq!(frame_buffer_size(224, 224), 224 * 224 * 3);
    assert_eq!(frame_buffer_size(1, 1), 3);
    assert_eq!(frame_buffer_size(0, 1080), 0);
    assert_eq!(frame_buffer_size(1920, 1080), 6_220_800);
}

#[test]
fn buffer_size_fits_in_u32_up_to_the_limit() {
    assert!(frame_size_fits(1920, 1080));
    assert!(frame_size_fits(1_431_655_765, 1));
    assert!(!frame_size_fits(1_431_655_766, 1));
    assert!(!frame_size_fits(65536, 65536));
    assert!(frame_size_fits(0, u32::MAX));
    assert!(!frame_size_fits(u32::MAX, u32::MAX));
}

#[test]
fn buffers_are_zeroed_and_sized_per_trigger() {
    let dims = vec![FrameDims { width: 2, height: 3 }, FrameDims { width: 10, height: 1 }];
    let buffers = allocate_frame_buffers(&dims);
    assert_eq!(buffers.len(), 2);
    assert_eq!(buffers[0], vec![0u8; 18]);
    assert_eq!(buffers[1], vec![0u8; 30]);
}

#[test]
fn frames_go_round_robin_to_the_triggers() {
    let mut router = FrameRouter::new(3);
    let mut seen = Vec::new();
    for _ in 0..7 {
        let slot = router.current_slot();
        match router.on_read(ReadOutcome::Filled) {
            RouterAction::Dispatch(i) => {
                assert_eq!(i, slot);
                seen.push(i);
            }
            RouterAction::Stop => panic!("stopped while frames were read"),
        }
    }
    assert_eq!(seen, vec![0, 1, 2, 0, 1, 2, 0]);
    assert_eq!(router.current_slot(), 1);
}

#[test]
fn single_trigger_gets_every_frame() {
    let mut router = FrameRouter::new(1);
    for _ in 0..4 {
        assert!(router.on_read(ReadOutcome::Filled) == RouterAction::Dispatch(0));
    }
}

#[test]
fn end_of_stream_stops_without_advancing() {
    let mut router = FrameRouter::new(2);
    assert!(router.on_read(ReadOutcome::Filled) == RouterAction::Dispatch(0));
    assert!(router.on_read(ReadOutcome::Closed) == RouterAction::Stop);
    assert_eq!(router.current_slot(), 1);
}

#[test]
fn frame_after_a_full_round_goes_to_the_same_trigger() {
    let n = 5;
    let mut router = FrameRouter::new(n);
    let mut slots = Vec::new();
    for _ in 0..(3 * n) {
        if let RouterAction::Dispatch(i) = router.on_read(ReadOutcome::Filled) {
            slots.push(i);
        }
    }
    for k in 0..(2 * n) {
        assert_eq!(slots[k], slots[k + n]);
    }
    let mut round: Vec<usize> = slots[3..3 + n].to_vec();
    round.sort();
    assert_eq!(round, (0..n).collect::<Vec<_>>());
}
