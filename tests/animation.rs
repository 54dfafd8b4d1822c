use sprite_frames::{Animation, AnimationError};

const MS: u64 = 1_000_000;

fn knight() -> Animation<&'static str> {
    Animation::new(vec!["A", "B", "C", "D"], 0, 140 * MS).unwrap()
}

#[test]
fn scenario_four_frames_at_140ms() {
    let mut anim = knight();
    let mut shown = "A";

    anim.tick(100 * MS, &mut shown);
    assert_eq!(anim.elapsed(), 100 * MS);
    assert_eq!(anim.frame(), 0);
    assert_eq!(shown, "A");

    anim.tick(100 * MS, &mut shown);
    assert_eq!(shown, "A");
    assert_eq!(anim.frame(), 1);
    assert_eq!(anim.elapsed(), 60 * MS);

    let expected_shown = ["B", "C", "D", "A", "B", "C", "D"];
    let expected_cursor = [2, 3, 0, 1, 2, 3, 0];
    for i in 0..expected_shown.len() {
        anim.tick(140 * MS, &mut shown);
        assert_eq!(shown, expected_shown[i]);
        assert_eq!(anim.frame(), expected_cursor[i]);
        assert_eq!(anim.elapsed(), 60 * MS);
    }
}

#[test]
fn new_rejects_empty_frames() {
    let r = Animation::<&str>::new(Vec::new(), 0, 140 * MS);
    assert!(matches!(r, Err(AnimationError::NoFrames)));
}

#[test]
fn new_rejects_zero_period() {
    let r = Animation::new(vec!["A", "B"], 0, 0);
    assert!(matches!(r, Err(AnimationError::ZeroPeriod)));
}

#[test]
fn new_reports_empty_frames_before_zero_period() {
    let r = Animation::<&str>::new(Vec::new(), 0, 0);
    assert!(matches!(r, Err(AnimationError::NoFrames)));
}

#[test]
fn new_rejects_cursor_past_the_end() {
    let r = Animation::new(vec!["A", "B"], 2, 10);
    assert!(matches!(r, Err(AnimationError::FrameOutOfRange)));
}

#[test]
fn new_starts_with_no_time_accumulated() {
    let anim = Animation::new(vec![7u32, 8, 9], 2, 25).unwrap();
    assert_eq!(anim.frame(), 2);
    assert_eq!(anim.period(), 25);
    assert_eq!(anim.elapsed(), 0);
    assert_eq!(anim.frames(), &[7u32, 8, 9][..]);
}

#[test]
fn whole_periods_over_uneven_ticks_land_on_the_count() {
    // 4 periods of 50 in ticks of uneven size, over 3 frames.
    let mut anim = Animation::new(vec![10u32, 11, 12], 0, 50).unwrap();
    let mut shown = 0u32;
    for d in [20u64, 30, 75, 25, 50] {
        anim.tick(d, &mut shown);
    }
    assert_eq!(anim.frame(), 4 % 3);
    assert_eq!(anim.elapsed(), 0);
    assert_eq!(shown, 10 + (4 - 1) % 3);
}

#[test]
fn zero_ticks_change_nothing() {
    let mut anim = knight();
    let mut shown = "Z";
    anim.tick(30 * MS, &mut shown);
    for _ in 0..100 {
        anim.tick(0, &mut shown);
    }
    assert_eq!(anim.frame(), 0);
    assert_eq!(anim.elapsed(), 30 * MS);
    assert_eq!(shown, "Z");
}

#[test]
fn no_advance_just_below_the_period() {
    let mut anim = knight();
    let mut shown = "Z";
    anim.tick(140 * MS - 1, &mut shown);
    assert_eq!(anim.frame(), 0);
    assert_eq!(anim.elapsed(), 140 * MS - 1);
    assert_eq!(shown, "Z");
    anim.tick(1, &mut shown);
    assert_eq!(anim.frame(), 1);
    assert_eq!(anim.elapsed(), 0);
    assert_eq!(shown, "A");
}

#[test]
fn long_pause_advances_by_every_lapsed_period() {
    let mut anim = Animation::new(vec!["A", "B", "C", "D"], 1, 10).unwrap();
    let mut shown = "Z";
    anim.tick(35, &mut shown);
    // Three periods lapse: frames 1, 2 and 3 are stepped over.
    assert_eq!(shown, "D");
    assert_eq!(anim.frame(), 0);
    assert_eq!(anim.elapsed(), 5);
}

#[test]
fn wraps_after_many_cycles_in_one_tick() {
    let mut anim = Animation::new(vec!["A", "B", "C"], 0, 10).unwrap();
    let mut shown = "Z";
    anim.tick(10 * 3 * 1000 + 10 * 2, &mut shown);
    assert_eq!(anim.frame(), 2);
    assert_eq!(shown, "B");
    assert_eq!(anim.elapsed(), 0);
}

#[test]
fn largest_delta_does_not_overflow() {
    let mut anim = Animation::new(vec![0u8, 1, 2, 3, 4], 4, u64::MAX).unwrap();
    let mut shown = 9u8;
    anim.tick(u64::MAX - 1, &mut shown);
    assert_eq!(anim.elapsed(), u64::MAX - 1);
    assert_eq!(shown, 9);
    anim.tick(u64::MAX, &mut shown);
    // (u64::MAX - 1) + u64::MAX = one period plus u64::MAX - 1.
    assert_eq!(anim.elapsed(), u64::MAX - 1);
    assert_eq!(anim.frame(), 0);
    assert_eq!(shown, 4);
}

#[test]
fn single_frame_repeats_itself() {
    let mut anim = Animation::new(vec!["only"], 0, 3).unwrap();
    let mut shown = "none";
    anim.tick(7, &mut shown);
    assert_eq!(anim.frame(), 0);
    assert_eq!(anim.elapsed(), 1);
    assert_eq!(shown, "only");
}
