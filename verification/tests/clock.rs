//! Fixed-timestep accumulator: step counts, lag carry, interpolation bound.

use stagecraft::app::FrameClock;
use stagecraft::draw::{DrawBatch, DrawFlip};

#[test]
fn sixty_fps_steps_sixteen_milliseconds() {
    let clock = FrameClock::new(60, 0);
    assert_eq!(clock.step(), 16);
    assert_eq!(clock.lag(), 0);
}

#[test]
fn forty_milliseconds_at_sixty_fps_runs_two_steps() {
    let mut clock = FrameClock::new(60, 0);
    let mut updates = 0u64;
    let steps = clock.advance(40);
    for _ in 0..steps {
        updates += 1;
    }
    // update runs exactly twice before the frame is drawn
    assert_eq!(updates, 2);
    // the leftover lag carries to the next frame
    assert_eq!(clock.lag(), 8);
    // and the draw interpolation factor lies in [0, 1)
    let interp = clock.lag() as f64 / clock.step() as f64;
    assert!(0.0 <= interp && interp < 1.0);

    // next frame, 16 ms later: the carried 8 ms join the fresh 16
    let steps = clock.advance(56);
    assert_eq!(steps, 1);
    assert_eq!(clock.lag(), 8);
}

#[test]
fn short_frame_runs_no_step_and_accumulates() {
    let mut clock = FrameClock::new(60, 0);
    assert_eq!(clock.advance(10), 0);
    assert_eq!(clock.lag(), 10);
    assert_eq!(clock.advance(20), 1);
    assert_eq!(clock.lag(), 4);
}

#[test]
fn clock_going_backwards_counts_no_elapsed_time() {
    let mut clock = FrameClock::new(60, 100);
    assert_eq!(clock.advance(40), 0);
    assert_eq!(clock.lag(), 0);
    // and the clock resynchronizes to the new reading
    assert_eq!(clock.advance(56), 1);
}

#[test]
fn extreme_rates_keep_whole_millisecond_steps() {
    assert_eq!(FrameClock::new(1000, 0).step(), 1);
    assert_eq!(FrameClock::new(1, 0).step(), 1000);
    assert_eq!(FrameClock::new(30, 0).step(), 33);
}

#[test]
fn draw_batch_starts_empty() {
    let batch: DrawBatch<u32, &'static str> = DrawBatch::new("hud");
    assert_eq!(batch.context, "hud");
    assert!(batch.instructions.is_empty());
}

#[test]
fn draw_flip_carries_both_axes() {
    let flip = DrawFlip { horizontal: true, vertical: false };
    assert!(flip.horizontal);
    assert!(!flip.vertical);
}
