use framegen::animator::{offset_sequence, AnimationState, Direction, PositionAnimator};
use framegen::frames::{failed_frames, ConfigError, Frame, FrameGen};
use framegen::raster::{band_width, build_bands, overlay, palette_color, Color, Raster};

fn config(time: usize, width: u32, height: u32, fps: u16, sweeper_height: u32) -> FrameGen {
    FrameGen { time, directory: String::from("."), width, height, fps, sweeper_height }
}

fn rgb(r: u8, g: u8, b: u8) -> Color {
    Color { r, g, b }
}

#[test]
fn band_width_is_an_eighth() {
    for w in 8u32..200 {
        let b = band_width(w);
        assert_eq!(b, w / 8);
        assert!(8 * b <= w);
    }
    assert_eq!(band_width(1920), 240);
    assert_eq!(band_width(15), 1);
}

#[test]
fn remainder_columns_stay_unfilled() {
    let r = build_bands(11, 2, false);
    assert_eq!(r.get_pixel(0, 0), rgb(255, 255, 255));
    assert_eq!(r.get_pixel(7, 1), rgb(0, 0, 0));
    assert_eq!(r.get_pixel(6, 1), rgb(0, 0, 255));
    for x in 8..11 {
        assert_eq!(r.get_pixel(x, 0), rgb(0, 0, 0));
    }
}

#[test]
fn palette_order() {
    let expected = [
        rgb(255, 255, 255),
        rgb(255, 255, 0),
        rgb(173, 216, 230),
        rgb(0, 255, 0),
        rgb(128, 0, 128),
        rgb(255, 0, 0),
        rgb(0, 0, 255),
        rgb(0, 0, 0),
    ];
    for k in 0..8u32 {
        assert_eq!(palette_color(k), expected[k as usize]);
    }
}

#[test]
fn eight_pixel_frame_reverses_sweeper_colors() {
    let g = config(1, 8, 10, 1, 2);
    let base = g.create_base();
    let sweeper = g.create_sweeper();
    assert_eq!((base.width, base.height), (8, 10));
    assert_eq!((sweeper.width, sweeper.height), (8, 2));
    for x in 0..8u32 {
        assert_eq!(base.get_pixel(x, 0), palette_color(x));
        assert_eq!(base.get_pixel(x, 9), palette_color(x));
        assert_eq!(sweeper.get_pixel(x, 0), palette_color(7 - x));
        assert_eq!(sweeper.get_pixel(x, 1), base.get_pixel(7 - x, 5));
    }
}

#[test]
fn two_frames_bounce_by_forty() {
    let g = config(1, 16, 100, 2, 20);
    let frames = g.frames().unwrap();
    assert_eq!(frames, vec![Frame { index: 0, offset: 0 }, Frame { index: 1, offset: 40 }]);
    let base = g.create_base();
    let sweeper = g.create_sweeper();
    let f1 = g.draw_frame(&base, &sweeper, frames[1].offset);
    assert_eq!(f1.get_pixel(0, 39), rgb(255, 255, 255));
    assert_eq!(f1.get_pixel(0, 40), rgb(0, 0, 0));
    assert_eq!(f1.get_pixel(0, 59), rgb(0, 0, 0));
    assert_eq!(f1.get_pixel(0, 60), rgb(255, 255, 255));
}

#[test]
fn frame_count_is_time_times_rate() {
    assert_eq!(config(10, 1920, 1080, 60, 60).frames().unwrap().len(), 600);
    assert_eq!(config(3, 8, 10, 7, 2).frames().unwrap().len(), 21);
    assert_eq!(config(0, 8, 10, 7, 2).frames().unwrap().len(), 0);
}

#[test]
fn offsets_stay_in_range_and_turn_at_bounds() {
    for &(h, s, fps) in &[(100u32, 20u32, 2u16), (1080, 60, 60), (10, 2, 3), (50, 7, 1), (9, 8, 5)] {
        let offs = offset_sequence(h, s, fps, 500);
        let bound = h - s;
        let mut down = true;
        for i in 0..offs.len() {
            assert!(offs[i] <= bound);
            if i > 0 {
                if down {
                    assert!(offs[i] >= offs[i - 1]);
                    if offs[i] == bound {
                        down = false;
                    }
                } else {
                    assert!(offs[i] <= offs[i - 1]);
                    if offs[i] == 0 {
                        down = true;
                    }
                }
            }
        }
    }
}

#[test]
fn uneven_delta_clamps_at_bounds() {
    // range 80, 3 frames a second: steps of 26
    let offs = offset_sequence(100, 20, 3, 9);
    assert_eq!(offs, vec![0, 26, 52, 78, 80, 54, 28, 2, 0]);
}

#[test]
fn step_turns_round() {
    let mut a = PositionAnimator::new(100, 20, 2);
    assert_eq!(a.position(), 0);
    a.step();
    assert_eq!(a.state, AnimationState { direction: Direction::Down, position: 40 });
    a.step();
    assert_eq!(a.state, AnimationState { direction: Direction::Up, position: 80 });
    a.step();
    assert_eq!(a.state, AnimationState { direction: Direction::Up, position: 40 });
    a.step();
    assert_eq!(a.state, AnimationState { direction: Direction::Down, position: 0 });
}

#[test]
fn rendering_twice_gives_identical_pixels() {
    let g = config(1, 24, 30, 4, 5);
    let base = g.create_base();
    let sweeper = g.create_sweeper();
    let a = g.draw_frame(&base, &sweeper, 12);
    let b = g.draw_frame(&base, &sweeper, 12);
    assert_eq!(a.pixels, b.pixels);
    assert_ne!(a.pixels, base.pixels);
}

#[test]
fn overlay_past_bottom_is_clipped() {
    let g = config(1, 8, 10, 1, 4);
    let base = g.create_base();
    let sweeper = g.create_sweeper();
    let f = g.draw_frame(&base, &sweeper, 8);
    assert_eq!((f.width, f.height, f.pixels.len()), (8, 10, 80));
    assert_eq!(f.get_pixel(0, 7), rgb(255, 255, 255));
    assert_eq!(f.get_pixel(0, 8), rgb(0, 0, 0));
    assert_eq!(f.get_pixel(0, 9), rgb(0, 0, 0));
    assert_eq!(f.get_pixel(7, 9), rgb(255, 255, 255));
    let g2 = g.draw_frame(&base, &sweeper, 4000);
    assert_eq!(g2.pixels, base.pixels);
}

#[test]
fn overlay_copies_top_rows() {
    let base = Raster { width: 2, height: 3, pixels: vec![rgb(1, 1, 1); 6] };
    let top = Raster { width: 2, height: 1, pixels: vec![rgb(9, 0, 0), rgb(0, 9, 0)] };
    let r = overlay(&base, &top, 1);
    assert_eq!(
        r.pixels,
        vec![rgb(1, 1, 1), rgb(1, 1, 1), rgb(9, 0, 0), rgb(0, 9, 0), rgb(1, 1, 1), rgb(1, 1, 1)]
    );
}

#[test]
fn config_errors() {
    assert_eq!(config(1, 7, 10, 1, 2).validate(), Err(ConfigError::WidthTooSmall));
    assert_eq!(config(1, 8, 10, 1, 10).validate(), Err(ConfigError::SweeperTooTall));
    assert_eq!(config(1, 8, 10, 0, 2).validate(), Err(ConfigError::ZeroFrameRate));
    assert_eq!(config(usize::MAX, 8, 10, 2, 2).validate(), Err(ConfigError::TooManyFrames));
    assert_eq!(config(1, 7, 10, 0, 20).frames(), Err(ConfigError::WidthTooSmall));
    assert_eq!(config(10, 1920, 1080, 60, 60).validate(), Ok(()));
}

#[test]
fn failures_are_listed_in_order() {
    assert_eq!(failed_frames(&vec![true, false, true, false, false]), vec![1, 3, 4]);
    assert_eq!(failed_frames(&vec![true, true]), Vec::<usize>::new());
    assert_eq!(failed_frames(&vec![]), Vec::<usize>::new());
}
