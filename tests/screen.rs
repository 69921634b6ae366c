use chip8::screen::{Pixel, Screen};
use rand::random;

fn all_on_screen() -> Screen {
    let mut s = Screen::new();
    for y in 0..32 {
        for x in 0..64 {
            s.set_pixel_value(x, y, true);
        }
    }
    s
}

fn lit(screen: &Screen) -> Vec<(usize, usize)> {
    screen
        .pixels()
        .into_iter()
        .filter(|p| p.on())
        .map(|p| (p.x(), p.y()))
        .collect()
}

#[test]
fn screen_new() {
    let s = Screen::new();
    let pixels: Vec<Pixel> = s.pixels();
    let mut idx = 0;
    for y in 0..32 {
        for x in 0..64 {
            assert_eq!(x, pixels[idx].x());
            assert_eq!(y, pixels[idx].y());
            idx += 1;
        }
    }
}

#[test]
fn turn_on() {
    for y in 0..32 {
        if random() {
            for x in 0..64 {
                let mut screen = Screen::new();
                let collision = screen.set_pixel_value(x, y, true);
                let on: Vec<Pixel> = screen.pixels().into_iter().filter(|p| p.on()).collect();
                assert_eq!(false, collision);
                assert_eq!(1, on.len());
                assert_eq!((x, y, true), (on[0].x(), on[0].y(), on[0].on()));
            }
        }
    }
}

#[test]
fn turn_off() {
    for y in 0..32 {
        if random() {
            for x in 0..64 {
                let mut screen = all_on_screen();
                let collision = screen.set_pixel_value(x, y, false);
                let off: Vec<Pixel> = screen.pixels().into_iter().filter(|p| !p.on()).collect();
                assert_eq!(false, collision);
                assert_eq!(1, off.len());
                assert_eq!((x, y, false), (off[0].x(), off[0].y(), off[0].on()));
            }
        }
    }
}

#[test]
fn turn_on_collision() {
    let mut s = Screen::new();
    s.set_pixel_value(5, 5, true);
    assert!(s.set_pixel_value(5, 5, true));
}

#[test]
fn clear() {
    let mut s = Screen::new();
    s.set_pixel_value(17, 21, true);
    s.set_pixel_value(63, 31, true);
    s.set_pixel_value(0, 0, true);
    s.clear();
    for p in s.pixels().iter() {
        assert!(!p.on())
    }
}

#[test]
fn set_pixel_wraps_coordinates() {
    let mut s = Screen::new();
    assert!(!s.set_pixel_value(64, 32, true));
    assert_eq!(vec![(0, 0)], lit(&s));
    assert!(s.set_pixel_value(128 + 3, 64 + 2, false) == false);
    assert!(s.set_pixel_value(0, 0, true));
    assert!(lit(&s).is_empty());
}

#[test]
fn turn_off_unlit_pixel_reports_no_collision() {
    let mut s = Screen::new();
    assert!(!s.set_pixel_value(7, 9, false));
    assert!(lit(&s).is_empty());
}

#[test]
fn snapshot_is_row_major() {
    let mut s = Screen::new();
    s.set_pixel_value(3, 1, true);
    let pixels = s.pixels();
    assert_eq!(2048, pixels.len());
    assert!(pixels[64 + 3].on());
    assert_eq!((3, 1), (pixels[67].x(), pixels[67].y()));
    assert_eq!((63, 31), (pixels[2047].x(), pixels[2047].y()));
}

#[test]
fn sprite_drawn_twice_is_erased_with_collision() {
    let mut s = Screen::new();
    let sprite = vec![0b1010_0000, 0b0100_0001];
    assert!(!s.draw_sprite(10, 4, &sprite));
    assert_eq!(vec![(10, 4), (12, 4), (11, 5), (17, 5)], lit(&s));
    assert!(s.draw_sprite(10, 4, &sprite));
    assert!(lit(&s).is_empty());
}

#[test]
fn sprite_wraps_around_both_edges() {
    let mut s = Screen::new();
    let sprite = vec![0b1100_0000, 0b1100_0000];
    assert!(!s.draw_sprite(63, 31, &sprite));
    assert_eq!(vec![(0, 0), (63, 0), (0, 31), (63, 31)], lit(&s));
}

#[test]
fn blank_sprite_changes_nothing() {
    let mut s = Screen::new();
    s.set_pixel_value(1, 1, true);
    assert!(!s.draw_sprite(0, 0, &vec![0, 0, 0]));
    assert_eq!(vec![(1, 1)], lit(&s));
}
