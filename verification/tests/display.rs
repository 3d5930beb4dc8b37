use chip8::display::{
    cell_origin, Display, CELL_SIDE, DISPLAY_HEIGHT, DISPLAY_WIDTH, HEIGHT, WIDTH,
};

fn grid_of(display: &Display) -> Vec<Vec<bool>> {
    let mut rows = Vec::new();
    for y in 0..DISPLAY_HEIGHT {
        let mut row = Vec::new();
        for x in 0..DISPLAY_WIDTH {
            row.push(display.pixel(x, y));
        }
        rows.push(row);
    }
    rows
}

#[test]
fn clear_once() {
    let mut display = Display::new();

    display.clear();
    assert_eq!(grid_of(&display), grid_of(&Display::new()));
}

#[test]
fn clear_twice() {
    let mut display = Display::new();

    display.clear();
    display.clear();
    assert_eq!(grid_of(&display), grid_of(&Display::new()));
}

#[test]
fn clear_after_draw() {
    let mut display = Display::new();
    let sprite: &[u8] = &[0xFF; 8];

    display.draw_sprite(0, 0, sprite);
    display.clear();
    assert_eq!(grid_of(&display), grid_of(&Display::new()));
}

#[test]
fn draw_single_sprite_without_wrap() {
    let mut display = Display::new();
    let sprite: &[u8] = &[0xC0; 2];

    let collision = display.draw_sprite(0, 0, sprite);
    assert!(display.pixel(0, 0));
    assert!(display.pixel(1, 0));
    assert!(display.pixel(0, 1));
    assert!(display.pixel(1, 1));
    assert!(!collision);
}

#[test]
fn draw_single_sprite_with_wrap() {
    let mut display = Display::new();
    let sprite: &[u8] = &[0xC0; 2];

    let (max_x, max_y) = (DISPLAY_WIDTH as u8 - 1, DISPLAY_HEIGHT as u8 - 1);
    let collision = display.draw_sprite(max_x, max_y, sprite);
    assert!(display.pixel(0, 0));
    assert!(display.pixel(max_x as usize, 0));
    assert!(display.pixel(0, max_y as usize));
    assert!(display.pixel(max_x as usize, max_y as usize));
    assert!(!collision);
}

#[test]
fn draw_single_sprite_twice() {
    let mut display = Display::new();
    let sprite: &[u8] = &[0xC0; 2];

    display.draw_sprite(0, 0, sprite);
    let collision = display.draw_sprite(0, 0, sprite);
    assert_eq!(grid_of(&display), grid_of(&Display::new()));
    assert!(collision);
}

#[test]
fn draw_sprites_without_collision() {
    let mut display = Display::new();
    let sprite: &[u8] = &[0xF0, 0xF0, 0xF0, 0xF0, 0x00, 0x00, 0x00, 0x00];

    display.draw_sprite(0, 0, sprite);
    let collision = display.draw_sprite(4, 4, sprite);
    assert!(!collision);
}

#[test]
fn draw_sprites_with_collision() {
    let mut display = Display::new();
    let sprite: &[u8] = &[0xF0, 0xF0, 0xF0, 0xF0, 0x00, 0x00, 0x00, 0x00];

    display.draw_sprite(0, 0, sprite);
    let collision = display.draw_sprite(3, 3, sprite);
    assert!(collision);
}

#[test]
fn new_display_is_dark() {
    let display = Display::new();
    for row in grid_of(&display) {
        assert_eq!(row.len(), 64);
        assert!(row.iter().all(|lit| !lit));
    }
}

#[test]
fn wrapped_sprite_touches_only_the_four_corner_cells() {
    let mut display = Display::new();
    let sprite: &[u8] = &[0xFF, 0xFF];

    let collision = display.draw_sprite(63, 31, sprite);
    assert!(!collision);
    for y in 0..32usize {
        for x in 0..64usize {
            let expected = (x == 63 || x < 7) && (y == 31 || y == 0);
            assert_eq!(display.pixel(x, y), expected, "cell ({}, {})", x, y);
        }
    }
}

#[test]
fn leftmost_pixel_is_the_most_significant_bit() {
    let mut display = Display::new();
    display.draw_sprite(10, 5, &[0x81]);
    for x in 0..64usize {
        assert_eq!(display.pixel(x, 5), x == 10 || x == 17);
    }
    assert!(!display.pixel(10, 4));
    assert!(!display.pixel(10, 6));
}

#[test]
fn origin_beyond_the_grid_wraps() {
    let mut display = Display::new();
    display.draw_sprite(200, 100, &[0x80]);
    assert!(display.pixel(200 % 64, 100 % 32));
    let lit = grid_of(&display).iter().flatten().filter(|lit| **lit).count();
    assert_eq!(lit, 1);
}

#[test]
fn second_draw_restores_any_earlier_picture() {
    let mut display = Display::new();
    display.draw_sprite(2, 2, &[0xAA, 0x55, 0xAA]);
    let before = grid_of(&display);

    let sprite: &[u8] = &[0xF0, 0x0F, 0x3C];
    let first = display.draw_sprite(0, 1, sprite);
    assert!(first);
    let second = display.draw_sprite(0, 1, sprite);
    assert!(second);
    assert_eq!(grid_of(&display), before);
}

#[test]
fn second_draw_of_an_empty_sprite_does_not_collide() {
    let mut display = Display::new();
    let sprite: &[u8] = &[0x00, 0x00];
    assert!(!display.draw_sprite(7, 7, sprite));
    assert!(!display.draw_sprite(7, 7, sprite));
    assert_eq!(grid_of(&display), grid_of(&Display::new()));
}

#[test]
fn longest_sprite_is_drawn() {
    let mut display = Display::new();
    let sprite = [0x80u8; 15];
    assert!(!display.draw_sprite(0, 20, &sprite));
    for y in 0..32usize {
        assert_eq!(display.pixel(0, y), y >= 20 || y < 3);
    }
}

#[test]
fn presented_size() {
    assert_eq!(WIDTH, 650);
    assert_eq!(HEIGHT, 330);
}

#[test]
fn cell_geometry() {
    assert_eq!(CELL_SIDE, 9);
    assert_eq!(cell_origin(0, 0), (5, 5));
    assert_eq!(cell_origin(1, 2), (15, 25));
    assert_eq!(cell_origin(63, 31), (635, 315));
}
