use embedded_graphics::pixelcolor::raw::RawU16;
use embedded_graphics::pixelcolor::{Rgb565 as PanelColor, RgbColor};
use speed::tft::{color_wheel, process_line, Rgb565};

fn color(c: PanelColor) -> Rgb565 {
    Rgb565 { r: c.r(), g: c.g(), b: c.b() }
}

#[test]
fn the_wheel_has_three_corners() {
    assert_eq!(color_wheel(255), color(PanelColor::new(255, 0, 0)));
    assert_eq!(color_wheel(170), color(PanelColor::new(0, 0, 255)));
    assert_eq!(color_wheel(85), color(PanelColor::new(0, 255, 0)));
    assert_eq!(color_wheel(0), color(PanelColor::new(255, 0, 0)));
}

#[test]
fn the_wheel_keeps_the_low_bits() {
    assert_eq!(color_wheel(255), Rgb565 { r: 31, g: 0, b: 0 });
    assert_eq!(color_wheel(245), Rgb565 { r: 225 % 32, g: 0, b: 30 });
    assert_eq!(color_wheel(200), color(PanelColor::new(90, 0, 165)));
    assert_eq!(color_wheel(100), color(PanelColor::new(0, 210, 45)));
    assert_eq!(color_wheel(1), Rgb565 { r: 252 % 32, g: 3, b: 0 });
}

#[test]
fn the_wheel_turns_evenly() {
    let full = |hue: u8| -> (i32, i32, i32) {
        let at = 255 - hue as i32;
        match at / 85 {
            0 => (255 - 3 * at, 0, 3 * at),
            1 => (0, 3 * (at - 85), 255 - 3 * (at - 85)),
            _ => (3 * (at - 170), 255 - 3 * (at - 170), 0),
        }
    };
    for hue in 0..=255u8 {
        let (r, g, b) = full(hue);
        assert_eq!(r + g + b, 255);
        assert_eq!(color_wheel(hue), color(PanelColor::new(r as u8, g as u8, b as u8)));
    }
}

#[test]
fn a_line_becomes_an_area() {
    let buffer: Vec<u16> = vec![0, 0xf800, 0x07e0, 0x001f, 0xffff, 0x1234];
    let u = process_line(134, 1, 5, &buffer);
    assert_eq!((u.x_start, u.y_start, u.x_end, u.y_end), (1, 134, 4, 134));
    assert_eq!(
        u.pixels,
        vec![
            Rgb565 { r: 31, g: 0, b: 0 },
            Rgb565 { r: 0, g: 63, b: 0 },
            Rgb565 { r: 0, g: 0, b: 31 },
            Rgb565 { r: 31, g: 63, b: 31 },
        ]
    );
    assert_eq!((u.x_end - u.x_start) as usize + 1, u.pixels.len());
    let u = process_line(0, 5, 6, &buffer);
    assert_eq!(u.pixels, vec![color(PanelColor::from(RawU16::new(0x1234)))]);
    let u = process_line(0x1_0002, 3, 3, &buffer);
    assert_eq!((u.x_start, u.y_start, u.x_end), (3, 2, 2));
    assert!(u.pixels.is_empty());
}
