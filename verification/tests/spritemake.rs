use std::io::Cursor;

use rusty_uxn::utils::spritemake::{
    decimal, make_sprite, sprite_tal, ColorNotRecognisedError, SpriteImgDimError, SpriteMakeError,
};

const COLORS: [[u8; 3]; 4] = [[0, 0, 0], [255, 0, 0], [0, 255, 0], [0, 0, 255]];

fn image(w: u32, h: u32) -> Vec<u8> {
    let mut px = Vec::new();
    for y in 0..h {
        for x in 0..w {
            let c = if y == 0 { x % 4 } else { (x * 3 + y * 5 + x * y) % 4 };
            px.extend_from_slice(&COLORS[c as usize]);
        }
    }
    px
}

const RABBIT: &str = "@paint-rabbit (y x -- )\n\n.Screen/x DEO2 .Screen/y DEO2\n#16 .Screen/auto DEO\n;rabbitsprite .Screen/addr DEO2\n#c5 .Screen/sprite DEO\n\nJMP2r\n\n@rabbitsprite\nff 55 ff 55 ff 55 ff 55    00 cc aa 66 00 cc aa 66\nff 55 ff 55 ff 55 ff 55    00 cc aa 66 00 cc aa 66\n\n";

#[test]
fn sprite_from_pixels() {
    let px = image(16, 9);
    let (text, res) = sprite_tal("rabbit", 16, 9, &px);
    assert_eq!(res, Ok(()));
    assert_eq!(String::from_utf8(text).unwrap(), RABBIT);
}

#[test]
fn sprite_stops_at_an_unknown_colour() {
    let mut px = image(8, 17);
    let i = 3 * (12 * 8 + 5);
    px[i] = 9;
    px[i + 1] = 9;
    px[i + 2] = 9;
    let (text, res) = sprite_tal("bad", 8, 17, &px);
    assert_eq!(
        res,
        Err(SpriteMakeError::Color(ColorNotRecognisedError { r: 9, g: 9, b: 9 }))
    );
    assert_eq!(
        String::from_utf8(text).unwrap(),
        "@paint-bad (y x -- )\n\n.Screen/x DEO2 .Screen/y DEO2\n#06 .Screen/auto DEO\n;badsprite .Screen/addr DEO2\n#c5 .Screen/sprite DEOk DEO\n\nJMP2r\n\n@badsprite\nff 55 ff 55 ff 55 ff 55    00 cc aa 66 00 cc aa 66\n\n"
    );
}

#[test]
fn sprite_dimensions_refused() {
    for (w, h) in [(12, 9), (16, 10), (16, 1), (0, 9), (8, 0)] {
        let (text, res) = sprite_tal("x", w, h, &image(w, h));
        assert!(text.is_empty());
        assert_eq!(res, Err(SpriteMakeError::Dimensions(SpriteImgDimError { w, h })));
    }
}

#[test]
fn sprite_missing_pixels_refused() {
    let px = image(8, 9);
    let (text, res) = sprite_tal("x", 8, 9, &px[..px.len() - 3].to_vec());
    assert!(text.is_empty());
    assert_eq!(res, Err(SpriteMakeError::Decode));
}

#[test]
fn sprite_from_png_bytes() {
    let img = image::RgbImage::from_raw(16, 9, image(16, 9)).unwrap();
    let mut buf: Vec<u8> = Vec::new();
    image::DynamicImage::ImageRgb8(img)
        .write_to(&mut Cursor::new(&mut buf), image::ImageOutputFormat::Png)
        .unwrap();
    let (text, res) = make_sprite("rabbit", "png", &buf);
    assert_eq!(res, Ok(()));
    assert_eq!(String::from_utf8(text).unwrap(), RABBIT);

    let (text, res) = make_sprite("rabbit", "PNG", &buf);
    assert_eq!(res, Ok(()));
    assert_eq!(String::from_utf8(text).unwrap(), RABBIT);

    let (text, res) = make_sprite("rabbit", "png", b"not an image");
    assert!(text.is_empty());
    assert_eq!(res, Err(SpriteMakeError::Decode));

    // the format goes by the file name's extension, as opening the file would
    let (text, res) = make_sprite("rabbit", "txt", &buf);
    assert!(text.is_empty());
    assert_eq!(res, Err(SpriteMakeError::Decode));
}

#[test]
fn sprite_error_messages() {
    assert_eq!(
        SpriteMakeError::Dimensions(SpriteImgDimError { w: 12, h: 10 }).message(),
        "Sprite image of incorrect dimensions, width should be multiple of 8, height should be one more than multiple of 8  given dimensions: (12, 10)"
    );
    assert_eq!(
        ColorNotRecognisedError { r: 1, g: 20, b: 255 }.message(),
        "Color not recognised as one of 4 indexed colors: Rgb(1, 20, 255)"
    );
    assert_eq!(decimal(0), "0");
    assert_eq!(decimal(4294967295), "4294967295");
}
