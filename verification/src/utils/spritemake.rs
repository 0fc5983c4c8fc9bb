use vstd::prelude::*;

use crate::emulators::devices::system::{hex_list, push_hex_list};
use vstd::string::StringSliceAdditionalSpecFns;

verus! {

/// The command line of the sprite maker: the path of the image to make a sprite of.
pub struct Cli {
    pub img_path: String,
}

/// The image's width is not a multiple of eight, or its height not one more than a multiple of
/// eight (at least nine).
#[derive(Debug, PartialEq, Eq, Clone, Copy)]
pub struct SpriteImgDimError {
    pub w: u32,
    pub h: u32,
}

/// A pixel that is none of the four index colours.
#[derive(Debug, PartialEq, Eq, Clone, Copy)]
pub struct ColorNotRecognisedError {
    pub r: u8,
    pub g: u8,
    pub b: u8,
}

/// Why an image cannot be made into a sprite.
#[derive(Debug, PartialEq, Eq, Clone, Copy)]
pub enum SpriteMakeError {
    /// The bytes are not an image that can be read, or hold fewer pixels than its size says.
    Decode,
    Dimensions(SpriteImgDimError),
    Color(ColorNotRecognisedError),
}

/// The decimal digit `d` as a character.
pub open spec fn digit_char(d: nat) -> char {
    (48 + d) as char
}

/// A number written in decimal, without leading zeros.
pub open spec fn dec_chars(n: nat) -> Seq<char>
    decreases n,
{
    if n < 10 {
        seq![digit_char(n)]
    } else {
        dec_chars(n / 10) + seq![digit_char(n % 10)]
    }
}

/// A number written in decimal, as ASCII bytes.
pub open spec fn dec_bytes(n: nat) -> Seq<u8>
    decreases n,
{
    if n < 10 {
        seq![(48 + n) as u8]
    } else {
        dec_bytes(n / 10) + seq![(48 + n % 10) as u8]
    }
}

fn digit_str(d: u32) -> (r: &'static str)
    requires
        d < 10,
    ensures
        r@ == seq![digit_char(d as nat)],
{
    if d == 0 {
        proof { reveal_strlit("0"); }
        "0"
    } else if d == 1 {
        proof { reveal_strlit("1"); }
        "1"
    } else if d == 2 {
        proof { reveal_strlit("2"); }
        "2"
    } else if d == 3 {
        proof { reveal_strlit("3"); }
        "3"
    } else if d == 4 {
        proof { reveal_strlit("4"); }
        "4"
    } else if d == 5 {
        proof { reveal_strlit("5"); }
        "5"
    } else if d == 6 {
        proof { reveal_strlit("6"); }
        "6"
    } else if d == 7 {
        proof { reveal_strlit("7"); }
        "7"
    } else if d == 8 {
        proof { reveal_strlit("8"); }
        "8"
    } else {
        proof { reveal_strlit("9"); }
        "9"
    }
}

/// `n` written in decimal.
pub fn decimal(n: u32) -> (r: String)
    ensures
        r@ == dec_chars(n as nat),
    decreases n,
{
    if n < 10 {
        String::from_str(digit_str(n))
    } else {
        let s = decimal(n / 10);
        s.concat(digit_str(n % 10))
    }
}

fn push_decimal(out: &mut Vec<u8>, n: u32)
    ensures
        final(out)@ == old(out)@ + dec_bytes(n as nat),
    decreases n,
{
    if n < 10 {
        out.push(48 + n as u8);
    } else {
        push_decimal(out, n / 10);
        out.push(48 + (n % 10) as u8);
    }
    assert(final(out)@ =~= old(out)@ + dec_bytes(n as nat));
}

/// Appends the UTF-8 bytes of `s`.
fn push_str(out: &mut Vec<u8>, s: &str)
    ensures
        final(out)@ == old(out)@ + s.spec_bytes(),
{
    let b = s.as_bytes();
    let mut i: usize = 0;
    while i < b.len()
        invariant
            i <= b@.len(),
            b@ == s.spec_bytes(),
            out@ == old(out)@ + b@.take(i as int),
        decreases b.len() - i,
    {
        out.push(b[i]);
        assert(b@.take(i + 1) =~= b@.take(i as int).push(b@[i as int]));
        i = i + 1;
    }
    assert(b@.take(b@.len() as int) =~= b@);
}

impl SpriteImgDimError {
    /// Human readable description of the error.
    pub fn message(&self) -> (r: String)
        ensures
            r@ == "Sprite image of incorrect dimensions, width should be multiple of 8, height should be one more than multiple of 8  given dimensions: ("@
                + dec_chars(self.w as nat) + ", "@ + dec_chars(self.h as nat) + ")"@,
    {
        String::from_str(
            "Sprite image of incorrect dimensions, width should be multiple of 8, height should be one more than multiple of 8  given dimensions: (",
        ).concat(decimal(self.w).as_str()).concat(", ").concat(decimal(self.h).as_str()).concat(")")
    }
}

impl ColorNotRecognisedError {
    /// Human readable description of the error.
    pub fn message(&self) -> (r: String)
        ensures
            r@ == "Color not recognised as one of 4 indexed colors: Rgb("@ + dec_chars(self.r as nat) + ", "@
                + dec_chars(self.g as nat) + ", "@ + dec_chars(self.b as nat) + ")"@,
    {
        String::from_str("Color not recognised as one of 4 indexed colors: Rgb(").concat(
            decimal(self.r as u32).as_str(),
        ).concat(", ").concat(decimal(self.g as u32).as_str()).concat(", ").concat(
            decimal(self.b as u32).as_str(),
        ).concat(")")
    }
}

impl SpriteMakeError {
    /// Human readable description of the error.
    pub fn message(&self) -> (r: String)
        ensures
            r@ == match self {
                SpriteMakeError::Decode => "could not read the image"@,
                SpriteMakeError::Dimensions(e) => "Sprite image of incorrect dimensions, width should be multiple of 8, height should be one more than multiple of 8  given dimensions: ("@
                    + dec_chars(e.w as nat) + ", "@ + dec_chars(e.h as nat) + ")"@,
                SpriteMakeError::Color(e) => "Color not recognised as one of 4 indexed colors: Rgb("@ + dec_chars(
                    e.r as nat,
                ) + ", "@ + dec_chars(e.g as nat) + ", "@ + dec_chars(e.b as nat) + ")"@,
            },
    {
        match self {
            SpriteMakeError::Decode => String::from_str("could not read the image"),
            SpriteMakeError::Dimensions(e) => e.message(),
            SpriteMakeError::Color(e) => e.message(),
        }
    }
}

/// `DEOk ` written `n - 1` times, then `DEO`: one write of a sprite for each of `n` rows.
pub open spec fn deo_chain(n: nat) -> Seq<u8>
    decreases n,
{
    if n <= 1 {
        "DEO".spec_bytes()
    } else {
        "DEOk ".spec_bytes() + deo_chain((n - 1) as nat)
    }
}

/// The head of the sprite's code: a routine named after the sprite that takes the position from
/// the stack and paints `blocks` sprites across and `bands` down, then the label of its data.
pub open spec fn preamble(name: Seq<u8>, blocks: nat, bands: nat) -> Seq<u8> {
    "@paint-".spec_bytes() + name + " (y x -- )\n\n.Screen/x DEO2 .Screen/y DEO2\n#".spec_bytes() + dec_bytes(
        (blocks - 1) as nat,
    ) + "6 .Screen/auto DEO\n;".spec_bytes() + name + "sprite .Screen/addr DEO2\n#c5 .Screen/sprite ".spec_bytes()
        + deo_chain(bands) + "\n\nJMP2r\n\n@".spec_bytes() + name + "sprite\n".spec_bytes()
}

fn push_deo_chain(out: &mut Vec<u8>, n: u32)
    ensures
        final(out)@ == old(out)@ + deo_chain(n as nat),
    decreases n,
{
    if n <= 1 {
        push_str(out, "DEO");
    } else {
        push_str(out, "DEOk ");
        push_deo_chain(out, n - 1);
        assert(final(out)@ =~= old(out)@ + deo_chain(n as nat));
    }
}

fn push_preamble(out: &mut Vec<u8>, name: &str, blocks: u32, bands: u32)
    requires
        blocks >= 1,
    ensures
        final(out)@ == old(out)@ + preamble(name.spec_bytes(), blocks as nat, bands as nat),
{
    push_str(out, "@paint-");
    push_str(out, name);
    push_str(out, " (y x -- )\n\n.Screen/x DEO2 .Screen/y DEO2\n#");
    push_decimal(out, blocks - 1);
    push_str(out, "6 .Screen/auto DEO\n;");
    push_str(out, name);
    push_str(out, "sprite .Screen/addr DEO2\n#c5 .Screen/sprite ");
    push_deo_chain(out, bands);
    push_str(out, "\n\nJMP2r\n\n@");
    push_str(out, name);
    push_str(out, "sprite\n");
    assert(final(out)@ =~= old(out)@ + preamble(name.spec_bytes(), blocks as nat, bands as nat));
}

/// Pixel `(x, y)` of an image of width `w` stored as red, green and blue bytes row by row.
pub open spec fn pixel_at(px: Seq<u8>, w: int, x: int, y: int) -> (u8, u8, u8) {
    (px[3 * (y * w + x)], px[3 * (y * w + x) + 1], px[3 * (y * w + x) + 2])
}

/// The four index colours: the first four pixels of the top row.
pub open spec fn index_colors(px: Seq<u8>, w: int) -> Seq<(u8, u8, u8)> {
    seq![pixel_at(px, w, 0, 0), pixel_at(px, w, 1, 0), pixel_at(px, w, 2, 0), pixel_at(px, w, 3, 0)]
}

/// The colour number of `p`: the last index colour that it equals, if any.
pub open spec fn color_index(cs: Seq<(u8, u8, u8)>, p: (u8, u8, u8)) -> Option<u8> {
    if p == cs[3] {
        Some(3)
    } else if p == cs[2] {
        Some(2)
    } else if p == cs[1] {
        Some(1)
    } else if p == cs[0] {
        Some(0)
    } else {
        None
    }
}

/// The bit that a colour number sets in the upper or the lower plane of a sprite.
pub open spec fn plane_bit(i: Option<u8>, upper: bool) -> int {
    match i {
        Some(c) => if upper {
            (c / 2) as int
        } else {
            (c % 2) as int
        },
        None => 0,
    }
}

/// The bits of the first `n` pixels from `(x0, y)` on, in one plane, the first pixel highest.
pub open spec fn plane_byte(px: Seq<u8>, w: int, cs: Seq<(u8, u8, u8)>, x0: int, y: int, n: nat, upper: bool) -> u8
    decreases n,
{
    if n == 0 {
        0
    } else {
        ((2 * plane_byte(px, w, cs, x0, y, (n - 1) as nat, upper) + plane_bit(
            color_index(cs, pixel_at(px, w, x0 + n - 1, y)),
            upper,
        )) % 256) as u8
    }
}

/// The eight bytes of one plane of the sprite in column block `c` of band `b` (the rows below
/// the top one, eight to a band).
pub open spec fn plane_rows(px: Seq<u8>, w: int, cs: Seq<(u8, u8, u8)>, b: int, c: int, upper: bool) -> Seq<u8> {
    Seq::new(8, |r: int| plane_byte(px, w, cs, 8 * c, 1 + 8 * b + r, 8, upper))
}

/// One line of sprite data: the lower plane's bytes, four spaces, the upper plane's bytes.
pub open spec fn block_line(px: Seq<u8>, w: int, cs: Seq<(u8, u8, u8)>, b: int, c: int) -> Seq<u8> {
    hex_list(plane_rows(px, w, cs, b, c, false)) + "    ".spec_bytes() + hex_list(plane_rows(px, w, cs, b, c, true))
        + "\n".spec_bytes()
}

/// The lines of the first `n` column blocks of band `b`.
pub open spec fn band_lines(px: Seq<u8>, w: int, cs: Seq<(u8, u8, u8)>, b: int, n: nat) -> Seq<u8>
    decreases n,
{
    if n == 0 {
        Seq::empty()
    } else {
        band_lines(px, w, cs, b, (n - 1) as nat) + block_line(px, w, cs, b, n - 1)
    }
}

/// The sprite data of the first `n` bands, each band followed by an empty line.
pub open spec fn bands_text(px: Seq<u8>, w: int, cs: Seq<(u8, u8, u8)>, blocks: nat, n: nat) -> Seq<u8>
    decreases n,
{
    if n == 0 {
        Seq::empty()
    } else {
        bands_text(px, w, cs, blocks, (n - 1) as nat) + band_lines(px, w, cs, n - 1, blocks) + "\n".spec_bytes()
    }
}

/// The first pixel from `(x, y)` on, row by row, that is none of the index colours.
pub open spec fn scan(px: Seq<u8>, w: int, h: int, cs: Seq<(u8, u8, u8)>, x: int, y: int) -> Option<(int, int)>
    decreases h - y, w - x,
{
    if y >= h || w <= 0 || x < 0 {
        None
    } else if x >= w {
        scan(px, w, h, cs, 0, y + 1)
    } else if color_index(cs, pixel_at(px, w, x, y)) is None {
        Some((x, y))
    } else {
        scan(px, w, h, cs, x + 1, y)
    }
}

/// The sprite made from an image `w` pixels wide and `h` high, named `name`: its code and data
/// as text, and whether it was made. The image is refused when its width is not a multiple of
/// eight or its height not one more than a multiple of eight (or smaller than nine), or when
/// `px` holds fewer pixels than that. Otherwise the text is the routine and the data of each
/// band of eight rows below the top row; at a pixel that is none of the four index colours,
/// the text stops after the last band finished before it, and that pixel is the error.
pub open spec fn sprite_result(name: Seq<u8>, w: u32, h: u32, px: Seq<u8>) -> (Seq<u8>, Result<(), SpriteMakeError>) {
    if w == 0 || w % 8 != 0 || h < 9 || (h - 1) % 8 != 0 {
        (Seq::empty(), Err(SpriteMakeError::Dimensions(SpriteImgDimError { w, h })))
    } else if px.len() < 3 * w * h {
        (Seq::empty(), Err(SpriteMakeError::Decode))
    } else {
        let cs = index_colors(px, w as int);
        let blocks = (w / 8) as nat;
        let bands = ((h - 1) / 8) as nat;
        let pre = preamble(name, blocks, bands);
        match scan(px, w as int, h as int, cs, 0, 1) {
            None => (pre + bands_text(px, w as int, cs, blocks, bands), Ok(())),
            Some((x, y)) => {
                let p = pixel_at(px, w as int, x, y);
                (
                    pre + bands_text(px, w as int, cs, blocks, ((y - 1) / 8) as nat),
                    Err(SpriteMakeError::Color(ColorNotRecognisedError { r: p.0, g: p.1, b: p.2 })),
                )
            },
        }
    }
}

proof fn lemma_pixel_in_bounds(w: int, h: int, x: int, y: int)
    requires
        0 <= x < w,
        0 <= y < h,
    ensures
        0 <= y * w,
        3 * (y * w + x) + 2 < 3 * w * h,
{
    assert(0 <= y * w) by (nonlinear_arith)
        requires
            0 <= y,
            0 <= w,
    ;
    assert(y * w + x + 1 <= w * h) by (nonlinear_arith)
        requires
            0 <= x < w,
            0 <= y < h,
    ;
    assert(3 * w * h == 3 * (w * h)) by (nonlinear_arith);
}

fn pixel(px: &Vec<u8>, w: u32, h: u32, x: u32, y: u32) -> (r: (u8, u8, u8))
    requires
        x < w,
        y < h,
        px@.len() >= 3 * w * h,
    ensures
        r == pixel_at(px@, w as int, x as int, y as int),
{
    let len = px.len();
    proof {
        lemma_pixel_in_bounds(w as int, h as int, x as int, y as int);
        assert(3 * (y * w + x) + 2 < px@.len());
        assert((y as usize) * (w as usize) == y * w);
    }
    let yw: usize = y as usize * w as usize;
    let i: usize = 3 * (yw + x as usize);
    (px[i], px[i + 1], px[i + 2])
}

fn color_index_exec(cs: &[(u8, u8, u8); 4], p: (u8, u8, u8)) -> (r: Option<u8>)
    ensures
        r == color_index(cs@, p),
{
    let (r, g, b) = p;
    if r == cs[3].0 && g == cs[3].1 && b == cs[3].2 {
        Some(3)
    } else if r == cs[2].0 && g == cs[2].1 && b == cs[2].2 {
        Some(2)
    } else if r == cs[1].0 && g == cs[1].1 && b == cs[1].2 {
        Some(1)
    } else if r == cs[0].0 && g == cs[0].1 && b == cs[0].2 {
        Some(0)
    } else {
        None
    }
}

fn plane_byte_exec(px: &Vec<u8>, w: u32, h: u32, cs: &[(u8, u8, u8); 4], x0: u32, y: u32, upper: bool) -> (r: u8)
    requires
        x0 + 8 <= w,
        y < h,
        px@.len() >= 3 * w * h,
    ensures
        r == plane_byte(px@, w as int, cs@, x0 as int, y as int, 8, upper),
{
    let mut v: u8 = 0;
    let mut n: u32 = 0;
    while n < 8
        invariant
            n <= 8,
            x0 + 8 <= w,
            y < h,
            px@.len() >= 3 * w * h,
            v == plane_byte(px@, w as int, cs@, x0 as int, y as int, n as nat, upper),
        decreases 8 - n,
    {
        let p = pixel(px, w, h, x0 + n, y);
        let bit: u16 = match color_index_exec(cs, p) {
            Some(c) => if upper {
                (c / 2) as u16
            } else {
                (c % 2) as u16
            },
            None => 0,
        };
        v = ((v as u16 * 2 + bit) % 256) as u8;
        n = n + 1;
    }
    v
}

fn push_block_line(out: &mut Vec<u8>, px: &Vec<u8>, w: u32, h: u32, cs: &[(u8, u8, u8); 4], b: u32, c: u32)
    requires
        8 * c + 8 <= w,
        1 + 8 * b + 8 <= h,
        px@.len() >= 3 * w * h,
    ensures
        final(out)@ == old(out)@ + block_line(px@, w as int, cs@, b as int, c as int),
{
    let mut lower: Vec<u8> = Vec::new();
    let mut upper: Vec<u8> = Vec::new();
    let mut r: u32 = 0;
    while r < 8
        invariant
            r <= 8,
            8 * c + 8 <= w,
            1 + 8 * b + 8 <= h,
            px@.len() >= 3 * w * h,
            lower@ == plane_rows(px@, w as int, cs@, b as int, c as int, false).take(r as int),
            upper@ == plane_rows(px@, w as int, cs@, b as int, c as int, true).take(r as int),
        decreases 8 - r,
    {
        lower.push(plane_byte_exec(px, w, h, cs, 8 * c, 1 + 8 * b + r, false));
        upper.push(plane_byte_exec(px, w, h, cs, 8 * c, 1 + 8 * b + r, true));
        assert(lower@ =~= plane_rows(px@, w as int, cs@, b as int, c as int, false).take(r + 1));
        assert(upper@ =~= plane_rows(px@, w as int, cs@, b as int, c as int, true).take(r + 1));
        r = r + 1;
    }
    assert(lower@ =~= plane_rows(px@, w as int, cs@, b as int, c as int, false));
    assert(upper@ =~= plane_rows(px@, w as int, cs@, b as int, c as int, true));
    push_hex_list(out, lower.as_slice());
    push_str(out, "    ");
    push_hex_list(out, upper.as_slice());
    push_str(out, "\n");
    assert(final(out)@ =~= old(out)@ + block_line(px@, w as int, cs@, b as int, c as int));
}

fn push_bands(out: &mut Vec<u8>, px: &Vec<u8>, w: u32, h: u32, cs: &[(u8, u8, u8); 4], bands: u32)
    requires
        w % 8 == 0,
        1 + 8 * bands <= h,
        px@.len() >= 3 * w * h,
    ensures
        final(out)@ == old(out)@ + bands_text(px@, w as int, cs@, (w / 8) as nat, bands as nat),
{
    let blocks = w / 8;
    let mut b: u32 = 0;
    while b < bands
        invariant
            b <= bands,
            w % 8 == 0,
            blocks == w / 8,
            1 + 8 * bands <= h,
            px@.len() >= 3 * w * h,
            out@ == old(out)@ + bands_text(px@, w as int, cs@, blocks as nat, b as nat),
        decreases bands - b,
    {
        let ghost before = out@;
        let mut c: u32 = 0;
        while c < blocks
            invariant
                b < bands,
                c <= blocks,
                w % 8 == 0,
                blocks == w / 8,
                1 + 8 * bands <= h,
                px@.len() >= 3 * w * h,
                out@ == before + band_lines(px@, w as int, cs@, b as int, c as nat),
            decreases blocks - c,
        {
            push_block_line(out, px, w, h, cs, b, c);
            assert(out@ =~= before + band_lines(px@, w as int, cs@, b as int, (c + 1) as nat));
            c = c + 1;
        }
        push_str(out, "\n");
        assert(out@ =~= old(out)@ + bands_text(px@, w as int, cs@, blocks as nat, (b + 1) as nat));
        b = b + 1;
    }
}

fn find_unknown(px: &Vec<u8>, w: u32, h: u32, cs: &[(u8, u8, u8); 4]) -> (r: Option<(u32, u32)>)
    requires
        w > 0,
        h > 0,
        px@.len() >= 3 * w * h,
    ensures
        match r {
            Some((x, y)) => scan(px@, w as int, h as int, cs@, 0, 1) == Some((x as int, y as int)) && x < w && 1 <= y < h,
            None => scan(px@, w as int, h as int, cs@, 0, 1) is None,
        },
{
    let mut y: u32 = 1;
    while y < h
        invariant
            1 <= y <= h,
            w > 0,
            px@.len() >= 3 * w * h,
            scan(px@, w as int, h as int, cs@, 0, 1) == scan(px@, w as int, h as int, cs@, 0, y as int),
        decreases h - y,
    {
        let mut x: u32 = 0;
        while x < w
            invariant
                1 <= y < h,
                x <= w,
                w > 0,
                px@.len() >= 3 * w * h,
                scan(px@, w as int, h as int, cs@, 0, 1) == scan(px@, w as int, h as int, cs@, x as int, y as int),
            decreases w - x,
        {
            let p = pixel(px, w, h, x, y);
            if color_index_exec(cs, p).is_none() {
                return Some((x, y));
            }
            x = x + 1;
        }
        y = y + 1;
    }
    None
}

/// Makes a sprite from an image `w` pixels wide and `h` high whose pixels `px` are red, green
/// and blue bytes row by row: the text of a routine named after `name` that paints it, and
/// its data. The top row's first four pixels are the four index colours; the rest of the
/// image must use only them.
pub fn sprite_tal(name: &str, w: u32, h: u32, px: &Vec<u8>) -> (r: (Vec<u8>, Result<(), SpriteMakeError>))
    ensures
        (r.0@, r.1) == sprite_result(name.spec_bytes(), w, h, px@),
{
    if w == 0 || w % 8 != 0 || h < 9 || (h - 1) % 8 != 0 {
        return (Vec::new(), Err(SpriteMakeError::Dimensions(SpriteImgDimError { w, h })));
    }
    assert(3 * (w as u128) * (h as u128) < 0x4_0000_0000_0000_0000) by (nonlinear_arith)
        requires
            w < 0x1_0000_0000,
            h < 0x1_0000_0000,
    ;
    if (px.len() as u128) < 3 * (w as u128) * (h as u128) {
        return (Vec::new(), Err(SpriteMakeError::Decode));
    }
    let cs: [(u8, u8, u8); 4] = [pixel(px, w, h, 0, 0), pixel(px, w, h, 1, 0), pixel(px, w, h, 2, 0), pixel(px, w, h, 3, 0)];
    assert(cs@ =~= index_colors(px@, w as int));
    let blocks = w / 8;
    let bands = (h - 1) / 8;
    let mut out: Vec<u8> = Vec::new();
    push_preamble(&mut out, name, blocks, bands);
    match find_unknown(px, w, h, &cs) {
        None => {
            push_bands(&mut out, px, w, h, &cs, bands);
            (out, Ok(()))
        },
        Some((x, y)) => {
            let p = pixel(px, w, h, x, y);
            push_bands(&mut out, px, w, h, &cs, (y - 1) / 8);
            (out, Err(SpriteMakeError::Color(ColorNotRecognisedError { r: p.0, g: p.1, b: p.2 })))
        },
    }
}

/// What `image::ImageFormat::from_extension` on a file name's extension, then
/// `image::load_from_memory_with_format` with that format and `DynamicImage::to_rgb8`, give for
/// the bytes of an image file: its width, its height and its raw eight-bit red, green and blue
/// bytes, or nothing where the extension names no format or the bytes cannot be decoded.
pub uninterp spec fn decoded_rgb8(extension: Seq<char>, bytes: Seq<u8>) -> Option<(u32, u32, Seq<u8>)>;

/// Decodes the image file held in `bytes`, of the format that its file name's `extension`
/// names (`image::ImageFormat::from_extension`, which ignores case), with
/// `image::load_from_memory_with_format`, and turns it into eight-bit RGB with
/// `DynamicImage::to_rgb8`; gives the width, the height and the raw buffer of
/// `RgbImage::into_raw`. The contract claims only that the result is a function of the
/// extension and the bytes, named `decoded_rgb8`; how large the buffer is is left unsaid, and
/// `sprite_tal` checks it.
#[verifier::external_body]
fn decode_rgb8(extension: &str, bytes: &[u8]) -> (r: Option<(u32, u32, Vec<u8>)>)
    ensures
        match r {
            Some((w, h, px)) => decoded_rgb8(extension@, bytes@) == Some((w, h, px@)),
            None => decoded_rgb8(extension@, bytes@) is None,
        },
{
    let format = match image::ImageFormat::from_extension(extension) {
        Some(f) => f,
        None => {
            return None;
        },
    };
    match image::load_from_memory_with_format(bytes, format) {
        Ok(img) => {
            let rgb = img.to_rgb8();
            Some((rgb.width(), rgb.height(), rgb.into_raw()))
        },
        Err(_) => None,
    }
}

/// Makes a sprite named `name` from the bytes of an image file whose name ends in
/// `extension`: the text so far and the outcome of `sprite_tal` on the decoded image, or no
/// text and `Decode` where the bytes are not an image of the format the extension names.
pub fn make_sprite(name: &str, extension: &str, image_bytes: &[u8]) -> (r: (Vec<u8>, Result<(), SpriteMakeError>))
    ensures
        match decoded_rgb8(extension@, image_bytes@) {
            Some((w, h, px)) => (r.0@, r.1) == sprite_result(name.spec_bytes(), w, h, px),
            None => r.0@ == Seq::<u8>::empty() && r.1 == Err::<(), SpriteMakeError>(SpriteMakeError::Decode),
        },
{
    match decode_rgb8(extension, image_bytes) {
        Some((w, h, px)) => sprite_tal(name, w, h, &px),
        None => (Vec::new(), Err(SpriteMakeError::Decode)),
    }
}

} // verus!
