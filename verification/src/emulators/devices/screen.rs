use vstd::prelude::*;

use crate::emulators::devices::console::vector_of;
use crate::emulators::uxn::device::{Device, DeviceAccess, MainRamInterface};

verus! {

/// Gives the screen the six system colour bytes.
pub trait UxnSystemScreenInterface {
    /// The six system colour bytes.
    spec fn screen_colors(&self) -> Seq<u8>;

    /// Copies the system colour bytes into `colors`, and tells whether they differ from what
    /// `colors` held.
    fn get_system_colors(&self, colors: &mut [u8; 6]) -> (r: bool)
        ensures
            final(colors)@ == self.screen_colors(),
            r == (old(colors)@ != self.screen_colors()),
    ;
}

/// The four colours a pixel can take.
#[derive(Debug, PartialEq, Eq, Clone, Copy, Hash)]
pub enum UxnColorIndex {
    Zero,
    One,
    Two,
    Three,
}

impl UxnColorIndex {
    /// The colour with number `value`; an error for a number past three.
    pub fn try_from(value: u8) -> (r: Result<UxnColorIndex, &'static str>)
        ensures
            match r {
                Ok(c) => value < 4 && color_number(c) == value,
                Err(_) => value >= 4,
            },
    {
        if value == 0 {
            Ok(UxnColorIndex::Zero)
        } else if value == 1 {
            Ok(UxnColorIndex::One)
        } else if value == 2 {
            Ok(UxnColorIndex::Two)
        } else if value == 3 {
            Ok(UxnColorIndex::Three)
        } else {
            Err("color indicies only exist for values 0, 1, 2, 3")
        }
    }
}

pub open spec fn color_number(c: UxnColorIndex) -> u8 {
    match c {
        UxnColorIndex::Zero => 0,
        UxnColorIndex::One => 1,
        UxnColorIndex::Two => 2,
        UxnColorIndex::Three => 3,
    }
}

/// A colour component written as one nibble, spread over both nibbles of a byte.
pub open spec fn expand_nibble(n: u8) -> u8 {
    (n * 17) as u8
}

/// The red, green and blue bytes of the four colours, three bytes per colour, from the six
/// system colour bytes: colour 0 takes the high nibbles of bytes 0, 2 and 4, colour 1 their
/// low nibbles, colours 2 and 3 those of bytes 1, 3 and 5.
pub open spec fn palette_of(raw: Seq<u8>) -> Seq<u8> {
    seq![
        expand_nibble(raw[0] / 16), expand_nibble(raw[2] / 16), expand_nibble(raw[4] / 16),
        expand_nibble(raw[0] % 16), expand_nibble(raw[2] % 16), expand_nibble(raw[4] % 16),
        expand_nibble(raw[1] / 16), expand_nibble(raw[3] / 16), expand_nibble(raw[5] / 16),
        expand_nibble(raw[1] % 16), expand_nibble(raw[3] % 16), expand_nibble(raw[5] % 16),
    ]
}

/// Each of the four colours takes its red, green and blue from the six system colour bytes
/// (red in bytes 0 and 1, green in 2 and 3, blue in 4 and 5): colours 0 and 1 from the first
/// byte of each pair, colours 2 and 3 from the second, the even colour from the high nibble and
/// the odd one from the low nibble; a nibble `x` gives the byte `0xXX`, that is `x * 16 + x`.
pub proof fn lemma_palette_channels(raw: Seq<u8>, c: int, k: int)
    requires
        raw.len() == 6,
        0 <= c < 4,
        0 <= k < 3,
    ensures
        ({
            let byte = raw[2 * k + (if c < 2 { 0int } else { 1int })] as int;
            let nibble = if c % 2 == 0 { byte / 16 } else { byte % 16 };
            palette_of(raw)[3 * c + k] as int == nibble * 16 + nibble
        }),
{
}

/// The colour of pixel `i`: the foreground colour where it is not zero, else the background.
pub open spec fn shown_color(fg: Seq<u8>, bg: Seq<u8>, i: int) -> u8 {
    if fg[i] != 0 {
        fg[i]
    } else {
        bg[i]
    }
}

/// The picture of the two layers: red, green and blue bytes for each pixel in turn.
pub open spec fn frame_rgb(fg: Seq<u8>, bg: Seq<u8>, palette: Seq<u8>) -> Seq<u8> {
    Seq::new(
        (3 * fg.len()) as nat,
        |j: int| palette[shown_color(fg, bg, j / 3) * 3 + j % 3],
    )
}

/// Whether every byte of a layer is a colour number.
pub open spec fn colors_ok(layer: Seq<u8>) -> bool {
    forall|i: int| 0 <= i < layer.len() ==> #[trigger] layer[i] < 4
}

fn expand(n: u8) -> (r: u8)
    requires
        n < 16,
    ensures
        r == expand_nibble(n),
{
    assert(n < 16 ==> n | (n << 4u8) == n * 17) by (bit_vector);
    n | (n << 4u8)
}

/// The screen device: two layers of pixels (foreground and background), the colours that
/// they show, the target of the next pixel and the screen's ports.
pub struct ScreenDevice {
    fg: Vec<u8>,
    bg: Vec<u8>,
    layer_width: u16,
    layer_height: u16,
    dim: [u8; 4],
    auto_byte: u8,
    changed: bool,
    vector: [u8; 2],
    target: [u8; 4],
    last_pixel_value: u8,
    system_colors_raw: [u8; 6],
    palette: [u8; 12],
    auto_inc_x: bool,
    auto_inc_y: bool,
    access_log: Ghost<Seq<DeviceAccess>>,
}

impl ScreenDevice {
    pub closed spec fn fg(&self) -> Seq<u8> {
        self.fg@
    }

    pub closed spec fn bg(&self) -> Seq<u8> {
        self.bg@
    }

    pub closed spec fn layer_width(&self) -> u16 {
        self.layer_width
    }

    pub closed spec fn layer_height(&self) -> u16 {
        self.layer_height
    }

    /// Red, green and blue bytes of the four colours.
    pub closed spec fn palette(&self) -> Seq<u8> {
        self.palette@
    }

    pub closed spec fn raw_colors(&self) -> Seq<u8> {
        self.system_colors_raw@
    }

    /// Whether the picture has changed since it was last drawn.
    pub closed spec fn changed(&self) -> bool {
        self.changed
    }

    pub closed spec fn auto_x(&self) -> bool {
        self.auto_inc_x
    }

    pub closed spec fn auto_y(&self) -> bool {
        self.auto_inc_y
    }

    /// What a read of `port` gives.
    pub closed spec fn port_value(&self, port: u8) -> u8 {
        if port == 0x0 {
            self.vector@[0]
        } else if port == 0x1 {
            self.vector@[1]
        } else if 0x2 <= port <= 0x5 {
            self.dim@[port - 2]
        } else if port == 0x6 {
            self.auto_byte
        } else if 0x8 <= port <= 0xb {
            self.target@[port - 8]
        } else if port == 0xe {
            self.last_pixel_value
        } else {
            0
        }
    }

    pub open spec fn width(&self) -> u16 {
        vector_of(self.port_value(0x2), self.port_value(0x3))
    }

    pub open spec fn height(&self) -> u16 {
        vector_of(self.port_value(0x4), self.port_value(0x5))
    }

    pub open spec fn target_x(&self) -> u16 {
        vector_of(self.port_value(0x8), self.port_value(0x9))
    }

    pub open spec fn target_y(&self) -> u16 {
        vector_of(self.port_value(0xa), self.port_value(0xb))
    }

    /// The layers have the size of the screen they were made for, and hold colour numbers.
    pub open spec fn wf(&self) -> bool {
        &&& self.fg().len() == self.layer_width() * self.layer_height()
        &&& self.bg().len() == self.fg().len()
        &&& colors_ok(self.fg())
        &&& colors_ok(self.bg())
        &&& self.raw_colors().len() == 6
        &&& self.palette() == palette_of(self.raw_colors())
    }

    /// A blank screen of the given width and height, all colours black.
    pub fn new(dimensions: &[u16; 2]) -> (r: Self)
        requires
            dimensions@[0] * dimensions@[1] * 3 <= usize::MAX,
        ensures
            r.wf(),
            r.layer_width() == dimensions@[0],
            r.layer_height() == dimensions@[1],
            r.width() == dimensions@[0],
            r.height() == dimensions@[1],
            forall|i: int| 0 <= i < r.fg().len() ==> r.fg()[i] == 0 && r.bg()[i] == 0,
            r.palette() == Seq::new(12, |i: int| 0u8),
            r.raw_colors() == Seq::new(6, |i: int| 0u8),
            r.changed(),
            forall|p: u8| !(0x2 <= p <= 0x5) ==> #[trigger] r.port_value(p) == 0,
    {
        let w = dimensions[0];
        let h = dimensions[1];
        let n = layer_size(w, h).unwrap();
        let (w0, w1) = crate::emulators::devices::mouse::be_bytes(w);
        let (h0, h1) = crate::emulators::devices::mouse::be_bytes(h);
        let r = ScreenDevice {
            fg: vec![0u8; n],
            bg: vec![0u8; n],
            layer_width: w,
            layer_height: h,
            dim: [w0, w1, h0, h1],
            auto_byte: 0,
            changed: true,
            vector: [0u8; 2],
            target: [0u8; 4],
            last_pixel_value: 0,
            system_colors_raw: [0u8; 6],
            palette: [0u8; 12],
            auto_inc_x: false,
            auto_inc_y: false,
            access_log: Ghost(Seq::empty()),
        };
        assert(r.palette@ =~= Seq::new(12, |i: int| 0u8));
        assert(r.system_colors_raw@ =~= Seq::new(6, |i: int| 0u8));
        assert(palette_of(r.system_colors_raw@) =~= r.palette@) by {
            assert(expand_nibble(0) == 0);
        }
        r
    }
}

impl ScreenDevice {
    /// Ports whose byte the screen keeps and gives back on a read.
    pub open spec fn stored_port(port: u8) -> bool {
        port <= 0x6 || (0x8 <= port <= 0xb) || port == 0xe
    }

    /// `new` differs from `old` at most in the ports, not in its layers, colours or flags.
    pub open spec fn same_picture(old: &ScreenDevice, new: &ScreenDevice) -> bool {
        &&& new.fg() == old.fg()
        &&& new.bg() == old.bg()
        &&& new.layer_width() == old.layer_width()
        &&& new.layer_height() == old.layer_height()
        &&& new.palette() == old.palette()
        &&& new.raw_colors() == old.raw_colors()
        &&& new.changed() == old.changed()
    }

    /// The effect of painting with `val`: colour `val % 4` on the foreground layer where bit
    /// 0x40 is set, else on the background layer, at the target pixel where it lies on the
    /// layers; then the target moves one pixel right and one down as the auto byte says.
    pub open spec fn pixel_write_post(old: &ScreenDevice, new: &ScreenDevice, val: u8) -> bool {
        let x = old.target_x();
        let y = old.target_y();
        let on_layer = x < old.layer_width() && y < old.layer_height();
        let idx = y * old.layer_width() + x;
        let color = val % 4;
        let to_fg = val & 0x40 != 0;
        &&& new.layer_width() == old.layer_width()
        &&& new.layer_height() == old.layer_height()
        &&& new.palette() == old.palette()
        &&& new.raw_colors() == old.raw_colors()
        &&& new.auto_x() == old.auto_x()
        &&& new.auto_y() == old.auto_y()
        &&& new.fg() == (if on_layer && to_fg { old.fg().update(idx, color) } else { old.fg() })
        &&& new.bg() == (if on_layer && !to_fg { old.bg().update(idx, color) } else { old.bg() })
        &&& new.changed() == (old.changed() || (on_layer && (if to_fg { old.fg()[idx] } else { old.bg()[idx] }) != color))
        &&& new.target_x() == (if old.auto_x() { (x + 1) % 0x10000 } else { x as int })
        &&& new.target_y() == (if old.auto_y() { (y + 1) % 0x10000 } else { y as int })
        &&& forall|p: u8| !(0x8 <= p <= 0xb) && p != 0xe ==> #[trigger] new.port_value(p) == old.port_value(p)
    }

    #[verifier::rlimit(40)]
    fn pixel_write(&mut self, val: u8)
        ensures
            final(self).access_log == old(self).access_log,
            old(self).wf() ==> final(self).wf(),
            final(self).port_value(0xe) == old(self).port_value(0xe),
            old(self).wf() ==> Self::pixel_write_post(old(self), final(self), val),
    {
        let color = val & 0x3;
        assert(val & 0x3 == val % 4) by (bit_vector);
        let to_fg = val & 0x40 != 0;
        let x = self.target[0] as u16 * 256 + self.target[1] as u16;
        let y = self.target[2] as u16 * 256 + self.target[3] as u16;
        let w = self.layer_width;
        let h = self.layer_height;
        if x < w && y < h {
            assert(y * w + x < 0x10000 * 0x10000) by (nonlinear_arith)
                requires
                    x < w,
                    y < h,
                    w <= 0xffff,
            ;
            let idx64: u64 = y as u64 * w as u64 + x as u64;
            if idx64 < self.fg.len() as u64 && idx64 < self.bg.len() as u64 {
                let idx = idx64 as usize;
                if to_fg {
                    if self.fg[idx] != color {
                        self.fg.set(idx, color);
                        self.changed = true;
                    }
                } else {
                    if self.bg[idx] != color {
                        self.bg.set(idx, color);
                        self.changed = true;
                    }
                }
                proof {
                    assert(self.fg@ =~= (if to_fg { old(self).fg@.update(idx as int, color) } else { old(self).fg@ }));
                    assert(self.bg@ =~= (if !to_fg { old(self).bg@.update(idx as int, color) } else { old(self).bg@ }));
                }
            } else {
                proof {
                    if old(self).wf() {
                        assert(y * w + x < w * h) by (nonlinear_arith)
                            requires
                                x < w,
                                y < h,
                        ;
                    }
                }
            }
        }
        if self.auto_inc_x {
            let nx = x.wrapping_add(1);
            self.target[0] = (nx / 256) as u8;
            self.target[1] = (nx % 256) as u8;
        }
        if self.auto_inc_y {
            let ny = y.wrapping_add(1);
            self.target[2] = (ny / 256) as u8;
            self.target[3] = (ny % 256) as u8;
        }
    }

    fn update_system_colors(&mut self)
        ensures
            final(self).access_log == old(self).access_log,
            final(self).palette() == palette_of(old(self).raw_colors()),
            final(self).raw_colors() == old(self).raw_colors(),
            final(self).fg() == old(self).fg(),
            final(self).bg() == old(self).bg(),
            final(self).layer_width() == old(self).layer_width(),
            final(self).layer_height() == old(self).layer_height(),
            final(self).changed() == old(self).changed(),
            forall|p: u8| #[trigger] final(self).port_value(p) == old(self).port_value(p),
    {
        let raw = self.system_colors_raw;
        self.palette = [
            expand(raw[0] / 16), expand(raw[2] / 16), expand(raw[4] / 16),
            expand(raw[0] % 16), expand(raw[2] % 16), expand(raw[4] % 16),
            expand(raw[1] / 16), expand(raw[3] / 16), expand(raw[5] / 16),
            expand(raw[1] % 16), expand(raw[3] % 16), expand(raw[5] % 16),
        ];
        assert(self.palette@ =~= palette_of(raw@));
    }

    /// The vector that the screen calls on each refresh.
    pub fn read_vector(&self) -> (r: u16)
        ensures
            r == vector_of(self.port_value(0x0), self.port_value(0x1)),
    {
        self.vector[0] as u16 * 256 + self.vector[1] as u16
    }

    /// Whether the picture must be drawn again: it has changed since it was last drawn, or the
    /// system colours have (which are then taken into the palette).
    pub fn get_draw_required<S: UxnSystemScreenInterface>(&mut self, system: &S) -> (r: bool)
        ensures
            old(self).wf() ==> final(self).wf(),
            r == final(self).changed(),
            final(self).raw_colors() == system.screen_colors(),
            r == (old(self).changed() || old(self).raw_colors() != system.screen_colors()),
            old(self).raw_colors() != system.screen_colors() ==> final(self).palette() == palette_of(
                system.screen_colors(),
            ),
            old(self).raw_colors() == system.screen_colors() ==> final(self).palette() == old(self).palette(),
            final(self).fg() == old(self).fg(),
            final(self).bg() == old(self).bg(),
            final(self).layer_width() == old(self).layer_width(),
            final(self).layer_height() == old(self).layer_height(),
            forall|p: u8| #[trigger] final(self).port_value(p) == old(self).port_value(p),
    {
        if system.get_system_colors(&mut self.system_colors_raw) {
            self.changed = true;
            self.update_system_colors();
        }
        self.changed
    }

    /// The picture to show: the screen's width and height, and the red, green and blue bytes
    /// of each pixel in turn.
    pub fn draw(&mut self) -> (r: ([u16; 2], Vec<u8>))
        ensures
            final(self).accesses() == old(self).accesses(),
            old(self).wf() ==> final(self).wf(),
            r.0@ == seq![old(self).width(), old(self).height()],
            old(self).wf() ==> r.1@ == frame_rgb(old(self).fg(), old(self).bg(), old(self).palette()),
            !final(self).changed(),
            final(self).fg() == old(self).fg(),
            final(self).bg() == old(self).bg(),
            final(self).palette() == old(self).palette(),
            final(self).raw_colors() == old(self).raw_colors(),
            final(self).layer_width() == old(self).layer_width(),
            final(self).layer_height() == old(self).layer_height(),
            forall|p: u8| #[trigger] final(self).port_value(p) == old(self).port_value(p),
    {
        let n = if self.fg.len() < self.bg.len() { self.fg.len() } else { self.bg.len() };
        let mut out: Vec<u8> = Vec::new();
        let mut i: usize = 0;
        while i < n
            invariant
                n <= self.fg@.len(),
                n <= self.bg@.len(),
                self.wf() ==> n == self.fg@.len(),
                i <= n,
                out@.len() == 3 * i,
                self.wf() ==> forall|j: int| 0 <= j < 3 * i ==> #[trigger] out@[j] == frame_rgb(self.fg@, self.bg@, self.palette@)[j],
            decreases n - i,
        {
            let f = self.fg[i];
            let c = (if f != 0 { f } else { self.bg[i] }) & 0x3;
            proof {
                let cc = if f != 0 { f } else { self.bg@[i as int] };
                assert(cc < 4 ==> cc & 0x3 == cc) by (bit_vector);
                assert(cc & 0x3 < 4) by (bit_vector);
            }
            let base = c as usize * 3;
            out.push(self.palette[base]);
            out.push(self.palette[base + 1]);
            out.push(self.palette[base + 2]);
            proof {
                if self.wf() {
                    assert forall|j: int| 0 <= j < 3 * (i + 1) implies #[trigger] out@[j] == frame_rgb(self.fg@, self.bg@, self.palette@)[j] by {
                        if j >= 3 * i {
                            assert(j / 3 == i as int);
                        }
                    }
                }
            }
            i = i + 1;
        }
        proof {
            if self.wf() {
                assert(out@ =~= frame_rgb(self.fg@, self.bg@, self.palette@));
            }
        }
        let dim = [
            self.dim[0] as u16 * 256 + self.dim[1] as u16,
            self.dim[2] as u16 * 256 + self.dim[3] as u16,
        ];
        self.changed = false;
        (dim, out)
    }

    /// Makes the layers the size that the dimension ports give, all blank, where that picture
    /// fits in memory.
    fn resize(&mut self)
        ensures
            final(self).access_log == old(self).access_log,
            old(self).wf() ==> final(self).wf(),
            match layer_size_spec(old(self).width(), old(self).height()) {
                Some(n) => {
                    &&& final(self).layer_width() == old(self).width()
                    &&& final(self).layer_height() == old(self).height()
                    &&& forall|i: int| 0 <= i < final(self).fg().len() ==> final(self).fg()[i] == 0 && final(self).bg()[i] == 0
                    &&& final(self).changed()
                },
                None => Self::same_picture(old(self), final(self)),
            },
            final(self).palette() == old(self).palette(),
            final(self).raw_colors() == old(self).raw_colors(),
            final(self).auto_x() == old(self).auto_x(),
            final(self).auto_y() == old(self).auto_y(),
            forall|p: u8| #[trigger] final(self).port_value(p) == old(self).port_value(p),
    {
        let w = self.dim[0] as u16 * 256 + self.dim[1] as u16;
        let h = self.dim[2] as u16 * 256 + self.dim[3] as u16;
        match layer_size(w, h) {
            Some(n) => {
                self.fg = vec![0u8; n];
                self.bg = vec![0u8; n];
                self.layer_width = w;
                self.layer_height = h;
                self.changed = true;
            },
            None => {},
        }
    }

    fn set_auto(&mut self, val: u8)
        ensures
            final(self).access_log == old(self).access_log,
            final(self).auto_x() == (val & 0x01 != 0),
            final(self).auto_y() == (val & 0x02 != 0),
            Self::same_picture(old(self), final(self)),
            forall|p: u8| #[trigger] final(self).port_value(p) == old(self).port_value(p),
    {
        self.auto_inc_x = if (val & 0x01) != 0 { true } else { false };
        self.auto_inc_y = if (val & 0x02) != 0 { true } else { false };
    }
}

/// Something done to the screen: a write of a value to a port, a draw, or a check for a
/// redraw against the system colours `colors`.
pub enum ScreenEvent {
    Write(u8, u8),
    Draw,
    Check(Seq<u8>),
}

/// `new` is the screen `old` after the event `e`, as the screen's functions state it.
pub open spec fn screen_event_post(old: ScreenDevice, new: ScreenDevice, e: ScreenEvent) -> bool {
    &&& new.wf()
    &&& match e {
        ScreenEvent::Write(port, val) => port <= 0xf && screen_write_post(&old, &new, port, val),
        ScreenEvent::Draw => {
            &&& !new.changed()
            &&& new.fg() == old.fg()
            &&& new.bg() == old.bg()
            &&& new.raw_colors() == old.raw_colors()
            &&& new.layer_width() == old.layer_width()
            &&& new.layer_height() == old.layer_height()
        },
        ScreenEvent::Check(colors) => {
            &&& new.raw_colors() == colors
            &&& new.changed() == (old.changed() || old.raw_colors() != colors)
            &&& new.fg() == old.fg()
            &&& new.bg() == old.bg()
            &&& new.layer_width() == old.layer_width()
            &&& new.layer_height() == old.layer_height()
        },
    }
}

/// Whether painting with `val` on `s` lands on a pixel of the layers.
pub open spec fn paints_on_layer(s: ScreenDevice) -> bool {
    s.target_x() < s.layer_width() && s.target_y() < s.layer_height()
}

/// The index of the pixel that painting on `s` lands on.
pub open spec fn paint_index(s: ScreenDevice) -> int {
    s.target_y() * s.layer_width() + s.target_x()
}

/// Whether the event `e`, taking the screen from `old` to `new`, calls for a new picture: a
/// paint that changes a pixel's colour, a change of size that takes, or new system colours.
pub open spec fn dirties(old: ScreenDevice, new: ScreenDevice, e: ScreenEvent) -> bool {
    match e {
        ScreenEvent::Write(port, val) => if port == 0xe {
            paints_on_layer(old) && (if val & 0x40 != 0 { old.fg()[paint_index(old)] } else {
                old.bg()[paint_index(old)]
            }) != val % 4
        } else if port == 0x3 || port == 0x5 {
            layer_size_spec(new.width(), new.height()) is Some
        } else {
            false
        },
        ScreenEvent::Draw => false,
        ScreenEvent::Check(colors) => old.raw_colors() != colors,
    }
}

/// Whether a new picture is due after the screens `states` went through `events` (each event
/// taking a state to the next), a picture being due at the start where `start` says: since
/// the last draw (or the start), some event called for one.
pub open spec fn redraw_due(start: bool, states: Seq<ScreenDevice>, events: Seq<ScreenEvent>) -> bool
    decreases events.len(),
{
    if events.len() == 0 {
        start
    } else {
        let i = events.len() - 1;
        match events[i] {
            ScreenEvent::Draw => false,
            _ => redraw_due(start, states.drop_last(), events.drop_last()) || dirties(states[i], states[i + 1], events[i]),
        }
    }
}

/// A layer (the foreground where `fg`, else the background) of the screens `states` after
/// `events`, from `start`: the colour last painted on each pixel since the last change of size
/// (which blanks the layer), or what it held at the start.
pub open spec fn layer_after(start: Seq<u8>, fg: bool, states: Seq<ScreenDevice>, events: Seq<ScreenEvent>) -> Seq<u8>
    decreases events.len(),
{
    if events.len() == 0 {
        start
    } else {
        let i = events.len() - 1;
        let prev = layer_after(start, fg, states.drop_last(), events.drop_last());
        let old = states[i];
        match events[i] {
            ScreenEvent::Write(port, val) => if port == 0xe {
                if paints_on_layer(old) && ((val & 0x40 != 0) == fg) {
                    prev.update(paint_index(old), val % 4)
                } else {
                    prev
                }
            } else if port == 0x3 || port == 0x5 {
                match layer_size_spec(states[i + 1].width(), states[i + 1].height()) {
                    Some(n) => Seq::new(n as nat, |j: int| 0u8),
                    None => prev,
                }
            } else {
                prev
            },
            _ => prev,
        }
    }
}

/// The system colours of the screens `states` after `events`, from `start`: those of the
/// last check for a redraw, or `start` where there was none.
pub open spec fn colors_after(start: Seq<u8>, events: Seq<ScreenEvent>) -> Seq<u8>
    decreases events.len(),
{
    if events.len() == 0 {
        start
    } else {
        match events.last() {
            ScreenEvent::Check(colors) => colors,
            _ => colors_after(start, events.drop_last()),
        }
    }
}

/// Over any sequence of writes, draws and checks for a redraw: a new picture is due exactly
/// when, since the last draw, a paint changed a pixel's colour, the size changed or the system
/// colours changed; each layer holds the colour last painted on each pixel since the last
/// change of size (blank after it); and the palette is that of the system colours of the last
/// check. A draw shows `frame_rgb` of these layers and palette.
pub proof fn lemma_screen_history(states: Seq<ScreenDevice>, events: Seq<ScreenEvent>)
    requires
        states.len() == events.len() + 1,
        states[0].wf(),
        forall|i: int| 0 <= i < events.len() ==> #[trigger] screen_event_post(states[i], states[i + 1], events[i]),
    ensures
        states.last().changed() == redraw_due(states[0].changed(), states, events),
        states.last().fg() == layer_after(states[0].fg(), true, states, events),
        states.last().bg() == layer_after(states[0].bg(), false, states, events),
        states.last().raw_colors() == colors_after(states[0].raw_colors(), events),
        states.last().palette() == palette_of(colors_after(states[0].raw_colors(), events)),
    decreases events.len(),
{
    if events.len() > 0 {
        let n = events.len() - 1;
        let ps = states.drop_last();
        let pe = events.drop_last();
        assert forall|i: int| 0 <= i < pe.len() implies #[trigger] screen_event_post(ps[i], ps[i + 1], pe[i]) by {
            assert(screen_event_post(states[i], states[i + 1], events[i]));
        }
        lemma_screen_history(ps, pe);
        let old = states[n];
        let new = states[n + 1];
        assert(ps.last() == old);
        assert(screen_event_post(old, new, events[n]));
        assert(events.last() == events[n]);
        match events[n] {
            ScreenEvent::Write(port, val) => {
                if port == 0x3 || port == 0x5 {
                    match layer_size_spec(new.width(), new.height()) {
                        Some(k) => {
                            assert(new.fg() =~= Seq::new(k as nat, |j: int| 0u8));
                            assert(new.bg() =~= Seq::new(k as nat, |j: int| 0u8));
                        },
                        None => {},
                    }
                }
            },
            _ => {},
        }
    }
}

/// A pixel painted on the screen shows its colour in the next picture drawn: painted on the
/// foreground with a colour other than zero, or on the background where the foreground is
/// clear, the three bytes of the pixel are those of the colour in the palette.
pub proof fn lemma_painted_pixel_shows(old: &ScreenDevice, new: &ScreenDevice, val: u8, c: int)
    requires
        old.wf(),
        ScreenDevice::pixel_write_post(old, new, val),
        old.target_x() < old.layer_width(),
        old.target_y() < old.layer_height(),
        0 <= c < 3,
        (val & 0x40 != 0 && val % 4 != 0) || (val & 0x40 == 0 && old.fg()[old.target_y() * old.layer_width()
            + old.target_x()] == 0),
    ensures
        ({
            let idx = old.target_y() * old.layer_width() + old.target_x();
            frame_rgb(new.fg(), new.bg(), new.palette())[3 * idx + c] == new.palette()[(val % 4) * 3 + c]
        }),
{
    let x = old.target_x() as int;
    let y = old.target_y() as int;
    let w = old.layer_width() as int;
    let h = old.layer_height() as int;
    let idx = y * w + x;
    assert(0 <= idx < w * h) by (nonlinear_arith)
        requires
            0 <= x < w,
            0 <= y < h,
            idx == y * w + x,
    ;
    assert(new.fg().len() == old.fg().len());
    assert((3 * idx + c) / 3 == idx);
    assert((3 * idx + c) % 3 == c);
    assert(shown_color(new.fg(), new.bg(), idx) == val % 4);
}


/// The layers after the screen was given the size that its ports name: blank and of that
/// size where the picture fits in memory, else as they were.
pub open spec fn resize_post(old: &ScreenDevice, new: &ScreenDevice) -> bool {
    &&& new.palette() == old.palette()
    &&& new.raw_colors() == old.raw_colors()
    &&& new.auto_x() == old.auto_x()
    &&& new.auto_y() == old.auto_y()
    &&& match layer_size_spec(new.width(), new.height()) {
        Some(n) => {
            &&& new.layer_width() == new.width()
            &&& new.layer_height() == new.height()
            &&& forall|i: int| 0 <= i < new.fg().len() ==> new.fg()[i] == 0 && new.bg()[i] == 0
            &&& new.changed()
        },
        None => ScreenDevice::same_picture(old, new),
    }
}

/// The effect of writing `val` to `port`: a pixel painted (port 0xe), or the port's byte
/// kept, with the layers resized after the low byte of a dimension (ports 0x3 and 0x5) and
/// the auto flags set from the auto byte (port 0x6).
pub open spec fn screen_write_post(old: &ScreenDevice, new: &ScreenDevice, port: u8, val: u8) -> bool {
    if port == 0xe {
        new.port_value(0xe) == val && ScreenDevice::pixel_write_post(old, new, val)
    } else {
        &&& forall|p: u8| p != port ==> #[trigger] new.port_value(p) == old.port_value(p)
        &&& new.port_value(port) == (if ScreenDevice::stored_port(port) { val } else { 0 })
        &&& if port == 0x3 || port == 0x5 {
            resize_post(old, new)
        } else if port == 0x6 {
            &&& ScreenDevice::same_picture(old, new)
            &&& new.auto_x() == (val & 0x01 != 0)
            &&& new.auto_y() == (val & 0x02 != 0)
        } else {
            &&& ScreenDevice::same_picture(old, new)
            &&& new.auto_x() == old.auto_x()
            &&& new.auto_y() == old.auto_y()
        }
    }
}

impl ScreenDevice {
    /// Writes `val` to `port`, as a write to the device does.
    fn write_port(&mut self, port: u8, val: u8)
        requires
            port <= 0xf,
        ensures
            old(self).wf() ==> final(self).wf(),
            old(self).wf() ==> screen_write_post(old(self), final(self), port, val),
            final(self).access_log == old(self).access_log,
    {
        if port == 0x0 {
            self.vector[0] = val;
        } else if port == 0x1 {
            self.vector[1] = val;
        } else if port == 0x2 {
            self.dim[0] = val;
        } else if port == 0x3 {
            self.dim[1] = val;
            self.resize();
        } else if port == 0x4 {
            self.dim[2] = val;
        } else if port == 0x5 {
            self.dim[3] = val;
            self.resize();
        } else if port == 0x6 {
            self.auto_byte = val;
            self.set_auto(val);
        } else if 0x8 <= port && port <= 0xb {
            self.target[(port - 8) as usize] = val;
        } else if port == 0xe {
            self.last_pixel_value = val;
            self.pixel_write(val);
        }
    }
}

impl Device for ScreenDevice {
    closed spec fn accesses(&self) -> Seq<DeviceAccess> {
        self.access_log@
    }

    fn write<M: MainRamInterface>(&mut self, port: u8, val: u8, main_ram: &mut M)
        ensures
            old(self).wf() ==> final(self).wf(),
            old(self).wf() ==> screen_write_post(old(self), final(self), port, val),
            *final(main_ram) == *old(main_ram),
    {
        let ghost log = self.access_log@;
        self.write_port(port, val);
        let ghost mid = *self;
        self.access_log = Ghost(log.push(DeviceAccess::Write(port, val)));
        proof {
            assert forall|p: u8| #[trigger] self.port_value(p) == mid.port_value(p) by {}
            assert(ScreenDevice::same_picture(&mid, self));
            assert(self.auto_x() == mid.auto_x() && self.auto_y() == mid.auto_y());
            assert(self.target_x() == mid.target_x() && self.target_y() == mid.target_y());
        }
    }

    fn read(&mut self, port: u8) -> (r: u8)
        ensures
            r == old(self).port_value(port),
            old(self).wf() ==> final(self).wf(),
            final(self).fg() == old(self).fg(),
            final(self).bg() == old(self).bg(),
            final(self).palette() == old(self).palette(),
            final(self).raw_colors() == old(self).raw_colors(),
            final(self).changed() == old(self).changed(),
            final(self).layer_width() == old(self).layer_width(),
            final(self).layer_height() == old(self).layer_height(),
            forall|p: u8| #[trigger] final(self).port_value(p) == old(self).port_value(p),
    {
        let r = {
            if port == 0x0 {
                self.vector[0]
            } else if port == 0x1 {
                self.vector[1]
            } else if 0x2 <= port && port <= 0x5 {
                self.dim[(port - 2) as usize]
            } else if port == 0x6 {
                self.auto_byte
            } else if 0x8 <= port && port <= 0xb {
                self.target[(port - 8) as usize]
            } else if port == 0xe {
                self.last_pixel_value
            } else {
                0
            }
        };
        self.access_log = Ghost(self.access_log@.push(DeviceAccess::Read(port, r)));
        r
    }
}

/// The number of pixels of a `w` by `h` screen, where its picture fits in memory.
pub open spec fn layer_size_spec(w: u16, h: u16) -> Option<int> {
    if w * h * 3 <= usize::MAX {
        Some(w * h)
    } else {
        None
    }
}

/// The number of pixels of a `w` by `h` screen, where its picture fits in memory.
fn layer_size(w: u16, h: u16) -> (r: Option<usize>)
    ensures
        match r {
            Some(n) => n == w * h && w * h * 3 <= usize::MAX,
            None => w * h * 3 > usize::MAX,
        },
{
    assert(w * h * 3 <= 0xffff * 0xffff * 3) by (nonlinear_arith)
        requires
            w <= 0xffff,
            h <= 0xffff,
    ;
    let n: u64 = w as u64 * h as u64;
    if n * 3 <= usize::MAX as u64 {
        Some(n as usize)
    } else {
        None
    }
}

} // verus!
