//! The state of the tray icon: the status message it shows, the icon it
//! shows, and the pixel data of an icon in the layout the tray wants.

use vstd::prelude::*;
use crate::text::str_eq;

verus! {

/// The icon shown while waiting for the first sync checks.
pub open spec fn loading_icon() -> Seq<char> {
    "com.hunterwittenborn.Celeste.CelesteTrayLoading-symbolic"@
}

/// The icon shown while syncing.
pub open spec fn syncing_icon() -> Seq<char> {
    "com.hunterwittenborn.Celeste.CelesteTraySyncing-symbolic"@
}

/// The icon shown when a sync needs attention.
pub open spec fn warning_icon() -> Seq<char> {
    "com.hunterwittenborn.Celeste.CelesteTrayWarning-symbolic"@
}

/// The icon shown when all syncs are done.
pub open spec fn done_icon() -> Seq<char> {
    "com.hunterwittenborn.Celeste.CelesteTrayDone-symbolic"@
}

/// The icon shown when a remote cannot be reached.
pub open spec fn disconnected_icon() -> Seq<char> {
    "com.hunterwittenborn.Celeste.CelesteTrayDisconnected-symbolic"@
}

/// The tray: the status message of its menu and the name of its icon.
pub struct Tray {
    /// The status message shown at the top of the menu.
    pub status: String,
    /// The name of the icon.
    pub icon: String,
}

impl View for Tray {
    /// The status message and the icon name.
    type V = (Seq<char>, Seq<char>);

    open spec fn view(&self) -> (Seq<char>, Seq<char>) {
        (self.status@, self.icon@)
    }
}

impl Tray {
    /// A tray awaiting the first sync checks, showing the given status
    /// message (the translated text of "Awaiting sync checks...").
    pub fn new(status: String) -> (t: Tray)
        ensures
            t@ == (status@, loading_icon()),
    {
        Tray {
            status,
            icon: "com.hunterwittenborn.Celeste.CelesteTrayLoading-symbolic".to_owned(),
        }
    }

    /// The status message.
    pub fn status(&self) -> (s: String)
        ensures
            s@ == self@.0,
    {
        self.status.clone()
    }

    /// Sets the status message; the icon stays.
    pub fn set_msg(&mut self, msg: String)
        ensures
            final(self)@ == (msg@, old(self)@.1),
    {
        self.status = msg;
    }

    /// Shows the syncing icon; the message stays.
    pub fn set_syncing(&mut self)
        ensures
            final(self)@ == (old(self)@.0, syncing_icon()),
    {
        self.icon = "com.hunterwittenborn.Celeste.CelesteTraySyncing-symbolic".to_owned();
    }

    /// Shows the warning icon; the message stays.
    pub fn set_warning(&mut self)
        ensures
            final(self)@ == (old(self)@.0, warning_icon()),
    {
        self.icon = "com.hunterwittenborn.Celeste.CelesteTrayWarning-symbolic".to_owned();
    }

    /// Shows the done icon; the message stays.
    pub fn set_done(&mut self)
        ensures
            final(self)@ == (old(self)@.0, done_icon()),
    {
        self.icon = "com.hunterwittenborn.Celeste.CelesteTrayDone-symbolic".to_owned();
    }

    /// Shows the disconnected icon; the message stays.
    pub fn set_disconnected(&mut self)
        ensures
            final(self)@ == (old(self)@.0, disconnected_icon()),
    {
        self.icon = "com.hunterwittenborn.Celeste.CelesteTrayDisconnected-symbolic".to_owned();
    }
}

/// The pictures that the tray can show.
#[derive(Clone, Copy, Debug, PartialEq, Eq, Structural)]
pub enum TrayIcon {
    Loading,
    Syncing,
    Warning,
    Done,
    Disconnected,
}

/// The picture for an icon name; a name the tray does not know shows the
/// loading picture.
pub open spec fn tray_icon_of(name: Seq<char>) -> TrayIcon {
    if name == loading_icon() {
        TrayIcon::Loading
    } else if name == syncing_icon() {
        TrayIcon::Syncing
    } else if name == warning_icon() {
        TrayIcon::Warning
    } else if name == done_icon() {
        TrayIcon::Done
    } else if name == disconnected_icon() {
        TrayIcon::Disconnected
    } else {
        TrayIcon::Loading
    }
}

/// The picture that an icon name stands for.
pub fn tray_icon(icon_name: &str) -> (icon: TrayIcon)
    ensures
        icon == tray_icon_of(icon_name@),
{
    if str_eq(icon_name, "com.hunterwittenborn.Celeste.CelesteTrayLoading-symbolic") {
        TrayIcon::Loading
    } else if str_eq(icon_name, "com.hunterwittenborn.Celeste.CelesteTraySyncing-symbolic") {
        TrayIcon::Syncing
    } else if str_eq(icon_name, "com.hunterwittenborn.Celeste.CelesteTrayWarning-symbolic") {
        TrayIcon::Warning
    } else if str_eq(icon_name, "com.hunterwittenborn.Celeste.CelesteTrayDone-symbolic") {
        TrayIcon::Done
    } else if str_eq(icon_name, "com.hunterwittenborn.Celeste.CelesteTrayDisconnected-symbolic") {
        TrayIcon::Disconnected
    } else {
        TrayIcon::Loading
    }
}


/// Each icon that the tray can be set to is drawn with its own picture: the
/// loading one for a new tray, and the syncing, warning, done and
/// disconnected ones for the setters of those names.
pub proof fn lemma_tray_icons()
    ensures
        tray_icon_of(loading_icon()) == TrayIcon::Loading,
        tray_icon_of(syncing_icon()) == TrayIcon::Syncing,
        tray_icon_of(warning_icon()) == TrayIcon::Warning,
        tray_icon_of(done_icon()) == TrayIcon::Done,
        tray_icon_of(disconnected_icon()) == TrayIcon::Disconnected,
{
    reveal_strlit("com.hunterwittenborn.Celeste.CelesteTrayLoading-symbolic");
    reveal_strlit("com.hunterwittenborn.Celeste.CelesteTraySyncing-symbolic");
    reveal_strlit("com.hunterwittenborn.Celeste.CelesteTrayWarning-symbolic");
    reveal_strlit("com.hunterwittenborn.Celeste.CelesteTrayDone-symbolic");
    reveal_strlit("com.hunterwittenborn.Celeste.CelesteTrayDisconnected-symbolic");
    assert(loading_icon()[40] == 'L');
    assert(syncing_icon()[40] == 'S');
    assert(warning_icon()[40] == 'W');
    assert(done_icon()[40] == 'D');
    assert(disconnected_icon()[40] == 'D');
    assert(done_icon().len() != disconnected_icon().len());
}

/// Where the pixel in row `y` and column `x` starts in a decoded image whose
/// rows are `rowstride` bytes apart and whose pixels have `channels` bytes.
pub open spec fn pixel_offset(rowstride: int, channels: int, y: int, x: int) -> int {
    y * rowstride + x * channels
}

/// Whether every pixel of a `width` by `height` image lies within `len`
/// bytes: its red, green and blue bytes, and its alpha byte where pixels
/// have four channels or more.
pub open spec fn pixels_in_bounds(
    len: int,
    rowstride: int,
    channels: int,
    width: int,
    height: int,
) -> bool {
    forall|y: int, x: int|
        #![trigger pixel_offset(rowstride, channels, y, x)]
        0 <= y < height && 0 <= x < width ==> pixel_offset(rowstride, channels, y, x) + (if channels
            >= 4 {
            3int
        } else {
            2int
        }) < len
}

/// Byte `k` of the pixel in row `y` and column `x` in alpha, red, green,
/// blue order: the alpha byte is the fourth channel where there is one and
/// fully opaque otherwise.
pub open spec fn argb_byte(
    pixels: Seq<u8>,
    rowstride: int,
    channels: int,
    y: int,
    x: int,
    k: int,
) -> u8 {
    let offset = pixel_offset(rowstride, channels, y, x);
    if k == 0 {
        if channels >= 4 {
            pixels[offset + 3]
        } else {
            255u8
        }
    } else {
        pixels[offset + k - 1]
    }
}

/// The four bytes of a pixel in the tray's layout: first the alpha byte,
/// which is the pixel's fourth byte where pixels have four channels or more
/// and fully opaque otherwise, then the red, green and blue bytes, the
/// first three of the pixel; a pixel starts `rowstride` bytes per row and
/// `channels` bytes per column into the decoded data.
pub proof fn lemma_argb_bytes(pixels: Seq<u8>, rowstride: int, channels: int, y: int, x: int)
    ensures
        argb_byte(pixels, rowstride, channels, y, x, 0) == (if channels >= 4 {
            pixels[y * rowstride + x * channels + 3]
        } else {
            255u8
        }),
        argb_byte(pixels, rowstride, channels, y, x, 1) == pixels[y * rowstride + x * channels],
        argb_byte(pixels, rowstride, channels, y, x, 2) == pixels[y * rowstride + x * channels + 1],
        argb_byte(pixels, rowstride, channels, y, x, 3) == pixels[y * rowstride + x * channels + 2],
{
}

proof fn lemma_earlier_pixel(width: int, y: int, x: int, py: int, px: int)
    requires
        0 <= py,
        0 <= px < width,
        0 <= x,
        py < y || (py == y && px < x),
    ensures
        py * width + px < y * width + x,
{
    if py < y {
        assert(py * width + px < (py + 1) * width) by (nonlinear_arith)
            requires
                px < width,
        ;
        assert((py + 1) * width <= y * width) by (nonlinear_arith)
            requires
                py + 1 <= y,
                0 <= width,
        ;
    }
}

proof fn lemma_pixel_fits(width: int, height: int, y: int, x: int)
    requires
        0 <= y < height,
        0 <= x < width,
    ensures
        (y * width + x + 1) * 4 <= width * height * 4,
{
    assert(y * width + x + 1 <= (y + 1) * width) by (nonlinear_arith)
        requires
            x < width,
    ;
    assert((y + 1) * width <= height * width) by (nonlinear_arith)
        requires
            y + 1 <= height,
            0 <= width,
    ;
    assert(height * width == width * height) by (nonlinear_arith);
}

/// The pixels of a decoded image, rows `rowstride` bytes apart and pixels
/// `channels` bytes wide with red, green and blue first, laid out as the tray
/// wants them: row by row, four bytes per pixel in alpha, red, green, blue
/// order.
pub fn argb_pixels(pixels: &[u8], rowstride: usize, channels: usize, width: usize, height: usize) -> (data: Vec<u8>)
    requires
        width * height * 4 <= usize::MAX,
        pixels_in_bounds(pixels@.len() as int, rowstride as int, channels as int, width as int, height as int),
    ensures
        data@.len() == width * height * 4,
        forall|y: int, x: int, k: int|
            0 <= y < height && 0 <= x < width && 0 <= k < 4 ==> data@[(y * width + x) * 4 + k]
                == #[trigger] argb_byte(pixels@, rowstride as int, channels as int, y, x, k),
{
    let mut data: Vec<u8> = Vec::new();
    let mut y: usize = 0;
    while y < height
        invariant
            y <= height,
            width * height * 4 <= usize::MAX,
            pixels_in_bounds(pixels@.len() as int, rowstride as int, channels as int, width as int, height as int),
            data@.len() == y * width * 4,
            forall|py: int, px: int, k: int|
                0 <= py < y && 0 <= px < width && 0 <= k < 4 ==> data@[(py * width + px) * 4 + k]
                    == #[trigger] argb_byte(pixels@, rowstride as int, channels as int, py, px, k),
        decreases height - y,
    {
        let mut x: usize = 0;
        while x < width
            invariant
                y < height,
                x <= width,
                width * height * 4 <= usize::MAX,
                pixels_in_bounds(pixels@.len() as int, rowstride as int, channels as int, width as int, height as int),
                data@.len() == (y * width + x) * 4,
                forall|py: int, px: int, k: int|
                    0 <= py && 0 <= px < width && (py < y || (py == y && px < x)) && 0 <= k < 4
                        ==> data@[(py * width + px) * 4 + k]
                        == #[trigger] argb_byte(pixels@, rowstride as int, channels as int, py, px, k),
            decreases width - x,
        {
            let ghost before = data@;
            let ghost off = pixel_offset(rowstride as int, channels as int, y as int, x as int);
            let n = pixels.len();
            assert(off + 2 < n);
            assert(0 <= y * rowstride <= off) by (nonlinear_arith)
                requires
                    off == y * rowstride + x * channels,
                    0 <= x * channels,
                    0 <= y,
                    0 <= rowstride,
            ;
            assert(0 <= x * channels) by (nonlinear_arith)
                requires
                    0 <= x,
                    0 <= channels,
            ;
            assert(x * channels <= off);
            let offset = y * rowstride + x * channels;
            let red = pixels[offset];
            let green = pixels[offset + 1];
            let blue = pixels[offset + 2];
            let alpha = if channels >= 4 {
                pixels[offset + 3]
            } else {
                255
            };
            proof {
                lemma_pixel_fits(width as int, height as int, y as int, x as int);
            }
            data.push(alpha);
            data.push(red);
            data.push(green);
            data.push(blue);
            let ghost base = (y * width + x) * 4;
            assert forall|py: int, px: int, k: int|
                0 <= py && 0 <= px < width && (py < y || (py == y && px < x + 1)) && 0 <= k < 4
                    implies data@[(py * width + px) * 4 + k]
                    == #[trigger] argb_byte(pixels@, rowstride as int, channels as int, py, px, k) by {
                if py == y && px == x {
                    assert((py * width + px) * 4 + k == base + k);
                } else {
                    lemma_earlier_pixel(width as int, y as int, x as int, py, px);
                    assert((py * width + px) * 4 + k < base) by (nonlinear_arith)
                        requires
                            py * width + px < y * width + x,
                            base == (y * width + x) * 4,
                            k < 4,
                    ;
                    assert(data@[(py * width + px) * 4 + k] == before[(py * width + px) * 4 + k]);
                }
            }
            assert((y * width + x + 1) * 4 == base + 4) by (nonlinear_arith)
                requires
                    base == (y * width + x) * 4,
            ;
            x = x + 1;
        }
        assert((y * width + width) * 4 == (y + 1) * width * 4) by (nonlinear_arith);
        y = y + 1;
    }
    assert(height * width * 4 == width * height * 4) by (nonlinear_arith);
    data
}

} // verus!
