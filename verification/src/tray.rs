//! The tray menu: its actions and its 16 by 16 icon.
use vstd::prelude::*;

verus! {

/// What a tray event asks for.
#[derive(Clone, Copy, Debug, PartialEq, Eq, Structural)]
pub enum TrayAction {
    Capture,
    Settings,
    Exit,
}

/// Side of the tray icon, in pixels.
pub const ICON_SIDE: usize = 16;

/// Whether the icon pixel at `(x, y)` is painted: a square frame from 2 to 13
/// and a filled shutter square from 5 to 10.
pub open spec fn icon_lit(x: int, y: int) -> bool {
    &&& 2 <= x < 14
    &&& 2 <= y < 14
    &&& (x == 2 || x == 13 || y == 2 || y == 13 || (5 <= x <= 10 && 5 <= y <= 10))
}

/// Byte `i` of the icon, RGBA row by row: painted pixels are opaque (43, 127, 255),
/// the others fully transparent.
pub open spec fn icon_byte(i: int) -> u8 {
    let x = (i / 4) % 16;
    let y = (i / 4) / 16;
    let c = i % 4;
    if icon_lit(x, y) {
        if c == 0 {
            43u8
        } else if c == 1 {
            127u8
        } else {
            255u8
        }
    } else {
        0u8
    }
}

/// The RGBA bytes of the tray icon.
pub fn icon_rgba() -> (pixels: Vec<u8>)
    ensures
        pixels@.len() == ICON_SIDE * ICON_SIDE * 4,
        forall|i: int| 0 <= i < pixels@.len() ==> #[trigger] pixels@[i] == icon_byte(i),
{
    let mut pixels: Vec<u8> = Vec::new();
    let mut i: usize = 0;
    while i < ICON_SIDE * ICON_SIDE * 4
        invariant
            i <= ICON_SIDE * ICON_SIDE * 4,
            pixels@.len() == i,
            forall|j: int| 0 <= j < i ==> #[trigger] pixels@[j] == 0,
        decreases ICON_SIDE * ICON_SIDE * 4 - i,
    {
        pixels.push(0);
        i = i + 1;
    }
    proof {
        assert forall|j: int| 0 <= j < 1024 implies #[trigger] pixels@[j] == if (j / 4) / 16 < 2 {
            icon_byte(j)
        } else {
            0u8
        } by {
            if (j / 4) / 16 < 2 {
                assert(!icon_lit((j / 4) % 16, (j / 4) / 16));
            }
        }
    }
    let mut y: usize = 2;
    while y < 14
        invariant
            2 <= y <= 14,
            pixels@.len() == 1024,
            forall|j: int|
                0 <= j < 1024 ==> #[trigger] pixels@[j] == if (j / 4) / 16 < y {
                    icon_byte(j)
                } else {
                    0u8
                },
        decreases 14 - y,
    {
        let mut x: usize = 2;
        while x < 14
            invariant
                2 <= y < 14,
                2 <= x <= 14,
                pixels@.len() == 1024,
                forall|j: int|
                    0 <= j < 1024 ==> #[trigger] pixels@[j] == if (j / 4) / 16 < y || ((j / 4)
                        / 16 == y && (j / 4) % 16 < x) {
                        icon_byte(j)
                    } else {
                        0u8
                    },
            decreases 14 - x,
        {
            let border = x == 2 || x == 13 || y == 2 || y == 13;
            let shutter = 5 <= x && x <= 10 && 5 <= y && y <= 10;
            if border || shutter {
                let i = (y * 16 + x) * 4;
                pixels.set(i, 43);
                pixels.set(i + 1, 127);
                pixels.set(i + 2, 255);
                pixels.set(i + 3, 255);
            }
            proof {
                assert forall|j: int| 0 <= j < 1024 implies #[trigger] pixels@[j] == if (j / 4)
                    / 16 < y || ((j / 4) / 16 == y && (j / 4) % 16 < x + 1) {
                    icon_byte(j)
                } else {
                    0u8
                } by {
                    let base = (y * 16 + x) * 4;
                    if base <= j < base + 4 {
                        assert(j / 4 == y * 16 + x);
                        assert((j / 4) / 16 == y);
                        assert((j / 4) % 16 == x);
                        assert(j % 4 == j - base);
                    } else if (j / 4) / 16 == y && (j / 4) % 16 == x {
                        assert(j / 4 == y * 16 + x);
                    }
                }
            }
            x = x + 1;
        }
        y = y + 1;
    }
    proof {
        assert forall|j: int| 0 <= j < 1024 implies #[trigger] pixels@[j] == icon_byte(j) by {
            if (j / 4) / 16 >= 14 || (j / 4) / 16 < 2 {
                assert(!icon_lit((j / 4) % 16, (j / 4) / 16));
            }
        }
    }
    pixels
}

} // verus!
