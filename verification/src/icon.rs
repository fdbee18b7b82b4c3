//! Conversion of the tiled RGB565 icon bitmaps into flat RGB888, and PNG
//! encoding through the outside encoder crate.
use std::io::Cursor;
use vstd::prelude::*;

verus! {

/// The horizontal swizzle offset within one 8x8 tile.
pub open spec fn xlut(i: int) -> int {
    if i == 0 {
        0
    } else if i == 1 {
        1
    } else if i == 2 {
        4
    } else if i == 3 {
        5
    } else if i == 4 {
        0x10
    } else if i == 5 {
        0x11
    } else if i == 6 {
        0x14
    } else {
        0x15
    }
}

/// The vertical swizzle offset within one 8x8 tile.
pub open spec fn ylut(i: int) -> int {
    if i == 0 {
        0
    } else if i == 1 {
        2
    } else if i == 2 {
        8
    } else if i == 3 {
        0xa
    } else if i == 4 {
        0x20
    } else if i == 5 {
        0x22
    } else if i == 6 {
        0x28
    } else {
        0x2a
    }
}

/// The position in the tiled buffer of the pixel at `(x, y)` for a square
/// image of the given width.
pub open spec fn tile_index(x: int, y: int, width: int) -> int {
    xlut(x % 8) + ylut(y % 8) + ((x / 8) + (y / 8) * (width / 8)) * 64
}

/// A 5-bit channel expanded to 8 bits.
pub open spec fn convert5(v: u16) -> u8 {
    ((v << 3) | (v >> 2)) as u8
}

/// A 6-bit channel expanded to 8 bits.
pub open spec fn convert6(v: u16) -> u8 {
    ((v << 2) | (v >> 4)) as u8
}

/// The red, green and blue bytes of one RGB565 pixel.
pub open spec fn pixel_r(p: u16) -> u8 {
    convert5(p >> 11)
}

pub open spec fn pixel_g(p: u16) -> u8 {
    convert6((p >> 5) & 0x3f)
}

pub open spec fn pixel_b(p: u16) -> u8 {
    convert5(p & 0x1f)
}

/// Whether `v` is the flat RGB888 rendering of the tiled pixel buffer
/// `icon` at the given width.
pub open spec fn is_rgb_of(v: Seq<u8>, icon: Seq<i16>, width: int) -> bool {
    &&& v.len() == 3 * width * width
    &&& forall|y: int, x: int|
        0 <= y < width && 0 <= x < width ==> {
            let p = (#[trigger] icon[tile_index(x, y, width)]) as u16;
            &&& v[3 * (y * width + x)] == pixel_r(p)
            &&& v[3 * (y * width + x) + 1] == pixel_g(p)
            &&& v[3 * (y * width + x) + 2] == pixel_b(p)
        }
}

/// Untiles a stored icon column into a flat RGB888 buffer; only the two
/// catalog icon sizes are accepted.
pub fn icon_rgb(icon: &Vec<i16>) -> (r: Option<(Vec<u8>, u32)>)
    ensures
        (icon@.len() == 576 || icon@.len() == 2304) <==> r is Some,
        r matches Some((v, w)) ==> (w == if icon@.len() == 576 {
            24int
        } else {
            48int
        }) && is_rgb_of(v@, icon@, w as int),
{
    let width: usize = if icon.len() == 576 {
        24
    } else if icon.len() == 2304 {
        48
    } else {
        return None;
    };
    let bc: usize = width / 8;
    let mut v: Vec<u8> = Vec::new();
    let mut y: usize = 0;
    while y < width
        invariant
            y <= width,
            width == 24 || width == 48,
            bc == width / 8,
            icon@.len() == (width * width) as int,
            v@.len() == 3 * (y * width),
            forall|yy: int, xx: int|
                0 <= yy < y && 0 <= xx < width ==> {
                    let p = (#[trigger] icon@[tile_index(xx, yy, width as int)]) as u16;
                    &&& v@[3 * (yy * width + xx)] == pixel_r(p)
                    &&& v@[3 * (yy * width + xx) + 1] == pixel_g(p)
                    &&& v@[3 * (yy * width + xx) + 2] == pixel_b(p)
                },
        decreases width - y,
    {
        let mut x: usize = 0;
        while x < width
            invariant
                y < width,
                x <= width,
                width == 24 || width == 48,
                bc == width / 8,
                icon@.len() == (width * width) as int,
                v@.len() == 3 * (y * width + x),
                forall|yy: int, xx: int|
                    0 <= yy < y && 0 <= xx < width ==> {
                        let p = (#[trigger] icon@[tile_index(xx, yy, width as int)]) as u16;
                        &&& v@[3 * (yy * width + xx)] == pixel_r(p)
                        &&& v@[3 * (yy * width + xx) + 1] == pixel_g(p)
                        &&& v@[3 * (yy * width + xx) + 2] == pixel_b(p)
                    },
                forall|xx: int|
                    0 <= xx < x ==> {
                        let p = (#[trigger] icon@[tile_index(xx, y as int, width as int)]) as u16;
                        &&& v@[3 * (y * width + xx)] == pixel_r(p)
                        &&& v@[3 * (y * width + xx) + 1] == pixel_g(p)
                        &&& v@[3 * (y * width + xx) + 2] == pixel_b(p)
                    },
            decreases width - x,
        {
            let bx = x / 8;
            let by = y / 8;
            let cx = x % 8;
            let cy = y % 8;
            let xl: usize = if cx == 0 {
                0
            } else if cx == 1 {
                1
            } else if cx == 2 {
                4
            } else if cx == 3 {
                5
            } else if cx == 4 {
                0x10
            } else if cx == 5 {
                0x11
            } else if cx == 6 {
                0x14
            } else {
                0x15
            };
            let yl: usize = if cy == 0 {
                0
            } else if cy == 1 {
                2
            } else if cy == 2 {
                8
            } else if cy == 3 {
                0xa
            } else if cy == 4 {
                0x20
            } else if cy == 5 {
                0x22
            } else if cy == 6 {
                0x28
            } else {
                0x2a
            };
            proof {
                assert(bx <= bc - 1 && by <= bc - 1) by (nonlinear_arith)
                    requires
                        x < width,
                        y < width,
                        bc == width / 8,
                        bx == x / 8,
                        by == y / 8,
                        width == 8 * bc,
                ;
                assert(width == 8 * bc);
                assert((bx + by * bc) * 64 <= (bc * bc - 1) * 64) by (nonlinear_arith)
                    requires
                        bx <= bc - 1,
                        by <= bc - 1,
                        bc >= 1,
                ;
                assert(64 * (bc * bc) == width * width) by (nonlinear_arith)
                    requires
                        width == 8 * bc,
                ;
            }
            let i: usize = xl + yl + (bx + by * bc) * 64;
            proof {
                assert(xl + yl <= 63);
                assert(i < width * width);
                assert(i == tile_index(x as int, y as int, width as int));
            }
            let p: u16 = #[verifier::truncate] (icon[i] as u16);
            proof {
                let pv = p;
                assert((pv >> 11) < 0x10000 && ((pv >> 5) & 0x3f) < 0x10000) by (bit_vector);
            }
            v.push(#[verifier::truncate] ((((p >> 11) << 3) | ((p >> 11) >> 2)) as u8));
            v.push(
                #[verifier::truncate] (((((p >> 5) & 0x3f) << 2) | (((p >> 5) & 0x3f) >> 4)) as u8),
            );
            v.push(#[verifier::truncate] ((((p & 0x1f) << 3) | ((p & 0x1f) >> 2)) as u8));
            x = x + 1;
        }
        proof {
            assert(3 * (y * width + width) == 3 * ((y + 1) * width)) by (nonlinear_arith);
        }
        y = y + 1;
    }
    proof {
        assert(v@.len() == 3 * (width * width)) by (nonlinear_arith)
            requires
                v@.len() == 3 * (width * width + 0),
        ;
    }
    if width == 24 {
        Some((v, 24))
    } else {
        Some((v, 48))
    }
}

/// What the PNG encoder produces for a square RGB8 image of the given
/// width.
pub uninterp spec fn png_rgb_of(width: int, pixels: Seq<u8>) -> Seq<u8>;

/// Relies on png's Encoder in RGB8 mode: the encoded stream is a function
/// of the image dimensions and pixel bytes alone; a buffer that does not
/// match the dimensions is an error value. Encoding cannot fail for a
/// positive width with a complete buffer: the header is refused only for a
/// zero dimension or an invalid colour/depth pairing, the image data only
/// for a size mismatch, and the in-memory writer never errors.
#[verifier::external_body]
fn png_encode_rgb(width: u32, pixels: &Vec<u8>) -> (r: Option<Vec<u8>>)
    ensures
        r matches Some(v) ==> v@ == png_rgb_of(width as int, pixels@),
        (1 <= width && pixels@.len() == 3 * width * width) ==> r is Some,
{
    let mut cursor = Cursor::new(Vec::new());
    let mut encoder = png::Encoder::new(&mut cursor, width, width);
    encoder.set_color(png::ColorType::Rgb);
    encoder.set_depth(png::BitDepth::Eight);
    let written = match encoder.write_header() {
        Ok(mut writer) => writer.write_image_data(pixels).is_ok(),
        Err(_) => false,
    };
    if written {
        Some(cursor.into_inner())
    } else {
        None
    }
}

/// Renders a stored icon column as a PNG image: untile to RGB888, then
/// encode. Only the two catalog icon sizes are accepted.
pub fn render_icon_png(icon: &Vec<i16>) -> (r: Option<Vec<u8>>)
    ensures
        (icon@.len() == 576 || icon@.len() == 2304) <==> r is Some,
        r matches Some(png) ==> exists|v: Seq<u8>, w: int|
            {
                &&& w == if icon@.len() == 576 {
                    24int
                } else {
                    48int
                }
                &&& #[trigger] is_rgb_of(v, icon@, w)
                &&& png@ == png_rgb_of(w, v)
            },
{
    match icon_rgb(icon) {
        Some((v, w)) => {
            proof {
                assert(v@.len() == 3 * (w as int) * (w as int)) by (nonlinear_arith)
                    requires
                        v@.len() == 3 * ((w as int) * (w as int)),
                ;
            }
            let out = png_encode_rgb(w, &v);
            proof {
                assert(out is Some);
                assert(is_rgb_of(v@, icon@, w as int));
            }
            out
        },
        None => None,
    }
}

} // verus!
