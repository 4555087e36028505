//! Icons: the picture of the window and the task bar.
use vstd::prelude::*;

verus! {

/// A picture of four bytes for each pixel (red, green, blue, opacity), row by row.
#[derive(Debug)]
pub struct Picture {
    pub width: u32,
    pub height: u32,
    pub rgba: Vec<u8>,
}

impl Picture {
    /// Every pixel is there.
    pub open spec fn is_complete(self) -> bool {
        self.rgba@.len() == 4 * (self.width * self.height)
    }
}

/// The side of the icons that the desktop shows, in pixels.
pub const ICON_SIDE: u32 = 128;

/// The side of the drawn icon, in pixels.
pub const DRAWN_SIDE: u32 = 32;

/// The dark colour of the drawn icon.
pub open spec fn outline() -> Seq<u8> {
    seq![44u8, 62u8, 72u8, 255u8]
}

/// The bright colour of the drawn icon.
pub open spec fn green() -> Seq<u8> {
    seq![55u8, 190u8, 125u8, 255u8]
}

/// The frame of the drawn battery.
pub open spec fn on_frame(x: int, y: int) -> bool {
    5 <= x < 27 && 7 <= y < 26 && (x == 5 || x == 26 || y == 7 || y == 25)
}

/// The charge inside the drawn battery.
pub open spec fn on_charge(x: int, y: int) -> bool {
    9 <= x < 23 && 11 <= y < 23
}

/// The terminal of the drawn battery.
pub open spec fn on_terminal(x: int, y: int) -> bool {
    27 <= x < 29 && 13 <= y < 20
}

/// The drawn battery: an outlined frame and terminal, a green charge, nothing elsewhere.
pub open spec fn drawn_pixel(x: int, y: int) -> Seq<u8> {
    if on_frame(x, y) || on_terminal(x, y) {
        outline()
    } else if on_charge(x, y) {
        green()
    } else {
        seq![0u8, 0u8, 0u8, 0u8]
    }
}

/// The bytes of the drawn battery.
pub open spec fn drawn_bytes() -> Seq<u8> {
    Seq::new(4096, |i: int| drawn_pixel((i / 4) % 32, (i / 4) / 32)[i % 4])
}

/// Sets the pixel at `x`, `y`.
fn set_pixel(rgba: &mut Vec<u8>, x: usize, y: usize, color: [u8; 4])
    requires
        x < 32,
        y < 32,
        old(rgba)@.len() == 4096,
    ensures
        final(rgba)@.len() == 4096,
        forall|i: int|
            0 <= i < 4096 ==> #[trigger] final(rgba)@[i] == (if i / 4 == 32 * y + x {
                color@[i % 4]
            } else {
                old(rgba)@[i]
            }),
{
    let offset: usize = (y * 32 + x) * 4;
    rgba.set(offset, color[0]);
    rgba.set(offset + 1, color[1]);
    rgba.set(offset + 2, color[2]);
    rgba.set(offset + 3, color[3]);
}

/// `bytes` hold `color` on the pixels of `inside` that come, row by row, before `column` in
/// `row`, and what `before` holds elsewhere.
spec fn is_filled(
    bytes: Seq<u8>,
    before: Seq<u8>,
    color: Seq<u8>,
    inside: spec_fn(int, int) -> bool,
    row: int,
    column: int,
) -> bool {
    &&& bytes.len() == 4096
    &&& forall|i: int|
        0 <= i < 4096 ==> #[trigger] bytes[i] == (if inside((i / 4) % 32, (i / 4) / 32) && ((i / 4)
            / 32 < row || ((i / 4) / 32 == row && (i / 4) % 32 < column)) {
            color[i % 4]
        } else {
            before[i]
        })
}

/// Fills a rectangle, or only its border.
fn fill(
    rgba: &mut Vec<u8>,
    left: usize,
    right: usize,
    top: usize,
    bottom: usize,
    border_only: bool,
    color: [u8; 4],
)
    requires
        left < right <= 32,
        top < bottom <= 32,
        old(rgba)@.len() == 4096,
    ensures
        final(rgba)@.len() == 4096,
        forall|i: int|
            0 <= i < 4096 ==> #[trigger] final(rgba)@[i] == ({
                let x = (i / 4) % 32;
                let y = (i / 4) / 32;
                if left <= x < right && top <= y < bottom && (border_only ==> (x == left || x
                    == right - 1 || y == top || y == bottom - 1)) {
                    color@[i % 4]
                } else {
                    old(rgba)@[i]
                }
            }),
{
    let ghost before = rgba@;
    let ghost inside = |x: int, y: int|
        left <= x < right && top <= y < bottom && (border_only ==> (x == left || x == right - 1
            || y == top || y == bottom - 1));
    let mut y: usize = top;
    while y < bottom
        invariant
            left < right <= 32,
            top <= y <= bottom <= 32,
            inside == (|x: int, y: int|
                left <= x < right && top <= y < bottom && (border_only ==> (x == left || x
                    == right - 1 || y == top || y == bottom - 1))),
            is_filled(rgba@, before, color@, inside, y as int, 0),
        decreases bottom - y,
    {
        let mut x: usize = left;
        while x < right
            invariant
                left <= x <= right <= 32,
                top <= y < bottom <= 32,
                inside == (|x: int, y: int|
                    left <= x < right && top <= y < bottom && (border_only ==> (x == left || x
                        == right - 1 || y == top || y == bottom - 1))),
                is_filled(rgba@, before, color@, inside, y as int, x as int),
            decreases right - x,
        {
            if !border_only || x == left || x == right - 1 || y == top || y == bottom - 1 {
                set_pixel(rgba, x, y, color);
            }
            x = x + 1;
        }
        y = y + 1;
    }
}

/// Draws the small battery that stands in where no icon can be decoded.
pub fn fallback_icon() -> (r: Picture)
    ensures
        r.width == 32,
        r.height == 32,
        r.rgba@ == drawn_bytes(),
        r.is_complete(),
{
    let mut rgba: Vec<u8> = vec![0u8;4096];
    fill(&mut rgba, 5, 27, 7, 26, true, [44, 62, 72, 255]);
    fill(&mut rgba, 9, 23, 11, 23, false, [55, 190, 125, 255]);
    fill(&mut rgba, 27, 29, 13, 20, false, [44, 62, 72, 255]);
    assert(rgba@ =~= drawn_bytes());
    Picture { width: DRAWN_SIDE, height: DRAWN_SIDE, rgba }
}

/// A picture as the `image` crate holds it: of any colour type.
#[verifier::external_type_specification]
#[verifier::external_body]
pub struct ExDynamicImage(image::DynamicImage);

/// Why the `image` crate could not decode or encode a picture.
#[verifier::external_type_specification]
#[verifier::external_body]
pub struct ExImageError(image::ImageError);

/// The pixels of a picture of the `image` crate, converted to four bytes each, row by row.
pub uninterp spec fn image_rgba(picture: image::DynamicImage) -> Seq<u8>;

/// The width of a picture of the `image` crate.
pub uninterp spec fn image_width(picture: image::DynamicImage) -> u32;

/// The height of a picture of the `image` crate.
pub uninterp spec fn image_height(picture: image::DynamicImage) -> u32;

/// The bits of each channel of a picture of the `image` crate, as its colour type has them.
pub uninterp spec fn image_depth(picture: image::DynamicImage) -> u8;

/// The buffer of a picture of the `image` crate holds its pixels and nothing behind them.
pub uninterp spec fn image_is_packed(picture: image::DynamicImage) -> bool;

/// The picture that `image::load_from_memory` makes of a file's bytes: width, height, the
/// pixels in four bytes each, and the bits of each channel before they were so converted; none
/// where the bytes hold no picture that it can decode.
pub uninterp spec fn decoded(bytes: Seq<u8>) -> Option<(u32, u32, Seq<u8>, u8)>;

/// Calls `image::load_from_memory`, which guesses the format from the first bytes and decodes
/// the rest. Trusted: whether it succeeds, and the picture that it gives, depend on the bytes
/// alone (no decoding hook is registered in this program), and its buffer has exactly the size
/// that the picture needs.
#[verifier::external_body]
fn load_from_memory(bytes: &[u8]) -> (r: Result<image::DynamicImage, image::ImageError>)
    ensures
        r is Ok <==> decoded(bytes@) is Some,
        r matches Ok(picture) ==> decoded(bytes@) == Some(
            (
                image_width(picture),
                image_height(picture),
                image_rgba(picture),
                image_depth(picture),
            ),
        ),
        r matches Ok(picture) ==> image_is_packed(picture),
{
    image::load_from_memory(bytes)
}

/// Calls `image::DynamicImage::to_rgba8`, and takes the dimensions and the bytes out of the
/// buffer that it gives. Trusted: the picture has as many pixels as its dimensions say, four
/// bytes for each, and they are those of the picture that was given.
#[verifier::external_body]
fn to_rgba8(picture: &image::DynamicImage) -> (r: Picture)
    requires
        image_is_packed(*picture),
    ensures
        r.width == image_width(*picture),
        r.height == image_height(*picture),
        r.rgba@ == image_rgba(*picture),
        r.is_complete(),
{
    let rgba = picture.to_rgba8();
    let (width, height) = rgba.dimensions();
    Picture { width, height, rgba: rgba.into_raw() }
}

/// Calls `image::DynamicImage::resize_exact` with its Lanczos filter. Trusted: the result has
/// the dimensions that were asked for, the colour type of the picture that was given and a
/// buffer made for it; a picture that has the dimensions already keeps its pixels.
/// Of other pictures nothing is said of the pixels: the filter computes them with the machine's
/// floating-point sine.
#[verifier::external_body]
fn resize_exact(picture: &image::DynamicImage, width: u32, height: u32) -> (r:
    image::DynamicImage)
    requires
        0 < width <= 4096,
        0 < height <= 4096,
    ensures
        image_width(r) == width,
        image_height(r) == height,
        image_depth(r) == image_depth(*picture),
        image_is_packed(r),
        image_width(*picture) == width && image_height(*picture) == height ==> image_rgba(r)
            == image_rgba(*picture),
{
    picture.resize_exact(width, height, image::imageops::FilterType::Lanczos3)
}

/// Calls `image::DynamicImage::write_to` for the PNG format, into memory. Trusted: a picture of
/// 8 bits for each channel is always encoded, one of neither 8 nor 16 never, since the format
/// has no such colour type; and the file decodes to the same dimensions, pixels and depth, since
/// the format loses nothing. Left unsaid is whether a picture of 16 bits is encoded: for it the
/// encoder turns the bytes round in a second buffer, and fails where the memory for that is not
/// free.
#[verifier::external_body]
fn encode_png(picture: &image::DynamicImage) -> (r: Result<Vec<u8>, image::ImageError>)
    requires
        0 < image_width(*picture) <= 4096,
        0 < image_height(*picture) <= 4096,
        image_is_packed(*picture),
    ensures
        image_depth(*picture) == 8 ==> r is Ok,
        r is Ok ==> image_depth(*picture) == 8 || image_depth(*picture) == 16,
        r matches Ok(bytes) ==> decoded(bytes@) == Some(
            (
                image_width(*picture),
                image_height(*picture),
                image_rgba(*picture),
                image_depth(*picture),
            ),
        ),
{
    let mut file = std::io::Cursor::new(Vec::new());
    picture.write_to(&mut file, image::ImageFormat::Png)?;
    Ok(file.into_inner())
}

/// Decodes a picture file at its own size.
pub fn decode_picture(bytes: &[u8]) -> (r: Option<Picture>)
    ensures
        r is Some <==> decoded(bytes@) is Some,
        r matches Some(p) ==> (decoded(bytes@) matches Some(d) && p.width == d.0 && p.height == d.1
            && p.rgba@ == d.2),
        r matches Some(p) ==> p.is_complete(),
{
    match load_from_memory(bytes) {
        Ok(picture) => Some(to_rgba8(&picture)),
        Err(_) => None,
    }
}

/// Takes a decoded icon, or draws one where there is none.
pub fn icon_or_fallback(icon: Option<Picture>) -> (r: Picture)
    ensures
        icon matches Some(p) ==> r == p,
        icon is None ==> r.width == 32 && r.height == 32 && r.rgba@ == drawn_bytes(),
{
    match icon {
        Some(picture) => picture,
        None => fallback_icon(),
    }
}

/// `scaled` is a picture that decoding `bytes` and resizing to the size of the desktop's icons
/// gave.
spec fn is_scaled_from(bytes: &[u8], scaled: image::DynamicImage) -> bool {
    exists|picture: image::DynamicImage|
        call_ensures(
            load_from_memory,
            (bytes,),
            Ok::<image::DynamicImage, image::ImageError>(picture),
        ) && #[trigger] call_ensures(resize_exact, (&picture, ICON_SIDE, ICON_SIDE), scaled)
}

/// `r` is the resized picture itself, pixel by pixel as the filter computed it.
pub closed spec fn is_scaled_picture(bytes: &[u8], r: Picture) -> bool {
    exists|scaled: image::DynamicImage|
        is_scaled_from(bytes, scaled) && #[trigger] call_ensures(to_rgba8, (&scaled,), r)
}

/// `r` is the very file that encoding the resized picture gave, and none only where encoding it
/// failed.
pub closed spec fn is_scaled_file(bytes: &[u8], r: Option<Vec<u8>>) -> bool {
    exists|scaled: image::DynamicImage, file: Result<Vec<u8>, image::ImageError>|
        is_scaled_from(bytes, scaled) && #[trigger] call_ensures(encode_png, (&scaled,), file) && (
        match file {
            Ok(file) => r == Some(file),
            Err(_) => r is None,
        })
}

/// Makes the icon of the window and the task bar of a picture file: the picture at the size
/// that the desktop shows, or the drawn battery where the file cannot be decoded. A picture of
/// that size is taken as it is; what the pixels of another become rests on the machine.
pub fn app_icon(bytes: &[u8]) -> (r: Picture)
    ensures
        r.is_complete(),
        decoded(bytes@) matches Some(d) ==> r.width == ICON_SIDE && r.height == ICON_SIDE && (d.0
            == ICON_SIDE && d.1 == ICON_SIDE ==> r.rgba@ == d.2),
        decoded(bytes@) is Some ==> is_scaled_picture(bytes, r),
        decoded(bytes@) is None ==> r.width == 32 && r.height == 32 && r.rgba@ == drawn_bytes(),
{
    let icon = match load_from_memory(bytes) {
        Ok(picture) => Some(to_rgba8(&resize_exact(&picture, ICON_SIDE, ICON_SIDE))),
        Err(_) => None,
    };
    icon_or_fallback(icon)
}

/// Makes the icon file that the desktop shows of a picture file: one that decodes to a picture
/// of that size, with the depth of the picture that was given, and with its pixels where it has
/// that size already. There is none where the file cannot be decoded or the picture has neither
/// 8 nor 16 bits for each channel. A picture of 8 bits always gives a file; whether one of 16
/// does rests on the memory that is free.
pub fn desktop_icon(bytes: &[u8]) -> (r: Option<Vec<u8>>)
    ensures
        decoded(bytes@) is None ==> r is None,
        decoded(bytes@) matches Some(d) ==> (d.3 == 8 ==> r is Some) && (r is Some ==> d.3 == 8
            || d.3 == 16),
        r matches Some(file) ==> (decoded(bytes@) matches Some(d) && (decoded(file@) matches Some(e)
            && e.0 == ICON_SIDE && e.1 == ICON_SIDE && e.3 == d.3 && (d.0 == ICON_SIDE && d.1
            == ICON_SIDE ==> e.2 == d.2))),
        decoded(bytes@) is Some ==> is_scaled_file(bytes, r),
{
    match load_from_memory(bytes) {
        Ok(picture) => match encode_png(&resize_exact(&picture, ICON_SIDE, ICON_SIDE)) {
            Ok(file) => Some(file),
            Err(_) => None,
        },
        Err(_) => None,
    }
}

/// The drawn battery, pixel by pixel: a dark frame of one pixel from column 5 to 26 and from row
/// 7 to 25, a dark terminal in columns 27 and 28 from row 13 to 19, a green block inside from
/// column 9 to 22 and from row 11 to 22, and nothing anywhere else.
pub proof fn drawn_battery_pixels(x: int, y: int)
    requires
        0 <= x < 32,
        0 <= y < 32,
    ensures
        drawn_bytes().len() == 4096,
        ({
            let pixel = drawn_bytes().subrange(4 * (32 * y + x), 4 * (32 * y + x) + 4);
            let dark = seq![44u8, 62u8, 72u8, 255u8];
            &&& (y == 7 || y == 25) && 5 <= x <= 26 ==> pixel == dark
            &&& (x == 5 || x == 26) && 7 <= y <= 25 ==> pixel == dark
            &&& 5 < x < 26 && 7 < y < 25 ==> pixel == (if 9 <= x <= 22 && 11 <= y <= 22 {
                seq![55u8, 190u8, 125u8, 255u8]
            } else {
                seq![0u8, 0u8, 0u8, 0u8]
            })
            &&& (x == 27 || x == 28) && 13 <= y <= 19 ==> pixel == dark
            &&& x < 5 || y < 7 || y > 25 || x > 28 || (x > 26 && (y < 13 || y > 19)) ==> pixel
                == seq![0u8, 0u8, 0u8, 0u8]
        }),
{
    let at = 4 * (32 * y + x);
    let pixel = drawn_bytes().subrange(at, at + 4);
    assert forall|c: int| 0 <= c < 4 implies pixel[c] == drawn_pixel(x, y)[c] by {
        let i = at + c;
        assert(i / 4 == 32 * y + x);
        assert(i % 4 == c);
        assert((32 * y + x) % 32 == x);
        assert((32 * y + x) / 32 == y);
    }
    assert(pixel =~= drawn_pixel(x, y));
}

} // verus!
