//! QR code images for quick transfers, and their PNG data URLs.
use vstd::prelude::*;
use vstd::string::*;
use crate::encoding::{base64_encode, encode_standard, lemma_base64_encode_len};

verus! {

/// Modules of light border around a QR code, on each side.
pub const QUIET_ZONE: usize = 4;

/// Whether the pixel at column `x` and row `y` of a `size` by `size` image
/// of the QR code of `width` by `width` modules (row by row in `modules`,
/// `true` for dark) is dark: the code and its quiet zone are stretched over
/// the image, and the pixel takes the module it falls on.
pub open spec fn module_dark(width: int, modules: Seq<bool>, size: int, x: int, y: int) -> bool {
    let span = width + 2 * QUIET_ZONE;
    let mx = x * span / size - QUIET_ZONE;
    let my = y * span / size - QUIET_ZONE;
    0 <= mx < width && 0 <= my < width && modules[my * width + mx]
}

/// Channel `c` (red, green, blue, alpha) of a dark or light pixel: black or
/// white, opaque.
pub open spec fn module_channel(dark: bool, c: int) -> u8 {
    if c == 3 {
        255
    } else if dark {
        0
    } else {
        255
    }
}

/// The RGBA bytes of the `size` by `size` image of a QR code of `width` by
/// `width` modules.
pub open spec fn qr_pixels(width: int, modules: Seq<bool>, size: int) -> Seq<u8> {
    Seq::new(
        (4 * size * size) as nat,
        |i: int| module_channel(module_dark(width, modules, size, (i / 4) % size, (i / 4) / size), i % 4),
    )
}

/// Position in the RGBA buffer of channel `c` of the pixel at `(x, y)` in
/// an image `width` pixels wide.
pub open spec fn channel_index(width: int, x: int, y: int, c: int) -> int {
    4 * (y * width + x) + c
}

/// An RGBA image with 8 bits per channel, row by row.
#[derive(Debug)]
pub struct QrImage {
    width: u32,
    height: u32,
    pixels: Vec<u8>,
}

impl View for QrImage {
    /// Width, height and the RGBA bytes.
    type V = (int, int, Seq<u8>);

    closed spec fn view(&self) -> (int, int, Seq<u8>) {
        (self.width as int, self.height as int, self.pixels@)
    }
}

/// Why an image could not be made or encoded.
#[derive(Debug)]
pub struct ImageFailure {
    pub message: String,
}

/// The PNG file that `image` writes for an RGBA image of this width and
/// height with these channel bytes, or `None` where it writes none.
pub uninterp spec fn png_rgba_encoding(width: u32, height: u32, pixels: Seq<u8>) -> Option<Seq<u8>>;

/// The error type of the `image` crate.
#[verifier::external_type_specification]
#[verifier::external_body]
pub struct ExImageError(image::ImageError);

/// `ImageBuffer::<Rgba<u8>, _>::from_raw` on the channel bytes (which
/// succeeds where the buffer holds every pixel, as `requires` asks), wrapped
/// in `DynamicImage::ImageRgba8` and written with `write_to` in PNG format
/// into memory: succeeds exactly where `png_rgba_encoding` names a file, and
/// gives it. The `png` encoder refuses an image of no width or no height;
/// writing into memory fails in no other way for 8-bit RGBA. A PNG file
/// starts with an 8-byte signature, and a `Vec` holds at most `isize::MAX`
/// bytes.
#[verifier::external_body]
fn encode_png_rgba(width: u32, height: u32, pixels: &[u8]) -> (r: Result<Vec<u8>, image::ImageError>)
    requires
        pixels@.len() == 4 * width * height,
    ensures
        r is Ok <==> png_rgba_encoding(width, height, pixels@) is Some,
        r is Ok <==> (width > 0 && height > 0),
        r matches Ok(b) ==> png_rgba_encoding(width, height, pixels@) == Some(b@),
        r matches Ok(b) ==> 8 <= b@.len() <= isize::MAX,
{
    let buffer = image::ImageBuffer::<image::Rgba<u8>, Vec<u8>>::from_raw(width, height, pixels.to_vec()).unwrap();
    let mut out: Vec<u8> = Vec::new();
    image::DynamicImage::ImageRgba8(buffer).write_to(&mut std::io::Cursor::new(&mut out), image::ImageFormat::Png)?;
    Ok(out)
}

/// `ToString::to_string` on an image error: some description of it.
#[verifier::external_body]
fn image_error_text(e: &image::ImageError) -> (r: String) {
    e.to_string()
}

impl QrImage {
    #[verifier::type_invariant]
    spec fn inv(self) -> bool {
        self.pixels@.len() == 4 * self.width * self.height
    }

    /// Every image holds four bytes for each of its pixels.
    pub fn channel_count(&self) -> (r: usize)
        ensures
            r == self@.2.len(),
            r == 4 * self@.0 * self@.1,
    {
        proof {
            use_type_invariant(self);
        }
        self.pixels.len()
    }

    /// Width in pixels.
    pub fn width(&self) -> (r: u32)
        ensures
            r == self@.0,
    {
        self.width
    }

    /// Height in pixels.
    pub fn height(&self) -> (r: u32)
        ensures
            r == self@.1,
    {
        self.height
    }

    /// The RGBA bytes, row by row.
    pub fn pixels(&self) -> (r: Vec<u8>)
        ensures
            r@ == self@.2,
    {
        self.pixels.clone()
    }
}

/// The modules of the QR code that `qrcode` makes of the bytes of `data`
/// (at error correction level M, in the smallest version that holds them):
/// its width and its modules row by row, `true` for dark; `None` where the
/// data does not fit in a QR code.
pub uninterp spec fn qr_code_modules(data: Seq<char>) -> Option<(usize, Seq<bool>)>;

/// The error type of the `qrcode` crate.
#[verifier::external_type_specification]
#[verifier::external_body]
pub struct ExQrError(qrcode::types::QrError);

/// `qrcode::QrCode::new` on the bytes of `data`, then `width` and
/// `to_colors`, each color turned into `true` for dark by `Color::select`:
/// succeeds exactly where `qr_code_modules` names a code, and gives it. A
/// code of the normal versions that `QrCode::new` picks from (1 to 40) is
/// 21 to 177 modules wide, and holds a color for each of its `width * width`
/// modules. Which data is too long is not stated.
#[verifier::external_body]
fn encode_qr_modules(data: &str) -> (r: Result<(usize, Vec<bool>), qrcode::types::QrError>)
    ensures
        r is Ok <==> qr_code_modules(data@) is Some,
        r matches Ok((w, m)) ==> qr_code_modules(data@) == Some((w, m@)),
        r matches Ok((w, m)) ==> 21 <= w <= 177 && m@.len() == w * w,
{
    let code = qrcode::QrCode::new(data.as_bytes())?;
    let modules: Vec<bool> = code.to_colors().into_iter().map(|c| c.select(true, false)).collect();
    Ok((code.width(), modules))
}

/// `ToString::to_string` on a `qrcode` error: some description of it.
#[verifier::external_body]
fn qr_error_text(e: &qrcode::types::QrError) -> (r: String) {
    e.to_string()
}

/// The `size` by `size` image of the QR code of `width` by `width`
/// `modules` (row by row, `true` for dark) with its quiet zone, stretched
/// over the image: black where a pixel falls on a dark module, white
/// elsewhere.
pub fn render_qr_modules(width: usize, modules: &[bool], size: u32) -> (img: QrImage)
    requires
        modules@.len() == width * width,
        4 * size * size <= usize::MAX,
    ensures
        img@ == (size as int, size as int, qr_pixels(width as int, modules@, size as int)),
{
    let ghost n = size as int;
    let ghost w = width as int;
    let count: usize = modules.len();
    assert(size < 0x8000_0000) by (nonlinear_arith)
        requires
            4 * size * size <= usize::MAX,
            usize::MAX <= 0xffff_ffff_ffff_ffff,
    ;
    assert(width < 0x1_0000_0000) by (nonlinear_arith)
        requires
            width * width == count,
            count <= usize::MAX,
            usize::MAX <= 0xffff_ffff_ffff_ffff,
    ;
    let span: u128 = width as u128 + 8;
    let mut pixels: Vec<u8> = Vec::new();
    let mut y: u32 = 0;
    while y < size
        invariant
            n == size as int,
            w == width as int,
            span == w + 2 * QUIET_ZONE,
            modules@.len() == w * w,
            count == w * w,
            size < 0x8000_0000,
            width < 0x1_0000_0000,
            y <= size,
            pixels@.len() == 4 * (y * n),
            forall|xx: int, yy: int, c: int|
                0 <= xx < n && 0 <= yy < y && 0 <= c < 4 ==> #[trigger] pixels@[channel_index(n, xx, yy, c)]
                    == module_channel(module_dark(w, modules@, n, xx, yy), c),
        decreases size - y,
    {
        assert((y as u128) * span <= 0x8000_0000u128 * 0x1_0000_0008u128) by (nonlinear_arith)
            requires y < 0x8000_0000, span <= 0x1_0000_0008u128;
        let row_span: u128 = (y as u128) * span / (size as u128);
        let row_in: bool = 4 <= row_span && row_span < 4 + width as u128;
        let mut x: u32 = 0;
        while x < size
            invariant
                n == size as int,
                w == width as int,
                span == w + 2 * QUIET_ZONE,
                modules@.len() == w * w,
                count == w * w,
                size < 0x8000_0000,
                width < 0x1_0000_0000,
                y < size,
                x <= size,
                row_span == y * span / n,
                row_in == (QUIET_ZONE <= row_span < QUIET_ZONE + w),
                pixels@.len() == 4 * (y * n + x),
                forall|xx: int, yy: int, c: int|
                    0 <= xx < n && 0 <= yy && 0 <= c < 4 && (yy < y || (yy == y && xx < x))
                        ==> #[trigger] pixels@[channel_index(n, xx, yy, c)]
                        == module_channel(module_dark(w, modules@, n, xx, yy), c),
            decreases size - x,
        {
            assert((x as u128) * span <= 0x8000_0000u128 * 0x1_0000_0008u128) by (nonlinear_arith)
                requires x < 0x8000_0000, span <= 0x1_0000_0008u128;
            let col_span: u128 = (x as u128) * span / (size as u128);
            let dark: bool = if row_in && 4 <= col_span && col_span < 4 + width as u128 {
                let row: usize = (row_span - 4) as usize;
                let col: usize = (col_span - 4) as usize;
                assert(row * width + col < count) by (nonlinear_arith)
                    requires row < width, col < width, count == width * width;
                modules[row * width + col]
            } else {
                false
            };
            assert(dark == module_dark(w, modules@, n, x as int, y as int));
            let v: u8 = if dark { 0 } else { 255 };
            let ghost before = pixels@;
            pixels.push(v);
            pixels.push(v);
            pixels.push(v);
            pixels.push(255);
            proof {
                assert forall|xx: int, yy: int, c: int|
                    0 <= xx < n && 0 <= yy && 0 <= c < 4 && (yy < y || (yy == y && xx < x + 1))
                        implies #[trigger] pixels@[channel_index(n, xx, yy, c)]
                        == module_channel(module_dark(w, modules@, n, xx, yy), c) by {
                    lemma_row_major(n, xx, yy, x as int, y as int);
                    if yy < y || (yy == y && xx < x) {
                        assert(pixels@[channel_index(n, xx, yy, c)] == before[channel_index(n, xx, yy, c)]);
                    }
                }
            }
            x = x + 1;
        }
        proof {
            assert((y + 1) * n == y * n + n) by (nonlinear_arith);
        }
        y = y + 1;
    }
    proof {
        assert(4 * size * size == 4 * (n * n)) by (nonlinear_arith)
            requires n == size as int;
        let target = qr_pixels(w, modules@, n);
        assert forall|i: int| 0 <= i < pixels@.len() implies pixels@[i] == target[i] by {
            lemma_pixel_position(n, i);
            let xx = (i / 4) % n;
            let yy = (i / 4) / n;
            assert(pixels@[channel_index(n, xx, yy, i % 4)] == module_channel(
                module_dark(w, modules@, n, xx, yy),
                i % 4,
            ));
        }
        assert(pixels@ =~= target);
    }
    QrImage { width: size, height: size, pixels }
}

/// Channel `i % 4` of pixel `i / 4` of a `n` by `n` image: the pixel's
/// column and row, and its place in the buffer.
proof fn lemma_pixel_position(n: int, i: int)
    requires
        n > 0,
        0 <= i < 4 * (n * n),
    ensures
        0 <= (i / 4) % n < n,
        0 <= (i / 4) / n < n,
        0 <= i % 4 < 4,
        channel_index(n, (i / 4) % n, (i / 4) / n, i % 4) == i,
{
    let k = i / 4;
    vstd::arithmetic::div_mod::lemma_fundamental_div_mod(i, 4);
    vstd::arithmetic::div_mod::lemma_fundamental_div_mod(k, n);
    assert(0 <= k < n * n);
    assert(k / n < n) by (nonlinear_arith)
        requires 0 <= k < n * n, n > 0, k == n * (k / n) + k % n, 0 <= k % n < n;
    assert(0 <= k / n) by (nonlinear_arith)
        requires 0 <= k, n > 0;
    assert(k / n * n + k % n == k) by (nonlinear_arith)
        requires k == n * (k / n) + k % n;
}

/// The column (or row) of the first pixel that the module in column (or
/// row) `k` of a code `width` modules wide covers, in an image `size` pixels
/// wide: the cells of the code and its four-module quiet zone share the
/// image evenly, so its cell starts at `(k + 4) * size / (width + 8)`,
/// rounded up.
pub open spec fn module_first_pixel(k: int, width: int, size: int) -> int {
    ((k + 4) * size + (width + 8) - 1) / (width + 8)
}

/// Every module of the code shows in the image, wherever the image has a
/// pixel for each module of the code and its quiet zone: the first pixel of
/// each module's cell lies in the image and is black for a dark module and
/// white for a light one, opaque.
pub proof fn law_every_module_shown(width: int, modules: Seq<bool>, size: int, mx: int, my: int)
    requires
        0 <= mx < width,
        0 <= my < width,
        modules.len() == width * width,
        width + 8 <= size,
    ensures
        0 <= module_first_pixel(mx, width, size) < size,
        0 <= module_first_pixel(my, width, size) < size,
        qr_pixels(width, modules, size)[4 * (module_first_pixel(my, width, size) * size
            + module_first_pixel(mx, width, size))] == (if modules[my * width + mx] {
            0u8
        } else {
            255u8
        }),
        qr_pixels(width, modules, size)[4 * (module_first_pixel(my, width, size) * size
            + module_first_pixel(mx, width, size)) + 3] == 255u8,
{
    let x = module_first_pixel(mx, width, size);
    let y = module_first_pixel(my, width, size);
    lemma_cell_start(mx + 4, width + 8, size);
    lemma_cell_start(my + 4, width + 8, size);
    let k = y * size + x;
    assert(0 <= k < size * size) by (nonlinear_arith)
        requires 0 <= x < size, 0 <= y < size, k == y * size + x;
    assert(4 * k + 3 < 4 * size * size) by (nonlinear_arith)
        requires k < size * size;
    vstd::arithmetic::div_mod::lemma_fundamental_div_mod_converse(4 * k, 4, k, 0);
    vstd::arithmetic::div_mod::lemma_fundamental_div_mod_converse(4 * k + 3, 4, k, 3);
    vstd::arithmetic::div_mod::lemma_fundamental_div_mod_converse(k, size, y, x);
    assert(my * width + mx < width * width) by (nonlinear_arith)
        requires 0 <= mx < width, 0 <= my < width;
    assert(0 <= my * width) by (nonlinear_arith)
        requires 0 <= my, 0 <= width;
    assert(module_dark(width, modules, size, x, y) == modules[my * width + mx]);
}

/// The first pixel of cell `k` of `span` equal cells over `size` pixels
/// (at least one pixel each) lies in the image, and falls in that cell.
proof fn lemma_cell_start(k: int, span: int, size: int)
    requires
        0 <= k < span,
        span <= size,
    ensures
        0 <= (k * size + span - 1) / span < size,
        (k * size + span - 1) / span * span / size == k,
{
    let n = k * size + span - 1;
    let x = n / span;
    vstd::arithmetic::div_mod::lemma_fundamental_div_mod(n, span);
    vstd::arithmetic::div_mod::lemma_mod_pos_bound(n, span);
    assert(0 <= k * size) by (nonlinear_arith)
        requires 0 <= k, 0 <= size;
    assert(x * span == span * x) by (nonlinear_arith);
    assert(k * size <= x * span < k * size + size);
    assert((k + 1) * size == k * size + size) by (nonlinear_arith);
    assert((k + 1) * size <= span * size) by (nonlinear_arith)
        requires k + 1 <= span, 0 <= size;
    assert(0 <= x < size) by (nonlinear_arith)
        requires x * span < (k + 1) * size, (k + 1) * size <= span * size, 0 <= k * size <= x * span, span > 0;
    vstd::arithmetic::div_mod::lemma_fundamental_div_mod_converse(x * span, size, k, x * span - k * size);
}

/// The `size` by `size` image of the QR code of `data`, black modules on
/// white with a quiet zone of four modules; fails where `qrcode` cannot
/// encode the data.
pub fn generate_qr_code(data: &str, size: u32) -> (r: Result<QrImage, ImageFailure>)
    requires
        4 * size * size <= usize::MAX,
    ensures
        r is Ok <==> qr_code_modules(data@) is Some,
        r matches Ok(img) ==> img@ == (
            size as int,
            size as int,
            qr_pixels(qr_code_modules(data@)->Some_0.0 as int, qr_code_modules(data@)->Some_0.1, size as int),
        ),
        r matches Err(e) ==> "Failed to generate QR code: "@.is_prefix_of(e.message@),
{
    match encode_qr_modules(data) {
        Ok((width, modules)) => Ok(render_qr_modules(width, modules.as_slice(), size)),
        Err(e) => {
            let mut message = "Failed to generate QR code: ".to_owned();
            let text = qr_error_text(&e);
            message.append(text.as_str());
            proof {
                reveal_strlit("Failed to generate QR code: ");
            }
            Err(ImageFailure { message })
        },
    }
}

/// Pixels come row by row: the channels of `(xx, yy)` lie before those of
/// `(x, y)` exactly where `(xx, yy)` comes first in row-major order.
proof fn lemma_row_major(n: int, xx: int, yy: int, x: int, y: int)
    requires
        0 <= xx < n,
        0 <= x <= n,
        0 <= yy,
        0 <= y,
    ensures
        (yy * n + xx < y * n + x) <==> (yy < y || (yy == y && xx < x)),
        (yy < y || (yy == y && xx < x)) ==> 0 <= channel_index(n, xx, yy, 3) < 4 * (y * n + x),
{
    if yy < y {
        assert(yy * n + n <= y * n) by (nonlinear_arith)
            requires yy < y, 0 <= n;
    } else if yy > y {
        assert(y * n + n <= yy * n) by (nonlinear_arith)
            requires yy > y, 0 <= n;
    }
    assert(0 <= yy * n) by (nonlinear_arith)
        requires 0 <= yy, 0 <= n;
}

/// Text that starts every PNG data URL.
pub open spec fn data_url_prefix() -> Seq<char> {
    "data:image/png;base64,"@
}

/// The image as a `data:` URL: its PNG file in standard base64, after
/// `data:image/png;base64,`. Fails exactly on an image without pixels.
pub fn image_to_data_url(img: &QrImage) -> (r: Result<String, ImageFailure>)
    ensures
        r is Ok <==> png_rgba_encoding(img@.0 as u32, img@.1 as u32, img@.2) is Some,
        r is Ok <==> (img@.0 > 0 && img@.1 > 0),
        r matches Ok(url) ==> url@ == data_url_prefix() + base64_encode(
            png_rgba_encoding(img@.0 as u32, img@.1 as u32, img@.2)->Some_0,
            false,
            true,
        ),
        r matches Ok(url) ==> url@.len() > data_url_prefix().len(),
        r matches Err(e) ==> "Failed to encode image: "@.is_prefix_of(e.message@),
{
    proof {
        use_type_invariant(img);
    }
    match encode_png_rgba(img.width, img.height, img.pixels.as_slice()) {
        Ok(png) => {
            proof {
                lemma_base64_encode_len(png@, false, true);
            }
            let encoded = encode_standard(png.as_slice());
            let mut url = "data:image/png;base64,".to_owned();
            url.append(encoded.as_str());
            proof {
                reveal_strlit("data:image/png;base64,");
            }
            Ok(url)
        },
        Err(e) => {
            let mut message = "Failed to encode image: ".to_owned();
            let text = image_error_text(&e);
            message.append(text.as_str());
            Err(ImageFailure { message })
        },
    }
}

} // verus!
