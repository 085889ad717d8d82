//! Captured screenshots and the OCR languages to read them with.
use vstd::prelude::*;
use crate::chars::{
    ascii_lowercase, chars_eq_ignore_ascii_case, chars_of, eq_ignore_ascii_case, has_prefix, starts_with_chars,
    string_of, to_ascii_lowercase, trim_whitespace, trim_ws,
};
use crate::glossary::text_lines;
use crate::translation::{error_view, TranslationError};

verus! {

/// An OCR language installed on the system.
#[derive(Debug, Clone, PartialEq, Eq)]
pub struct OcrLanguage {
    pub tag: String,
    pub display_name: String,
    pub native_name: String,
}

pub open spec fn tags_view(v: Seq<OcrLanguage>) -> Seq<Seq<char>> {
    Seq::new(v.len(), |i: int| v[i].tag@)
}

/// The first tag from `i` on equal to `wanted` up to ASCII case.
pub open spec fn first_tag_equal(tags: Seq<Seq<char>>, wanted: Seq<char>, i: int) -> Option<Seq<char>>
    decreases tags.len() - i,
{
    if i < 0 || i >= tags.len() {
        None
    } else if eq_ignore_ascii_case(tags[i], wanted) {
        Some(tags[i])
    } else {
        first_tag_equal(tags, wanted, i + 1)
    }
}

/// The first tag from `i` on whose ASCII-lowered form begins with one of
/// the two prefixes.
pub open spec fn first_tag_prefixed(tags: Seq<Seq<char>>, a: Seq<char>, b: Seq<char>, i: int) -> Option<Seq<char>>
    decreases tags.len() - i,
{
    if i < 0 || i >= tags.len() {
        None
    } else if has_prefix(ascii_lowercase(tags[i]), a) || has_prefix(ascii_lowercase(tags[i]), b) {
        Some(tags[i])
    } else {
        first_tag_prefixed(tags, a, b, i + 1)
    }
}

pub open spec fn or_else(a: Option<Seq<char>>, b: Option<Seq<char>>) -> Option<Seq<char>> {
    if a is Some {
        a
    } else {
        b
    }
}

/// US English, else any English.
pub open spec fn spec_preferred_english(tags: Seq<Seq<char>>) -> Option<Seq<char>> {
    or_else(first_tag_equal(tags, "en-US"@, 0), first_tag_prefixed(tags, "en-"@, "en-"@, 0))
}

/// Simplified Chinese by exact tag (`zh-Hans-CN`, `zh-CN`, `zh-Hans`, in
/// that order of preference), else any simplified tag, else any Chinese.
pub open spec fn spec_preferred_chinese(tags: Seq<Seq<char>>) -> Option<Seq<char>> {
    or_else(
        first_tag_equal(tags, "zh-Hans-CN"@, 0),
        or_else(
            first_tag_equal(tags, "zh-CN"@, 0),
            or_else(
                first_tag_equal(tags, "zh-Hans"@, 0),
                or_else(first_tag_prefixed(tags, "zh-hans"@, "zh-cn"@, 0), first_tag_prefixed(tags, "zh-"@, "zh-"@, 0)),
            ),
        ),
    )
}

pub open spec fn opt_view(r: Option<String>) -> Option<Seq<char>> {
    match r {
        Some(s) => Some(s@),
        None => None,
    }
}

fn find_tag_equal(languages: &[OcrLanguage], wanted: &str) -> (r: Option<String>)
    ensures
        opt_view(r) == first_tag_equal(tags_view(languages@), wanted@, 0),
{
    let w = chars_of(wanted);
    let ghost tv = tags_view(languages@);
    let mut i: usize = 0;
    while i < languages.len()
        invariant
            tv == tags_view(languages@),
            w@ == wanted@,
            i <= languages@.len(),
            first_tag_equal(tv, wanted@, 0) == first_tag_equal(tv, wanted@, i as int),
        decreases languages.len() - i,
    {
        let tag = chars_of(languages[i].tag.as_str());
        if chars_eq_ignore_ascii_case(tag.as_slice(), w.as_slice()) {
            return Some(languages[i].tag.clone());
        }
        i = i + 1;
    }
    None
}

fn find_tag_prefixed(languages: &[OcrLanguage], a: &str, b: &str) -> (r: Option<String>)
    ensures
        opt_view(r) == first_tag_prefixed(tags_view(languages@), a@, b@, 0),
{
    let ac = chars_of(a);
    let bc = chars_of(b);
    let ghost tv = tags_view(languages@);
    let mut i: usize = 0;
    while i < languages.len()
        invariant
            tv == tags_view(languages@),
            ac@ == a@,
            bc@ == b@,
            i <= languages@.len(),
            first_tag_prefixed(tv, a@, b@, 0) == first_tag_prefixed(tv, a@, b@, i as int),
        decreases languages.len() - i,
    {
        let lower = to_ascii_lowercase(chars_of(languages[i].tag.as_str()).as_slice());
        if starts_with_chars(lower.as_slice(), ac.as_slice()) || starts_with_chars(lower.as_slice(), bc.as_slice()) {
            return Some(languages[i].tag.clone());
        }
        i = i + 1;
    }
    None
}

pub fn preferred_english_ocr_language(languages: &[OcrLanguage]) -> (r: Option<String>)
    ensures
        opt_view(r) == spec_preferred_english(tags_view(languages@)),
{
    let exact = find_tag_equal(languages, "en-US");
    if exact.is_some() {
        return exact;
    }
    find_tag_prefixed(languages, "en-", "en-")
}

pub fn preferred_chinese_ocr_language(languages: &[OcrLanguage]) -> (r: Option<String>)
    ensures
        opt_view(r) == spec_preferred_chinese(tags_view(languages@)),
{
    let a = find_tag_equal(languages, "zh-Hans-CN");
    if a.is_some() {
        return a;
    }
    let b = find_tag_equal(languages, "zh-CN");
    if b.is_some() {
        return b;
    }
    let c = find_tag_equal(languages, "zh-Hans");
    if c.is_some() {
        return c;
    }
    let d = find_tag_prefixed(languages, "zh-hans", "zh-cn");
    if d.is_some() {
        return d;
    }
    find_tag_prefixed(languages, "zh-", "zh-")
}

// ---------------------------------------------------------------------------
// OCR text

/// The trimmed non-empty lines of `lines[..k]`, joined by line feeds.
pub open spec fn joined_nonblank(lines: Seq<Seq<char>>, k: int) -> Seq<char>
    decreases k,
{
    if k <= 0 || k > lines.len() {
        Seq::empty()
    } else {
        let before = joined_nonblank(lines, k - 1);
        let line = trim_ws(lines[k - 1]);
        if line.len() == 0 {
            before
        } else if before.len() == 0 {
            line
        } else {
            before + seq!['\n'] + line
        }
    }
}

/// OCR text with every line trimmed and blank lines dropped.
pub open spec fn spec_normalize_ocr_text(value: Seq<char>) -> Seq<char> {
    joined_nonblank(text_lines(value), text_lines(value).len() as int)
}

pub fn normalize_ocr_text(value: &str) -> (r: String)
    ensures
        r@ == spec_normalize_ocr_text(value@),
{
    let cs = chars_of(value);
    let pieces = crate::chars::split_by_class(cs.as_slice(), crate::chars::CharClass::Newline);
    let ghost lines = text_lines(value@);
    proof {
        crate::chars::lemma_split_class_nonempty(cs@, crate::chars::CharClass::Newline);
    }
    let n: usize = if cs.len() == 0 {
        0
    } else if cs[cs.len() - 1] == '\n' {
        pieces.len() - 1
    } else {
        pieces.len()
    };
    assert(n == lines.len());
    let mut out: Vec<char> = Vec::new();
    let mut k: usize = 0;
    while k < n
        invariant
            k <= n,
            n == lines.len(),
            n <= pieces@.len(),
            lines == text_lines(value@),
            forall|j: int| 0 <= j < n ==> lines[j] == #[trigger] pieces@[j]@,
            out@ == joined_nonblank(lines, k as int),
        decreases n - k,
    {
        let line = trim_whitespace(pieces[k].as_slice());
        if line.len() > 0 {
            if out.len() > 0 {
                out.push('\n');
            }
            let ghost base = out@;
            let mut i: usize = 0;
            while i < line.len()
                invariant
                    i <= line@.len(),
                    out@ == base + line@.take(i as int),
                decreases line.len() - i,
            {
                out.push(line[i]);
                assert(base + line@.take(i + 1) =~= (base + line@.take(i as int)).push(line@[i as int]));
                i = i + 1;
            }
            assert(line@.take(line@.len() as int) =~= line@);
        }
        assert(out@ =~= joined_nonblank(lines, k + 1));
        k = k + 1;
    }
    string_of(out.as_slice())
}

// ---------------------------------------------------------------------------
// Pixels

/// BGRA pixels as RGBA: each whole group of four bytes reordered, a partial
/// group at the end dropped.
pub open spec fn spec_bgra_to_rgba(source: Seq<u8>) -> Seq<u8> {
    Seq::new(
        (source.len() / 4 * 4) as nat,
        |i: int| {
            let base = i - i % 4;
            let k = i % 4;
            if k == 0 {
                source[base + 2]
            } else if k == 1 {
                source[base + 1]
            } else if k == 2 {
                source[base]
            } else {
                source[base + 3]
            }
        },
    )
}

pub fn bgra_to_rgba(source: &[u8]) -> (r: Vec<u8>)
    ensures
        r@ == spec_bgra_to_rgba(source@),
{
    let n = source.len();
    let pixels = n / 4;
    let mut out: Vec<u8> = Vec::new();
    let mut p: usize = 0;
    while p < pixels
        invariant
            n == source@.len(),
            pixels == source@.len() / 4,
            p <= pixels,
            out@.len() == p * 4,
            forall|i: int| 0 <= i < p * 4 ==> #[trigger] out@[i] == spec_bgra_to_rgba(source@)[i],
        decreases pixels - p,
    {
        assert(p * 4 + 3 < n) by (nonlinear_arith)
            requires
                p < n / 4,
        ;
        let base = p * 4;
        out.push(source[base + 2]);
        out.push(source[base + 1]);
        out.push(source[base]);
        out.push(source[base + 3]);
        assert forall|i: int| 0 <= i < (p + 1) * 4 implies #[trigger] out@[i] == spec_bgra_to_rgba(source@)[i] by {
            if i >= p * 4 {
                assert(i - i % 4 == p * 4) by {
                    assert(p * 4 <= i < p * 4 + 4);
                }
            }
        }
        p = p + 1;
    }
    assert(out@ =~= spec_bgra_to_rgba(source@));
    out
}

// ---------------------------------------------------------------------------
// Screenshots

/// A screenshot: width, height and BGRA pixels row by row.
#[derive(Debug, Clone)]
pub struct CapturedImage {
    pub width: u32,
    pub height: u32,
    pub bgra: Vec<u8>,
}

/// The pixel buffer holds exactly `width * height` pixels.
pub open spec fn image_well_formed(image: CapturedImage) -> bool {
    image.bgra@.len() == image.width * image.height * 4
}

/// The rectangle at `(x, y)` of size `width x height` lies inside the image.
pub open spec fn rect_inside(image: CapturedImage, x: u32, y: u32, width: u32, height: u32) -> bool {
    x < image.width && y < image.height && x + width <= image.width && y + height <= image.height
}

proof fn lemma_crop_index(w: int, h: int, x: int, y: int, width: int, height: int, r: int, c: int)
    requires
        0 <= x,
        0 <= y,
        0 <= r < height,
        0 <= c < width * 4,
        x + width <= w,
        y + height <= h,
    ensures
        0 <= r * (width * 4) + c < width * height * 4,
        0 <= (y + r) * (w * 4) + x * 4 + c < w * h * 4,
        width * height * 4 <= w * h * 4,
{
    assert(0 <= r * (width * 4) + c < width * height * 4) by (nonlinear_arith)
        requires
            0 <= r < height,
            0 <= c < width * 4,
    ;
    assert((y + r) * (w * 4) + x * 4 + c < w * h * 4) by (nonlinear_arith)
        requires
            0 <= x,
            0 <= y,
            0 <= r < height,
            0 <= c < width * 4,
            x + width <= w,
            y + height <= h,
    ;
    assert(0 <= (y + r) * (w * 4) + x * 4 + c) by (nonlinear_arith)
        requires
            0 <= x,
            0 <= y,
            0 <= r,
            0 <= c,
            0 <= w,
    ;
    assert(width * height * 4 <= w * h * 4) by (nonlinear_arith)
        requires
            0 <= x,
            0 <= y,
            x + width <= w,
            y + height <= h,
            0 <= width,
            0 <= height,
    ;
}

impl CapturedImage {
    /// The part of the image inside a pixel rectangle; a rectangle that does
    /// not fit is an invalid region.
    pub fn crop_pixels(&self, x: u32, y: u32, width: u32, height: u32) -> (r: Result<CapturedImage, TranslationError>)
        requires
            image_well_formed(*self),
            x + width <= u32::MAX,
            y + height <= u32::MAX,
        ensures
            !rect_inside(*self, x, y, width, height) ==> r is Err && error_view(r->Err_0) == error_view(
                TranslationError::InvalidRegion,
            ),
            rect_inside(*self, x, y, width, height) ==> r is Ok && {
                let c = r->Ok_0;
                &&& c.width == width
                &&& c.height == height
                &&& image_well_formed(c)
                &&& forall|row: int, col: int|
                    0 <= row < height && 0 <= col < width * 4 ==> #[trigger] c.bgra@[row * (width * 4) + col]
                        == self.bgra@[(y + row) * (self.width * 4) + x * 4 + col]
            },
    {
        if x >= self.width || y >= self.height || x + width > self.width || y + height > self.height {
            return Err(TranslationError::InvalidRegion);
        }
        proof {
            if height > 0 && width > 0 {
                lemma_crop_index(self.width as int, self.height as int, x as int, y as int, width as int, height as int, 0, 0);
            }
            assert(width * height * 4 <= self.width * self.height * 4) by (nonlinear_arith)
                requires
                    x + width <= self.width,
                    y + height <= self.height,
            ;
        }
        let n = self.bgra.len();
        proof {
            assert(self.width * 4 <= self.width * self.height * 4) by (nonlinear_arith)
                requires
                    self.height >= 1,
            ;
        }
        let source_stride = (self.width as usize) * 4;
        let stride = (width as usize) * 4;
        let mut out: Vec<u8> = Vec::new();
        let mut row: usize = 0;
        while row < height as usize
            invariant
                n == self.bgra@.len(),
                image_well_formed(*self),
                x + width <= self.width,
                y + height <= self.height,
                source_stride == self.width * 4,
                stride == width * 4,
                width * height * 4 <= self.width * self.height * 4,
                row <= height,
                out@.len() == row * stride,
                forall|r: int, c: int|
                    0 <= r < row && 0 <= c < stride ==> #[trigger] out@[r * stride + c] == self.bgra@[(y + r)
                        * source_stride + x * 4 + c],
            decreases height - row,
        {
            let mut col: usize = 0;
            let ghost start = out@;
            proof {
                assert(row * stride + stride <= width * height * 4) by (nonlinear_arith)
                    requires
                        row < height,
                        stride == width * 4,
                ;
            }
            while col < stride
                invariant
                    n == self.bgra@.len(),
                    image_well_formed(*self),
                    x + width <= self.width,
                    y + height <= self.height,
                    source_stride == self.width * 4,
                    stride == width * 4,
                    width * height * 4 <= self.width * self.height * 4,
                    row < height,
                    row * stride + stride <= width * height * 4,
                    col <= stride,
                    out@.len() == row * stride + col,
                    start.len() == row * stride,
                    forall|i: int| 0 <= i < row * stride ==> #[trigger] out@[i] == start[i],
                    forall|c: int| 0 <= c < col ==> #[trigger] out@[row * stride + c] == self.bgra@[(y + row)
                        * source_stride + x * 4 + c],
                decreases stride - col,
            {
                proof {
                    lemma_crop_index(self.width as int, self.height as int, x as int, y as int, width as int, height as int, row as int, col as int);
                }
                let index = (y as usize + row) * source_stride + (x as usize) * 4 + col;
                out.push(self.bgra[index]);
                col = col + 1;
            }
            proof {
                assert forall|r: int, c: int|
                    0 <= r < row + 1 && 0 <= c < stride implies #[trigger] out@[r * stride + c] == self.bgra@[(y + r)
                        * source_stride + x * 4 + c] by {
                    if r < row {
                        assert(r * stride + c < row * stride) by (nonlinear_arith)
                            requires
                                r < row,
                                0 <= c < stride,
                        ;
                        assert(out@[r * stride + c] == start[r * stride + c]);
                    }
                }
                assert((row + 1) * stride == row * stride + stride) by (nonlinear_arith);
            }
            row = row + 1;
        }
        proof {
            assert(height * stride == width * height * 4) by (nonlinear_arith)
                requires
                    stride == width * 4,
            ;
        }
        Ok(CapturedImage { width, height, bgra: out })
    }
}

// ---------------------------------------------------------------------------
// Calibration preview

/// A PNG preview of a capture, as a data URL, with its size.
#[derive(Debug, Clone, PartialEq, Eq)]
pub struct CalibrationPreview {
    pub data_url: String,
    pub width: u32,
    pub height: u32,
}

/// What the `image` crate's PNG encoder produces for an RGBA image of that
/// size: the file bytes, or its error message.
pub uninterp spec fn png_encoding(width: u32, height: u32, rgba: Seq<u8>) -> Result<Seq<u8>, Seq<char>>;

pub open spec fn bytes_result_view(r: Result<Vec<u8>, String>) -> Result<Seq<u8>, Seq<char>> {
    match r {
        Ok(b) => Ok(b@),
        Err(m) => Err(m@),
    }
}

/// `image::ImageBuffer::from_raw` followed by writing the image as PNG
/// (`DynamicImage::write_to`). The PNG encoder asserts that the buffer holds
/// exactly `4 * width * height` bytes, so that is required; `from_raw`
/// accepts such a buffer. The encoding is named.
#[verifier::external_body]
fn encode_png(width: u32, height: u32, rgba: Vec<u8>) -> (r: Result<Vec<u8>, String>)
    requires
        rgba@.len() == 4 * width * height,
    ensures
        bytes_result_view(r) == png_encoding(width, height, rgba@),
{
    let image = match image::ImageBuffer::<image::Rgba<u8>, Vec<u8>>::from_raw(width, height, rgba) {
        Some(image) => image,
        None => return Err(String::new()),
    };
    let mut encoded = std::io::Cursor::new(Vec::new());
    let written = image::DynamicImage::ImageRgba8(image).write_to(&mut encoded, image::ImageFormat::Png);
    written.map(|_| encoded.into_inner()).map_err(|error| error.to_string())
}

/// The character of a 6-bit value in the standard base64 alphabet.
pub open spec fn base64_char(v: int) -> char {
    if v < 26 {
        (65 + v) as char
    } else if v < 52 {
        (97 + v - 26) as char
    } else if v < 62 {
        (48 + v - 52) as char
    } else if v == 62 {
        '+'
    } else {
        '/'
    }
}

/// Standard base64 with padding (RFC 4648): every three bytes become four
/// characters of six bits each, and a last group of one or two bytes is
/// padded with `=`.
pub open spec fn base64_standard(bytes: Seq<u8>) -> Seq<char>
    decreases bytes.len(),
{
    if bytes.len() == 0 {
        Seq::empty()
    } else if bytes.len() == 1 {
        let b0 = bytes[0] as int;
        seq![base64_char(b0 / 4), base64_char((b0 % 4) * 16), '=', '=']
    } else if bytes.len() == 2 {
        let b0 = bytes[0] as int;
        let b1 = bytes[1] as int;
        seq![base64_char(b0 / 4), base64_char((b0 % 4) * 16 + b1 / 16), base64_char((b1 % 16) * 4), '=']
    } else {
        let n = (bytes[0] as int) * 65536 + (bytes[1] as int) * 256 + bytes[2] as int;
        seq![base64_char(n / 262144), base64_char((n / 4096) % 64), base64_char((n / 64) % 64), base64_char(n % 64)]
            + base64_standard(bytes.skip(3))
    }
}

/// `base64::engine::general_purpose::STANDARD.encode`: standard base64
/// with padding. It panics only when the encoded length overflows `usize`,
/// which the bound excludes.
#[verifier::external_body]
fn encode_base64(bytes: &[u8]) -> (r: String)
    requires
        bytes@.len() <= usize::MAX / 2,
    ensures
        r@ == base64_standard(bytes@),
{
    base64::Engine::encode(&base64::engine::general_purpose::STANDARD, bytes)
}

pub open spec fn preview_error() -> Seq<char> {
    "截图像素数据无效"@
}

impl CapturedImage {
    /// The capture as a PNG data URL for the calibration view.
    pub fn calibration_preview(&self) -> (r: Result<CalibrationPreview, TranslationError>)
        ensures
            ({
                let rgba = spec_bgra_to_rgba(self.bgra@);
                if rgba.len() != 4 * self.width * self.height {
                    r is Err && error_view(r->Err_0) == (6int, preview_error())
                } else {
                    match png_encoding(self.width, self.height, rgba) {
                        Err(m) => r is Err && error_view(r->Err_0) == (6int, m),
                        Ok(png) => if png.len() > usize::MAX / 2 {
                            r is Err && error_view(r->Err_0) == (6int, preview_error())
                        } else {
                            r is Ok && r->Ok_0.data_url@ == "data:image/png;base64,"@ + base64_standard(png)
                                && r->Ok_0.width == self.width && r->Ok_0.height == self.height
                        },
                    }
                }
            }),
    {
        let rgba = bgra_to_rgba(self.bgra.as_slice());
        let w = self.width as u128;
        let h = self.height as u128;
        assert(w * h <= 0xffff_ffff_ffff_ffff_u128) by (nonlinear_arith)
            requires
                w <= 0xffff_ffff,
                h <= 0xffff_ffff,
        ;
        let expected: u128 = w * h * 4;
        assert(expected == 4 * self.width * self.height) by (nonlinear_arith)
            requires
                expected == w * h * 4,
                w == self.width,
                h == self.height,
        ;
        if rgba.len() as u128 != expected {
            return Err(TranslationError::Response(string_of(chars_of("截图像素数据无效").as_slice())));
        }
        match encode_png(self.width, self.height, rgba) {
            Err(message) => Err(TranslationError::Response(message)),
            Ok(png) => {
                if png.len() > usize::MAX / 2 {
                    return Err(TranslationError::Response(string_of(chars_of("截图像素数据无效").as_slice())));
                }
                let encoded = encode_base64(png.as_slice());
                let data_url = crate::ipc::concat2("data:image/png;base64,", encoded.as_str());
                Ok(CalibrationPreview { data_url, width: self.width, height: self.height })
            },
        }
    }
}

} // verus!
