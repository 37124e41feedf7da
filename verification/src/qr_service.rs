use vstd::prelude::*;
use crate::models::{QRRequest, plan_customizes};
use crate::models::plan_allows_custom;

verus! {

/// Rendering failures. `Unencodable` means the payload exceeds what the code
/// matrix can carry; `EncodeFailed` means the raster could not be written out
/// as PNG.
#[derive(Debug, PartialEq, Eq, Structural, Clone, Copy)]
pub enum RenderError {
    Unencodable,
    EncodeFailed,
}

/// An opaque RGB color, parsed from a hex triplet.
#[derive(Debug, PartialEq, Eq, Structural, Clone, Copy)]
pub struct Color {
    pub r: u8,
    pub g: u8,
    pub b: u8,
}

/// Whether `c` is an ASCII hex digit.
pub open spec fn is_hex_digit(c: char) -> bool {
    ('0' <= c && c <= '9') || ('a' <= c && c <= 'f') || ('A' <= c && c <= 'F')
}

/// The value of the hex digit `c`.
pub open spec fn hex_val(c: char) -> int {
    if '0' <= c && c <= '9' {
        c as int - '0' as int
    } else if 'a' <= c && c <= 'f' {
        10 + c as int - 'a' as int
    } else {
        10 + c as int - 'A' as int
    }
}

/// The color string with one optional leading `#` stripped.
pub open spec fn spec_hex_body(s: Seq<char>) -> Seq<char> {
    if s.len() >= 1 && s[0] == '#' {
        s.skip(1)
    } else {
        s
    }
}

/// What a requested color string means: exactly six hex digits (after the
/// optional `#`) name an RGB color; anything else falls back to opaque black
/// rather than failing the request.
pub open spec fn spec_parse_hex_color(s: Seq<char>) -> Color {
    let b = spec_hex_body(s);
    if b.len() == 6 && (forall|k: int| 0 <= k < 6 ==> is_hex_digit(#[trigger] b[k])) {
        Color {
            r: (16 * hex_val(b[0]) + hex_val(b[1])) as u8,
            g: (16 * hex_val(b[2]) + hex_val(b[3])) as u8,
            b: (16 * hex_val(b[4]) + hex_val(b[5])) as u8,
        }
    } else {
        Color { r: 0, g: 0, b: 0 }
    }
}

/// The value of one hex digit, or nothing if `c` is no hex digit.
fn hex_digit_val(c: char) -> (r: Option<u8>)
    ensures
        r is Some <==> is_hex_digit(c),
        r matches Some(v) ==> v == hex_val(c) && v < 16,
{
    if '0' <= c && c <= '9' {
        Some(((c as u32) - ('0' as u32)) as u8)
    } else if 'a' <= c && c <= 'f' {
        Some((10 + (c as u32) - ('a' as u32)) as u8)
    } else if 'A' <= c && c <= 'F' {
        Some((10 + (c as u32) - ('A' as u32)) as u8)
    } else {
        None
    }
}

/// Parses a requested color: an optional leading `#`, then exactly six hex
/// digits. Any malformed input falls back to opaque black.
pub fn parse_hex_color(hex: &str) -> (c: Color)
    ensures
        c == spec_parse_hex_color(hex@),
{
    let n = hex.unicode_len();
    let start: usize = if n >= 1 && hex.get_char(0) == '#' {
        1
    } else {
        0
    };
    proof {
        assert(spec_hex_body(hex@) == hex@.skip(start as int));
    }
    if n - start != 6 {
        return Color { r: 0, g: 0, b: 0 };
    }
    let mut vals: [u8; 6] = [0, 0, 0, 0, 0, 0];
    let mut k: usize = 0;
    while k < 6
        invariant
            n == hex@.len(),
            start + 6 == n,
            start <= 1,
            0 <= k <= 6,
            forall|j: int|
                0 <= j < k ==> (#[trigger] vals@[j]) < 16 && is_hex_digit(
                    hex@.skip(start as int)[j],
                ) && vals@[j] == hex_val(hex@.skip(start as int)[j]),
        decreases 6 - k,
    {
        let ch = hex.get_char(start + k);
        proof {
            assert(hex@.skip(start as int)[k as int] == hex@[start + k as int]);
        }
        match hex_digit_val(ch) {
            Some(v) => {
                vals[k] = v;
            },
            None => {
                return Color { r: 0, g: 0, b: 0 };
            },
        }
        k = k + 1;
    }
    proof {
        assert(vals@[0] < 16 && vals@[1] < 16 && vals@[2] < 16 && vals@[3] < 16 && vals@[4] < 16
            && vals@[5] < 16);
    }
    Color {
        r: 16 * vals[0] + vals[1],
        g: 16 * vals[2] + vals[3],
        b: 16 * vals[4] + vals[5],
    }
}

/// One byte of the color-substituted buffer. Bytes are grouped four to a
/// pixel (RGBA); in a complete group a transparent pixel is kept, a black
/// pixel becomes the opaque foreground color, and any other pixel becomes the
/// opaque background color. Bytes of a trailing incomplete group are kept.
pub open spec fn subst_byte(px: Seq<u8>, fg: Color, bg: Color, j: int) -> u8 {
    let b = 4 * (j / 4);
    if b + 3 < px.len() {
        if px[b + 3] == 0 {
            px[j]
        } else if px[b] == 0 && px[b + 1] == 0 && px[b + 2] == 0 {
            if j % 4 == 0 {
                fg.r
            } else if j % 4 == 1 {
                fg.g
            } else if j % 4 == 2 {
                fg.b
            } else {
                255u8
            }
        } else {
            if j % 4 == 0 {
                bg.r
            } else if j % 4 == 1 {
                bg.g
            } else if j % 4 == 2 {
                bg.b
            } else {
                255u8
            }
        }
    } else {
        px[j]
    }
}

/// The RGBA buffer after color substitution: every non-transparent pixel
/// becomes exactly the foreground color (if it was black) or the background
/// color (anything else); transparent pixels are untouched. This is a direct
/// pixel classification, not an alpha blend.
pub open spec fn substituted_pixels(px: Seq<u8>, fg: Color, bg: Color) -> Seq<u8> {
    Seq::new(px.len(), |j: int| subst_byte(px, fg, bg, j))
}

/// What substitution does to the four bytes of one complete pixel group.
proof fn lemma_group_subst(px: Seq<u8>, fg: Color, bg: Color, i: int)
    requires
        0 <= i,
        4 * i + 3 < px.len(),
    ensures
        px[4 * i + 3] == 0 ==> subst_byte(px, fg, bg, 4 * i) == px[4 * i] && subst_byte(
            px,
            fg,
            bg,
            4 * i + 1,
        ) == px[4 * i + 1] && subst_byte(px, fg, bg, 4 * i + 2) == px[4 * i + 2] && subst_byte(
            px,
            fg,
            bg,
            4 * i + 3,
        ) == px[4 * i + 3],
        px[4 * i + 3] != 0 && px[4 * i] == 0 && px[4 * i + 1] == 0 && px[4 * i + 2] == 0
            ==> subst_byte(px, fg, bg, 4 * i) == fg.r && subst_byte(px, fg, bg, 4 * i + 1) == fg.g
            && subst_byte(px, fg, bg, 4 * i + 2) == fg.b && subst_byte(px, fg, bg, 4 * i + 3)
            == 255,
        px[4 * i + 3] != 0 && !(px[4 * i] == 0 && px[4 * i + 1] == 0 && px[4 * i + 2] == 0)
            ==> subst_byte(px, fg, bg, 4 * i) == bg.r && subst_byte(px, fg, bg, 4 * i + 1) == bg.g
            && subst_byte(px, fg, bg, 4 * i + 2) == bg.b && subst_byte(px, fg, bg, 4 * i + 3)
            == 255,
{
    assert((4 * i) / 4 == i && (4 * i) % 4 == 0 && (4 * i + 1) / 4 == i && (4 * i + 1) % 4 == 1 && (
    4 * i + 2) / 4 == i && (4 * i + 2) % 4 == 2 && (4 * i + 3) / 4 == i && (4 * i + 3) % 4 == 3)
        by (nonlinear_arith)
        requires
            i >= 0,
    ;
}

/// Substitutes the requested colors into an RGBA buffer, pixel by pixel.
#[verifier::rlimit(50)]
pub fn apply_customizations(pixels: &mut Vec<u8>, fg: Color, bg: Color)
    ensures
        final(pixels)@ == substituted_pixels(old(pixels)@, fg, bg),
{
    let ghost orig = pixels@;
    let glen = pixels.len();
    let n = glen / 4;
    proof {
        assert(orig.len() == glen);
        assert(4 * (n as int) <= orig.len() && orig.len() < 4 * (n as int) + 4)
            by (nonlinear_arith)
            requires
                n as int == orig.len() as int / 4,
                orig.len() >= 0,
        ;
    }
    let mut i: usize = 0;
    while i < n
        invariant
            pixels@.len() == orig.len(),
            orig.len() <= usize::MAX,
            4 * (n as int) <= orig.len() < 4 * (n as int) + 4,
            0 <= i <= n,
            forall|j: int| 0 <= j < 4 * i ==> pixels@[j] == subst_byte(orig, fg, bg, j),
            forall|j: int| 4 * i <= j < orig.len() ==> pixels@[j] == orig[j],
        decreases n - i,
    {
        let base = 4 * i;
        let a = pixels[base + 3];
        if a > 0 {
            let r0 = pixels[base];
            let g0 = pixels[base + 1];
            let b0 = pixels[base + 2];
            if r0 == 0 && g0 == 0 && b0 == 0 {
                pixels.set(base, fg.r);
                pixels.set(base + 1, fg.g);
                pixels.set(base + 2, fg.b);
                pixels.set(base + 3, 255);
            } else {
                pixels.set(base, bg.r);
                pixels.set(base + 1, bg.g);
                pixels.set(base + 2, bg.b);
                pixels.set(base + 3, 255);
            }
        }
        proof {
            lemma_group_subst(orig, fg, bg, i as int);
        }
        i = i + 1;
    }
    proof {
        assert forall|j: int| 4 * (n as int) <= j < orig.len() implies subst_byte(orig, fg, bg, j)
            == orig[j] by {
            assert(j / 4 >= n as int && 4 * (j / 4) <= j) by (nonlinear_arith)
                requires
                    4 * (n as int) <= j,
                    n as int >= 0,
            ;
            assert(4 * (j / 4) + 3 >= orig.len());
        }
        assert(pixels@ =~= substituted_pixels(orig, fg, bg));
    }
}

/// The base monochrome raster that the black-box encoder produces for this
/// payload and requested square size: width, height, and the RGBA bytes, or
/// nothing when the payload cannot be encoded. A deterministic function of
/// the payload and size alone.
pub uninterp spec fn qr_raster(data: Seq<char>, size: u32) -> Option<(u32, u32, Seq<u8>)>;

/// The PNG stream that encodes this RGBA raster, or nothing when the raster
/// cannot be written out. A deterministic function of the dimensions and
/// bytes alone.
pub uninterp spec fn png_encoding(width: u32, height: u32, pixels: Seq<u8>) -> Option<Seq<u8>>;

/// Relies on qrcode::QrCode::new and its image renderer for Rgba<u8>: the
/// encoder is deterministic in the payload bytes, and the renderer paints
/// dark modules [0,0,0,255] and light modules [255,255,255,255] into a
/// buffer of exactly width*height RGBA pixels.
#[verifier::external_body]
fn encode_qr_image(data: &str, size: u32) -> (r: Result<(u32, u32, Vec<u8>), RenderError>)
    ensures
        qr_raster(data@, size) is Some ==> r is Ok,
        qr_raster(data@, size) is None ==> r is Err,
        r matches Err(e) ==> e == RenderError::Unencodable,
        r matches Ok(t) ==> qr_raster(data@, size) == Some((t.0, t.1, t.2@)) && t.2@.len() == 4 * (
        t.0 as int) * (t.1 as int) && (forall|i: int|
            0 <= i && 4 * i + 3 < t.2@.len() ==> (#[trigger] t.2@[4 * i] == 0 && t.2@[4 * i + 1] == 0 && t.2@[4
                * i + 2] == 0 && t.2@[4 * i + 3] == 255) || (t.2@[4 * i] == 255 && t.2@[4 * i + 1]
                == 255 && t.2@[4 * i + 2] == 255 && t.2@[4 * i + 3] == 255)),
{
    let code = match qrcode::QrCode::new(data.as_bytes()) {
        Ok(c) => c,
        Err(_) => return Err(RenderError::Unencodable),
    };
    let img = code.render::<image::Rgba<u8>>().min_dimensions(size, size).max_dimensions(
        size,
        size,
    ).build();
    let w = img.width();
    let h = img.height();
    Ok((w, h, img.into_raw()))
}

/// Relies on image's PngEncoder::write_image: PNG encoding with the default
/// settings is deterministic in the dimensions and pixel bytes. The encoder
/// demands a buffer of exactly 4*width*height bytes.
#[verifier::external_body]
fn encode_png(width: u32, height: u32, pixels: &Vec<u8>) -> (r: Result<Vec<u8>, RenderError>)
    requires
        pixels@.len() == 4 * (width as int) * (height as int),
    ensures
        png_encoding(width, height, pixels@) is Some ==> r is Ok,
        png_encoding(width, height, pixels@) is None ==> r is Err,
        r matches Err(e) ==> e == RenderError::EncodeFailed,
        r matches Ok(b) ==> png_encoding(width, height, pixels@) == Some(b@),
{
    let mut out: Vec<u8> = Vec::new();
    let enc = image::codecs::png::PngEncoder::new(&mut out);
    match image::ImageEncoder::write_image(
        enc,
        pixels.as_slice(),
        width,
        height,
        image::ExtendedColorType::Rgba8,
    ) {
        Ok(()) => Ok(out),
        Err(_) => Err(RenderError::EncodeFailed),
    }
}

/// What rendering returns for a payload, requested size and colors, and plan
/// tier: the base raster, with the requested colors substituted only for
/// tiers that may customize, written out as PNG. The requested logo and
/// format have no effect: logo overlay is an accepted but unimplemented
/// passthrough, and output is always PNG.
pub open spec fn spec_render(
    data: Seq<char>,
    size: u32,
    color: Seq<char>,
    bg_color: Seq<char>,
    plan: Seq<char>,
) -> Option<Seq<u8>> {
    match qr_raster(data, size) {
        None => None,
        Some(t) => {
            let fpx = if plan_customizes(plan) {
                substituted_pixels(t.2, spec_parse_hex_color(color), spec_parse_hex_color(bg_color))
            } else {
                t.2
            };
            png_encoding(t.0, t.1, fpx)
        },
    }
}

/// Renders the payload as a PNG image, substituting the requested colors
/// only for the pro and business tiers.
// TODO: logo overlay for pro and business plans is accepted but not drawn,
// and the requested format is ignored: output is always PNG.
pub fn generate_qr(req: &QRRequest, plan: &str) -> (r: Result<Vec<u8>, RenderError>)
    ensures
        r is Ok <==> spec_render(req.data@, req.size, req.color@, req.bg_color@, plan@) is Some,
        r matches Ok(png) ==> spec_render(req.data@, req.size, req.color@, req.bg_color@, plan@)
            == Some(png@),
        r == Err::<Vec<u8>, RenderError>(RenderError::Unencodable) <==> qr_raster(
            req.data@,
            req.size,
        ) is None,
{
    let t = match encode_qr_image(req.data.as_str(), req.size) {
        Ok(t) => t,
        Err(e) => {
            return Err(e);
        },
    };
    let (w, h, mut px) = t;
    if plan_allows_custom(plan) {
        let fg = parse_hex_color(req.color.as_str());
        let bg = parse_hex_color(req.bg_color.as_str());
        apply_customizations(&mut px, fg, bg);
    }
    encode_png(w, h, &px)
}

/// On the free and starter tiers the rendered output is identical whatever
/// colors are requested: customization has no observable effect there.
pub proof fn lemma_basic_plan_ignores_colors(
    data: Seq<char>,
    size: u32,
    c1: Seq<char>,
    b1: Seq<char>,
    c2: Seq<char>,
    b2: Seq<char>,
    plan: Seq<char>,
)
    requires
        plan == "free"@ || plan == "starter"@,
    ensures
        spec_render(data, size, c1, b1, plan) == spec_render(data, size, c2, b2, plan),
{
    reveal_strlit("free");
    reveal_strlit("starter");
    reveal_strlit("pro");
    reveal_strlit("business");
    assert(plan.len() == 4 || plan.len() == 7);
    assert(!plan_customizes(plan));
}

/// After substitution, every complete RGBA pixel is either fully transparent
/// and untouched, or exactly the opaque foreground color, or exactly the
/// opaque background color: no third color appears.
pub proof fn lemma_substitution_palette(px: Seq<u8>, fg: Color, bg: Color, i: int)
    requires
        0 <= i,
        4 * i + 3 < px.len(),
    ensures
        ({
            let q = substituted_pixels(px, fg, bg);
            &&& q.len() == px.len()
            &&& q[4 * i + 3] != 0 ==> (q[4 * i] == fg.r && q[4 * i + 1] == fg.g && q[4 * i + 2]
                == fg.b && q[4 * i + 3] == 255) || (q[4 * i] == bg.r && q[4 * i + 1] == bg.g && q[4
                * i + 2] == bg.b && q[4 * i + 3] == 255)
            &&& q[4 * i + 3] == 0 ==> q[4 * i] == px[4 * i] && q[4 * i + 1] == px[4 * i + 1] && q[4
                * i + 2] == px[4 * i + 2] && px[4 * i + 3] == 0
        }),
{
    assert((4 * i) / 4 == i && (4 * i) % 4 == 0 && (4 * i + 1) / 4 == i && (4 * i + 1) % 4 == 1 && (
    4 * i + 2) / 4 == i && (4 * i + 2) % 4 == 2 && (4 * i + 3) / 4 == i && (4 * i + 3) % 4 == 3)
        by (nonlinear_arith)
        requires
            i >= 0,
    ;
}

} // verus!
