//! World of Warcraft armory pictures: the character and realm asked for, which
//! picture to use, and the box a transparent picture is cropped to.

use vstd::prelude::*;
use crate::raiderio::{ascii_lower, dashed, lowercase_ascii};
use crate::text::{chars_of, push_char, same_text, string_of_range, trim, trimmed};

verus! {

/// The first `-` in `s`, if any.
pub open spec fn first_dash(s: Seq<char>) -> Option<int> {
    if exists|i: int| 0 <= i < s.len() && s[i] == '-' {
        Some(choose|i: int| 0 <= i < s.len() && s[i] == '-' && forall|j: int| 0 <= j < i ==> s[j] != '-')
    } else {
        None
    }
}

/// The character and realm named by "<character>-<realm>" (split at the first
/// dash after ASCII capitals are lowered; the character trimmed; the realm
/// trimmed, its spaces made dashes and apostrophes dropped); `None` without a dash.
pub open spec fn character_and_realm(arg: Seq<char>) -> Option<(Seq<char>, Seq<char>)> {
    let lower = ascii_lower(arg);
    match first_dash(lower) {
        None => None,
        Some(i) => Some((trimmed(lower.take(i)), dashed(trimmed(lower.skip(i + 1))))),
    }
}

proof fn lemma_first_dash(s: Seq<char>, i: int)
    requires
        0 <= i < s.len(),
        s[i] == '-',
        forall|j: int| 0 <= j < i ==> s[j] != '-',
    ensures
        first_dash(s) == Some(i),
{
    let k = choose|k: int| 0 <= k < s.len() && s[k] == '-' && forall|j: int| 0 <= j < k ==> s[j] != '-';
    assert(0 <= i < s.len() && s[i] == '-' && forall|j: int| 0 <= j < i ==> s[j] != '-');
    if k < i {
        assert(s[k] != '-');
    } else if k > i {
        assert(s[i] != '-');
    }
}

/// Reads "<character>-<realm>".
pub fn parse_character_realm(arg: &str) -> (res: Option<(String, String)>)
    ensures
        (match res {
            Some((c, r)) => Some((c@, r@)),
            None => None,
        }) == character_and_realm(arg@),
{
    let lower = lowercase_ascii(arg);
    let v = chars_of(lower.as_str());
    let mut i: usize = 0;
    while i < v.len() && v[i] != '-'
        invariant
            i <= v.len(),
            forall|j: int| 0 <= j < i ==> v@[j] != '-',
        decreases v.len() - i,
    {
        i = i + 1;
    }
    if i == v.len() {
        assert(first_dash(v@) is None);
        return None;
    }
    proof {
        lemma_first_dash(v@, i as int);
    }
    let head = string_of_range(&v, 0, i);
    let tail = string_of_range(&v, i + 1, v.len());
    assert(v@.subrange(0, i as int) =~= v@.take(i as int));
    assert(v@.subrange(i + 1, v.len() as int) =~= v@.skip(i + 1));
    let character = trim(head.as_str());
    let realm_trimmed = trim(tail.as_str());
    let rv = chars_of(realm_trimmed.as_str());
    let mut realm = String::new();
    let mut k: usize = 0;
    while k < rv.len()
        invariant
            k <= rv.len(),
            realm@ == dashed(rv@.take(k as int)),
        decreases rv.len() - k,
    {
        assert(rv@.take(k + 1).drop_last() =~= rv@.take(k as int));
        let c = rv[k];
        if c == ' ' {
            push_char(&mut realm, '-');
        } else if c != '\'' {
            push_char(&mut realm, c);
        }
        k = k + 1;
    }
    assert(rv@.take(rv.len() as int) =~= rv@);
    Some((character, realm))
}

/// When a new armory token is taken to expire, in seconds from now: a minute
/// early, so that it is renewed in time.
pub fn armory_token_lifetime(expires_in: u64) -> (res: u64)
    requires
        expires_in >= 60,
    ensures
        res == expires_in - 60,
{
    expires_in - 60
}

/// An entry of a character's media: its kind ("main-raw", "main", ...) and URL.
pub struct MediaAsset {
    pub key: String,
    pub value: String,
}

/// Which picture of a character to show.
pub enum Imagery {
    /// A transparent PNG, to be cropped before it is sent.
    Raw(String),
    /// A picture to link as it is.
    Plain(String),
    /// No picture at all.
    Missing,
}

/// The first asset of kind `key`, if any.
pub open spec fn first_of_kind(assets: Seq<MediaAsset>, key: Seq<char>) -> Option<int> {
    if exists|i: int| 0 <= i < assets.len() && assets[i].key@ == key {
        Some(choose|i: int| 0 <= i < assets.len() && assets[i].key@ == key && forall|j: int| 0 <= j < i ==> assets[j].key@ != key)
    } else {
        None
    }
}

/// The picture chosen: the first "main-raw" asset, else the first "main" asset,
/// else the render URL; as text, with whether it is the transparent one.
pub open spec fn chosen_imagery(assets: Option<Seq<MediaAsset>>, render_url: Option<Seq<char>>) -> Option<(bool, Seq<char>)> {
    let from_assets: Option<(bool, Seq<char>)> = match assets {
        Some(a) => match first_of_kind(a, "main-raw"@) {
            Some(i) => Some((true, a[i].value@)),
            None => match first_of_kind(a, "main"@) {
                Some(i) => Some((false, a[i].value@)),
                None => None,
            },
        },
        None => None,
    };
    match from_assets {
        Some(c) => Some(c),
        None => match render_url {
            Some(u) => Some((false, u)),
            None => None,
        },
    }
}

fn find_kind(assets: &Vec<MediaAsset>, key: &str) -> (res: Option<usize>)
    ensures
        (match res {
            Some(i) => Some(i as int),
            None => None,
        }) == first_of_kind(assets@, key@),
        res matches Some(i) ==> i < assets@.len(),
{
    let mut i: usize = 0;
    while i < assets.len()
        invariant
            i <= assets.len(),
            forall|j: int| 0 <= j < i ==> (#[trigger] assets@[j]).key@ != key@,
        decreases assets.len() - i,
    {
        if same_text(assets[i].key.as_str(), key) {
            proof {
                let k = choose|k: int| 0 <= k < assets@.len() && assets@[k].key@ == key@ && forall|j: int| 0 <= j < k ==> assets@[j].key@ != key@;
                assert(0 <= i < assets@.len() && assets@[i as int].key@ == key@ && forall|j: int| 0 <= j < i ==> assets@[j].key@ != key@);
                if k < i {
                    assert(assets@[k].key@ != key@);
                } else if k > i {
                    assert(assets@[i as int].key@ != key@);
                }
            }
            return Some(i);
        }
        i = i + 1;
    }
    None
}

/// Chooses the picture to show.
pub fn choose_imagery(assets: &Option<Vec<MediaAsset>>, render_url: &Option<String>) -> (res: Imagery)
    ensures
        chosen_imagery(match *assets {
            Some(a) => Some(a@),
            None => None,
        }, match *render_url {
            Some(u) => Some(u@),
            None => None,
        }) == match res {
            Imagery::Raw(u) => Some((true, u@)),
            Imagery::Plain(u) => Some((false, u@)),
            Imagery::Missing => None::<(bool, Seq<char>)>,
        },
{
    if let Some(a) = assets {
        if let Some(i) = find_kind(a, "main-raw") {
            return Imagery::Raw(a[i].value.clone());
        } else if let Some(i) = find_kind(a, "main") {
            return Imagery::Plain(a[i].value.clone());
        }
    }
    match render_url {
        Some(u) => Imagery::Plain(u.clone()),
        None => Imagery::Missing,
    }
}

/// Whether the pixel at (`x`, `y`) of a picture `width` wide, given by its alpha
/// values row by row, is not fully transparent.
pub open spec fn opaque(alpha: Seq<u8>, width: int, x: int, y: int) -> bool {
    alpha[y * width + x] > 0
}

/// Whether row `y` has a pixel that is not fully transparent.
pub open spec fn row_filled(alpha: Seq<u8>, width: int, y: int) -> bool {
    exists|x: int| 0 <= x < width && opaque(alpha, width, x, y)
}

/// Whether column `x` has such a pixel in the rows from `top` up to `bottom`.
pub open spec fn column_filled(alpha: Seq<u8>, width: int, x: int, top: int, bottom: int) -> bool {
    exists|y: int| top <= y < bottom && opaque(alpha, width, x, y)
}

/// The box a picture is cropped to: its left and top edges, and its right and
/// bottom edges (exclusive).
#[derive(Debug, PartialEq, Eq, Structural, Clone, Copy)]
pub struct CropBox {
    pub left: u32,
    pub top: u32,
    pub right: u32,
    pub bottom: u32,
}

proof fn lemma_index_in(width: int, height: int, x: int, y: int)
    requires
        0 <= x < width,
        0 <= y < height,
    ensures
        0 <= y * width + x < width * height,
{
    assert(0 <= y * width + x < width * height) by (nonlinear_arith)
        requires
            0 <= x < width,
            0 <= y < height,
    ;
}

fn pixel_opaque(alpha: &Vec<u8>, width: u32, height: u32, x: u32, y: u32) -> (res: bool)
    requires
        alpha@.len() == width * height,
        x < width,
        y < height,
    ensures
        res == opaque(alpha@, width as int, x as int, y as int),
{
    proof {
        lemma_index_in(width as int, height as int, x as int, y as int);
        assert(y * width <= y * width + x);
    }
    assert(alpha.len() == alpha@.len());
    let i: usize = (y as usize) * (width as usize) + (x as usize);
    alpha[i] > 0
}

fn row_has(alpha: &Vec<u8>, width: u32, height: u32, y: u32) -> (res: bool)
    requires
        alpha@.len() == width * height,
        y < height,
    ensures
        res == row_filled(alpha@, width as int, y as int),
{
    let mut x: u32 = 0;
    while x < width
        invariant
            x <= width,
            y < height,
            alpha@.len() == width * height,
            forall|k: int| 0 <= k < x ==> !opaque(alpha@, width as int, k, y as int),
        decreases width - x,
    {
        if pixel_opaque(alpha, width, height, x, y) {
            return true;
        }
        x = x + 1;
    }
    false
}

fn column_has(alpha: &Vec<u8>, width: u32, height: u32, x: u32, top: u32, bottom: u32) -> (res: bool)
    requires
        alpha@.len() == width * height,
        x < width,
        top <= bottom <= height,
    ensures
        res == column_filled(alpha@, width as int, x as int, top as int, bottom as int),
{
    let mut y: u32 = top;
    while y < bottom
        invariant
            top <= y <= bottom,
            bottom <= height,
            x < width,
            alpha@.len() == width * height,
            forall|k: int| top <= k < y ==> !opaque(alpha@, width as int, x as int, k),
        decreases bottom - y,
    {
        if pixel_opaque(alpha, width, height, x, y) {
            return true;
        }
        y = y + 1;
    }
    false
}

/// Whether `b` is the box holding every pixel that is not fully transparent:
/// the first and last such rows, then the first and last columns with such a
/// pixel in those rows; an edge with no such pixel stays at the picture's edge.
pub open spec fn is_crop_box(alpha: Seq<u8>, width: int, height: int, b: CropBox) -> bool {
    &&& (exists|y: int| 0 <= y < height && row_filled(alpha, width, y)) ==> (row_filled(alpha, width, b.top as int)
        && forall|y: int| 0 <= y < b.top ==> !row_filled(alpha, width, y))
    &&& !(exists|y: int| 0 <= y < height && row_filled(alpha, width, y)) ==> b.top == 0
    &&& (exists|y: int| b.top <= y < height && row_filled(alpha, width, y)) ==> (b.top < b.bottom
        && row_filled(alpha, width, b.bottom - 1)
        && forall|y: int| b.bottom <= y < height ==> !row_filled(alpha, width, y))
    &&& !(exists|y: int| b.top <= y < height && row_filled(alpha, width, y)) ==> b.bottom == height
    &&& (exists|x: int| 0 <= x < width && column_filled(alpha, width, x, b.top as int, b.bottom as int)) ==> (
        column_filled(alpha, width, b.left as int, b.top as int, b.bottom as int)
        && forall|x: int| 0 <= x < b.left ==> !column_filled(alpha, width, x, b.top as int, b.bottom as int))
    &&& !(exists|x: int| 0 <= x < width && column_filled(alpha, width, x, b.top as int, b.bottom as int)) ==> b.left == 0
    &&& (exists|x: int| b.left <= x < width && column_filled(alpha, width, x, b.top as int, b.bottom as int)) ==> (
        b.left < b.right && column_filled(alpha, width, b.right - 1, b.top as int, b.bottom as int)
        && forall|x: int| b.right <= x < width ==> !column_filled(alpha, width, x, b.top as int, b.bottom as int))
    &&& !(exists|x: int| b.left <= x < width && column_filled(alpha, width, x, b.top as int, b.bottom as int)) ==> b.right == width
    &&& b.top <= b.bottom <= height
    &&& b.left <= b.right <= width
}

/// The crop box of a picture `width` by `height` given by its alpha values row
/// by row (see `is_crop_box`); every pixel that is not fully transparent lies in it.
pub fn crop_box(alpha: &Vec<u8>, width: u32, height: u32) -> (res: CropBox)
    requires
        alpha@.len() == width * height,
    ensures
        is_crop_box(alpha@, width as int, height as int, res),
        forall|x: int, y: int| 0 <= x < width && 0 <= y < height && opaque(alpha@, width as int, x, y) ==>
            res.left <= x < res.right && res.top <= y < res.bottom,
{
    let ghost w = width as int;
    let mut y: u32 = 0;
    while y < height && !row_has(alpha, width, height, y)
        invariant
            y <= height,
            forall|k: int| 0 <= k < y ==> !row_filled(alpha@, w, k),
            w == width,
            alpha@.len() == width * height,
        decreases height - y,
    {
        y = y + 1;
    }
    let top: u32 = if y < height { y } else { 0 };
    let mut b: u32 = height;
    while b > top && !row_has(alpha, width, height, b - 1)
        invariant
            top <= b <= height,
            forall|k: int| b <= k < height ==> !row_filled(alpha@, w, k),
            w == width,
            alpha@.len() == width * height,
        decreases b - top,
    {
        b = b - 1;
    }
    let bottom: u32 = if b > top { b } else { height };
    let mut x: u32 = 0;
    while x < width && !column_has(alpha, width, height, x, top, bottom)
        invariant
            x <= width,
            top <= bottom <= height,
            forall|k: int| 0 <= k < x ==> !column_filled(alpha@, w, k, top as int, bottom as int),
            w == width,
            alpha@.len() == width * height,
        decreases width - x,
    {
        x = x + 1;
    }
    let left: u32 = if x < width { x } else { 0 };
    let mut r: u32 = width;
    while r > left && !column_has(alpha, width, height, r - 1, top, bottom)
        invariant
            left <= r <= width,
            top <= bottom <= height,
            forall|k: int| r <= k < width ==> !column_filled(alpha@, w, k, top as int, bottom as int),
            w == width,
            alpha@.len() == width * height,
        decreases r - left,
    {
        r = r - 1;
    }
    let right: u32 = if r > left { r } else { width };
    proof {
        assert forall|px: int, py: int| 0 <= px < width && 0 <= py < height && opaque(alpha@, w, px, py) implies
            left <= px < right && top <= py < bottom by {
            assert(row_filled(alpha@, w, py));
            assert(y < height);
            assert(b > top) by {
                if b <= top {
                    assert(top <= py);
                }
            }
            assert(top <= py < bottom);
            assert(column_filled(alpha@, w, px, top as int, bottom as int));
            assert(x < width);
            assert(r > left) by {
                if r <= left {
                    assert(left <= px);
                }
            }
        }
    }
    let res = CropBox { left, top, right, bottom };
    proof {
        assert((exists|y: int| 0 <= y < height && row_filled(alpha@, w, y))
            ==> (row_filled(alpha@, w, res.top as int)
                && forall|y: int| 0 <= y < res.top ==> !row_filled(alpha@, w, y)));
        assert(!(exists|y: int| 0 <= y < height && row_filled(alpha@, w, y)) ==> res.top == 0);
        assert((exists|y: int| res.top <= y < height && row_filled(alpha@, w, y))
            ==> (res.top < res.bottom
                && row_filled(alpha@, w, res.bottom - 1)
                && forall|y: int| res.bottom <= y < height ==> !row_filled(alpha@, w, y)));
        assert(!(exists|y: int| res.top <= y < height && row_filled(alpha@, w, y)) ==> res.bottom == height);
        assert((exists|x: int| 0 <= x < width && column_filled(alpha@, w, x, res.top as int, res.bottom as int))
            ==> (column_filled(alpha@, w, res.left as int, res.top as int, res.bottom as int)
                && forall|x: int| 0 <= x < res.left ==> !column_filled(alpha@, w, x, res.top as int, res.bottom as int)));
        assert(!(exists|x: int| 0 <= x < width && column_filled(alpha@, w, x, res.top as int, res.bottom as int))
            ==> res.left == 0);
        assert((exists|x: int| res.left <= x < width && column_filled(alpha@, w, x, res.top as int, res.bottom as int))
            ==> (res.left < res.right
                && column_filled(alpha@, w, res.right - 1, res.top as int, res.bottom as int)
                && forall|x: int| res.right <= x < width ==> !column_filled(alpha@, w, x, res.top as int, res.bottom as int)));
        assert(!(exists|x: int| res.left <= x < width && column_filled(alpha@, w, x, res.top as int, res.bottom as int))
            ==> res.right == width);
        assert(res.top <= res.bottom <= height);
        assert(res.left <= res.right <= width);
    }
    res
}

/// A picture has one crop box.
pub proof fn lemma_crop_box_unique(alpha: Seq<u8>, width: int, height: int, b1: CropBox, b2: CropBox)
    requires
        is_crop_box(alpha, width, height, b1),
        is_crop_box(alpha, width, height, b2),
    ensures
        b1 == b2,
{
    if exists|y: int| 0 <= y < height && row_filled(alpha, width, y) {
        if b1.top < b2.top {
            assert(!row_filled(alpha, width, b1.top as int));
        }
        if b2.top < b1.top {
            assert(!row_filled(alpha, width, b2.top as int));
        }
    }
    assert(b1.top == b2.top);
    if exists|y: int| b1.top <= y < height && row_filled(alpha, width, y) {
        if b1.bottom < b2.bottom {
            assert(!row_filled(alpha, width, b2.bottom - 1));
        }
        if b2.bottom < b1.bottom {
            assert(!row_filled(alpha, width, b1.bottom - 1));
        }
    }
    assert(b1.bottom == b2.bottom);
    if exists|x: int| 0 <= x < width && column_filled(alpha, width, x, b1.top as int, b1.bottom as int) {
        if b1.left < b2.left {
            assert(!column_filled(alpha, width, b1.left as int, b1.top as int, b1.bottom as int));
        }
        if b2.left < b1.left {
            assert(!column_filled(alpha, width, b2.left as int, b1.top as int, b1.bottom as int));
        }
    }
    assert(b1.left == b2.left);
    if exists|x: int| b1.left <= x < width && column_filled(alpha, width, x, b1.top as int, b1.bottom as int) {
        if b1.right < b2.right {
            assert(!column_filled(alpha, width, b2.right - 1, b1.top as int, b1.bottom as int));
        }
        if b2.right < b1.right {
            assert(!column_filled(alpha, width, b1.right - 1, b1.top as int, b1.bottom as int));
        }
    }
}

/// The width and height of the PNG picture `bytes` hold and its alpha values
/// row by row, or the text of the decoding error.
pub uninterp spec fn png_alpha(bytes: Seq<u8>) -> Result<(u32, u32, Seq<u8>), Seq<char>>;

/// The PNG picture `bytes` hold, cropped to the `width` by `height` box whose
/// top left corner is (`left`, `top`) and written as an RGBA PNG, or the text
/// of the error.
pub uninterp spec fn png_cropped(bytes: Seq<u8>, left: u32, top: u32, width: u32, height: u32) -> Result<Seq<u8>, Seq<char>>;

/// Reads a PNG with `image::load_from_memory_with_format(_, ImageFormat::Png)`
/// and `into_rgba8`, and collects the alpha value of each pixel in the order
/// `pixels()` gives them (row by row): claimed to be the named result, with one
/// alpha value per pixel.
#[verifier::external_body]
fn png_alpha_of(bytes: &[u8]) -> (res: Result<(u32, u32, Vec<u8>), String>)
    ensures
        match res {
            Ok((w, h, a)) => png_alpha(bytes@) == Ok::<(u32, u32, Seq<u8>), Seq<char>>((w, h, a@)) && a@.len() == w * h,
            Err(e) => png_alpha(bytes@) == Err::<(u32, u32, Seq<u8>), Seq<char>>(e@),
        },
{
    match image::load_from_memory_with_format(bytes, image::ImageFormat::Png) {
        Ok(p) => {
            let rgba = p.into_rgba8();
            Ok((rgba.width(), rgba.height(), rgba.pixels().map(|px| px.0[3]).collect()))
        },
        Err(e) => Err(e.to_string()),
    }
}

/// Reads a PNG as `png_alpha_of` does, crops it with `image::imageops::crop`
/// and writes it with `image::codecs::png::PngEncoder`: claimed to be the named
/// bytes or error text.
#[verifier::external_body]
fn crop_png(bytes: &[u8], left: u32, top: u32, width: u32, height: u32) -> (res: Result<Vec<u8>, String>)
    ensures
        crate::images::bytes_view(res) == png_cropped(bytes@, left, top, width, height),
{
    let mut picture = match image::load_from_memory_with_format(bytes, image::ImageFormat::Png) {
        Ok(p) => p.into_rgba8(),
        Err(e) => return Err(e.to_string()),
    };
    let cropped = image::imageops::crop(&mut picture, left, top, width, height).to_image();
    let mut out = Vec::new();
    match image::ImageEncoder::write_image(image::codecs::png::PngEncoder::new(&mut out), &cropped, cropped.width(), cropped.height(), image::ExtendedColorType::Rgba8) {
        Ok(()) => Ok(out),
        Err(e) => Err(e.to_string()),
    }
}

/// The crop box of a picture (there is exactly one, see `lemma_crop_box_unique`).
pub open spec fn crop_box_of(alpha: Seq<u8>, width: int, height: int) -> CropBox {
    choose|b: CropBox| is_crop_box(alpha, width, height, b)
}

/// What cropping a character's portrait gives: the text of the decoding error,
/// else the PNG cropped to its crop box.
pub open spec fn portrait_cropped(bytes: Seq<u8>) -> Result<Seq<u8>, Seq<char>> {
    match png_alpha(bytes) {
        Err(e) => Err(e),
        Ok((w, h, alpha)) => {
            let b = crop_box_of(alpha, w as int, h as int);
            png_cropped(bytes, b.left, b.top, (b.right - b.left) as u32, (b.bottom - b.top) as u32)
        },
    }
}

/// Crops a character's transparent portrait (a PNG) to the box holding every
/// pixel that is not fully transparent, and writes it again as a PNG.
pub fn cropped_portrait(bytes: &[u8]) -> (res: Result<Vec<u8>, String>)
    ensures
        crate::images::bytes_view(res) == portrait_cropped(bytes@),
{
    match png_alpha_of(bytes) {
        Err(e) => Err(e),
        Ok((w, h, alpha)) => {
            let b = crop_box(&alpha, w, h);
            let res = crop_png(bytes, b.left, b.top, b.right - b.left, b.bottom - b.top);
            proof {
                lemma_crop_box_unique(alpha@, w as int, h as int, b, crop_box_of(alpha@, w as int, h as int));
            }
            res
        },
    }
}

} // verus!
