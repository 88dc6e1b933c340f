//! Images: which one a request names, how it is answered, and the limits of its
//! size.

use vstd::prelude::*;
use vstd::string::*;

use crate::ids::{
    id_of, id_text, law_id_round_trip, parse_row, parse_typed_id, row_of, IdKind,
};
use crate::number::{is_digit, lemma_nat_text, nat_text, parse_u64, u64_of};
use crate::text::{
    find_char, lemma_position, lemma_split_push, lower, lowered, opt_str, position, range_text,
    split, split_at_char, to_chars,
};

verus! {

/// What a client asks of an image.
#[derive(Debug, Default)]
pub struct ResizeQuery {
    pub maxwidth: Option<i64>,
    pub maxheight: Option<i64>,
    pub quality: Option<i64>,
    pub tag: Option<String>,
}

/// The image that a tag names.
pub fn image_of_tag(tag: Option<&str>) -> (r: Option<i64>)
    ensures
        r == (match opt_str(tag) {
            Some(t) => row_of(t, IdKind::Image),
            None => None,
        }),
{
    match tag {
        Some(t) => parse_row(t, IdKind::Image),
        None => None,
    }
}

/// Whose image a request names.
#[derive(Debug, Clone, Copy, PartialEq, Eq, Structural)]
pub enum ImageOwner {
    Item(i64),
    Person(i64),
}

/// The image that a request names by its owner, its type and its place among the
/// owner's images of that type.
#[derive(Debug)]
pub struct ImageTarget {
    pub owner: ImageOwner,
    /// The type in lower case.
    pub image_type: String,
    pub index: u64,
}

/// A part of a path without its extension.
pub open spec fn without_extension(s: Seq<char>) -> Seq<char> {
    s.take(position(s, '.'))
}

/// The type in a path such as `Primary`, `Primary/0` or `primary.jpg`: what
/// precedes the first slash, without its extension and in lower case.
pub open spec fn path_type(path: Seq<char>) -> Seq<char> {
    lower(without_extension(split(path, '/')[0]))
}

/// The place in a path such as `Primary/0` or `Primary/0.jpg`: the number that
/// follows the first slash, or the first place.
pub open spec fn path_index(path: Seq<char>) -> u64 {
    let pieces = split(path, '/');
    if pieces.len() > 1 {
        match u64_of(without_extension(pieces[1])) {
            Some(n) => n,
            None => 0,
        }
    } else {
        0
    }
}

/// Whose image an identifier names: only items and people have images here.
pub open spec fn owner_of(id: Seq<char>) -> Option<ImageOwner> {
    match id_of(id) {
        Some((IdKind::Item, n)) => Some(ImageOwner::Item(n)),
        Some((IdKind::People, n)) => Some(ImageOwner::Person(n)),
        _ => None,
    }
}

fn cut_extension(s: &str) -> (r: String)
    ensures
        r@ == without_extension(s@),
{
    let cs = to_chars(s);
    let at: usize = find_char(cs.as_slice(), 0, cs.len(), '.');
    assert(cs@.subrange(0, cs@.len() as int) =~= s@);
    let r = range_text(cs.as_slice(), 0, at);
    assert(r@ =~= without_extension(s@));
    r
}

/// The image that a request names by its owner and its path; none where the
/// owner has no images.
pub fn image_target(id: &str, path: &str) -> (r: Option<ImageTarget>)
    ensures
        match owner_of(id@) {
            Some(owner) => r is Some && r->0.owner == owner && r->0.image_type@ == path_type(path@)
                && r->0.index == path_index(path@),
            None => r is None,
        },
{
    let owner = match parse_typed_id(id) {
        Some((kind, n)) => match kind {
            IdKind::Item => ImageOwner::Item(n),
            IdKind::People => ImageOwner::Person(n),
            _ => {
                return None;
            },
        },
        None => {
            return None;
        },
    };
    let pieces = split_at_char(path, '/');
    let ghost all = split(path@, '/');
    proof {
        crate::text::lemma_pieces_without(path@, '/');
        assert(all.len() == pieces@.len());
        assert(all[0] == pieces@[0]@);
    }
    let head = cut_extension(pieces[0].as_str());
    let index: u64 = if pieces.len() > 1 {
        assert(all[1] == pieces@[1]@);
        let place = cut_extension(pieces[1].as_str());
        match parse_u64(place.as_str()) {
            Some(n) => n,
            None => 0,
        }
    } else {
        0
    };
    Some(ImageTarget { owner, image_type: lowered(head.as_str()), index })
}

/// How a request for an image is answered.
#[derive(Debug, Clone, Copy, PartialEq, Eq, Structural)]
pub enum ImagePlan {
    /// There is no such image.
    NotFound,
    /// Send the client to the image's address.
    Redirect,
    /// Fetch the image and pass it on as it is.
    Proxy,
    /// Fetch the image, resize it, and pass it on.
    Resize,
}

/// How a request for an image is answered: without an address it is not found,
/// and only an image that passes through here can be resized.
pub fn image_plan(url: Option<&str>, proxied: bool, q: &ResizeQuery) -> (r: ImagePlan)
    ensures
        r == if !(url is Some && url->0@.len() > 0) {
            ImagePlan::NotFound
        } else if !proxied {
            ImagePlan::Redirect
        } else if q.maxwidth is Some || q.maxheight is Some {
            ImagePlan::Resize
        } else {
            ImagePlan::Proxy
        },
        r == answer_for(
            opt_str(url),
            proxied,
            q.maxwidth is Some || q.maxheight is Some,
        ),
{
    let has_url = match url {
        Some(u) => !u.is_empty(),
        None => false,
    };
    if !has_url {
        ImagePlan::NotFound
    } else if !proxied {
        ImagePlan::Redirect
    } else if q.maxwidth.is_some() || q.maxheight.is_some() {
        ImagePlan::Resize
    } else {
        ImagePlan::Proxy
    }
}

// ---------------------------------------------------------------------------
// Resizing

/// A decoded image of the `image` crate.
#[verifier::external_type_specification]
#[verifier::external_body]
pub struct ExDynamicImage(image::DynamicImage);

/// What is known of a decoded image: its size, and whether it has an alpha channel.
#[derive(Debug, Clone, Copy, PartialEq, Eq, Structural)]
pub struct Picture {
    pub width: u32,
    pub height: u32,
    pub alpha: bool,
}

/// The size of a decoded image, and whether it has an alpha channel.
pub uninterp spec fn picture(img: image::DynamicImage) -> Picture;

/// What `ImageReader::decode` finds in the bytes of an image whose format they
/// tell; nothing where it cannot decode them.
pub uninterp spec fn decoded_picture(bytes: Seq<u8>) -> Option<Picture>;

/// The bytes that `DynamicImage::write_to` gives for an image in PNG; nothing
/// where it fails.
pub uninterp spec fn png_bytes(img: image::DynamicImage) -> Option<Seq<u8>>;

/// The bytes that `JpegEncoder::new_with_quality` gives for an image; nothing
/// where it fails.
pub uninterp spec fn jpeg_bytes(img: image::DynamicImage, quality: u8) -> Option<Seq<u8>>;

/// Whether a picture lies within bounds and reaches one of them.
pub open spec fn fits(p: Picture, width: u32, height: u32) -> bool {
    &&& 1 <= p.width <= width
    &&& 1 <= p.height <= height
    &&& p.width == width || p.height == height
}

/// `ImageReader::with_guessed_format`, then `ImageReader::decode`. The contract
/// names the size of the image and whether it has an alpha channel; of its
/// pixels it says nothing.
#[verifier::external_body]
fn decode_image(bytes: &[u8]) -> (r: Option<image::DynamicImage>)
    ensures
        match r {
            Some(img) => decoded_picture(bytes@) == Some(picture(img)),
            None => decoded_picture(bytes@) is None,
        },
{
    let reader = image::ImageReader::new(std::io::Cursor::new(bytes));
    reader.with_guessed_format().ok()?.decode().ok()
}

/// `DynamicImage::width`, `DynamicImage::height` and `ColorType::has_alpha`.
#[verifier::external_body]
fn picture_of(img: &image::DynamicImage) -> (r: Picture)
    ensures
        r == picture(*img),
{
    Picture { width: img.width(), height: img.height(), alpha: img.color().has_alpha() }
}

/// `DynamicImage::resize` with a Lanczos filter, to a size no greater than the
/// image's own. The contract claims that the result lies within both bounds and
/// reaches one of them, that an alpha channel stays and that none is added. The
/// other side and the pixels are computed in floating point, and nothing more is
/// said of them.
#[verifier::external_body]
fn scale_image(img: &image::DynamicImage, width: u32, height: u32) -> (r: image::DynamicImage)
    requires
        width == 1 || 1 < width <= picture(*img).width,
        height == 1 || 1 < height <= picture(*img).height,
    ensures
        fits(picture(r), width, height),
        picture(r).alpha == picture(*img).alpha,
{
    img.resize(width, height, image::imageops::FilterType::Lanczos3)
}

/// `DynamicImage::write_to` in PNG. The contract names the result.
#[verifier::external_body]
fn encode_png(img: &image::DynamicImage) -> (r: Option<Vec<u8>>)
    ensures
        match r {
            Some(out) => png_bytes(*img) == Some(out@),
            None => png_bytes(*img) is None,
        },
{
    let mut out = Vec::new();
    img.write_to(&mut std::io::Cursor::new(&mut out), image::ImageFormat::Png).ok()?;
    Some(out)
}

/// `DynamicImage::write_with_encoder` with `JpegEncoder::new_with_quality`. The
/// contract names the result.
#[verifier::external_body]
fn encode_jpeg(img: &image::DynamicImage, quality: u8) -> (r: Option<Vec<u8>>)
    ensures
        match r {
            Some(out) => jpeg_bytes(*img, quality) == Some(out@),
            None => jpeg_bytes(*img, quality) is None,
        },
{
    let mut out = Vec::new();
    let encoder = image::codecs::jpeg::JpegEncoder::new_with_quality(&mut out, quality);
    img.write_with_encoder(encoder).ok()?;
    Some(out)
}

/// The image in the bytes of a file; none where they cannot be decoded.
pub fn open_image(bytes: &[u8]) -> (r: Option<image::DynamicImage>)
    ensures
        match r {
            Some(img) => decoded_picture(bytes@) == Some(picture(img)),
            None => decoded_picture(bytes@) is None,
        },
{
    decode_image(bytes)
}

/// The size of an image, and whether it has an alpha channel.
pub fn measure(img: &image::DynamicImage) -> (r: Picture)
    ensures
        r == picture(*img),
{
    picture_of(img)
}

/// Whether `shown` can be an image at another size: the image itself where it
/// has that size, and otherwise one that is scaled to it and has an alpha
/// channel where the image has one.
pub open spec fn shows(
    shown: image::DynamicImage,
    img: image::DynamicImage,
    width: u32,
    height: u32,
) -> bool {
    if picture(img).width == width && picture(img).height == height {
        shown == img
    } else {
        fits(picture(shown), width, height) && picture(shown).alpha == picture(img).alpha
    }
}

/// The bytes and the content type of an image: PNG with an alpha channel, so
/// that it stays, and otherwise JPEG.
pub open spec fn encoded(img: image::DynamicImage, quality: u8) -> Option<(Seq<u8>, Seq<char>)> {
    if picture(img).alpha {
        match png_bytes(img) {
            Some(out) => Some((out, "image/png"@)),
            None => None,
        }
    } else {
        match jpeg_bytes(img, quality) {
            Some(out) => Some((out, "image/jpeg"@)),
            None => None,
        }
    }
}

/// An image at another size, no greater than its own: its bytes and their
/// content type; nothing where it cannot be encoded.
pub fn render_image(
    img: &image::DynamicImage,
    width: u32,
    height: u32,
    quality: Option<i64>,
) -> (r: Option<(Vec<u8>, &'static str)>)
    requires
        width == 1 || 1 < width <= picture(*img).width,
        height == 1 || 1 < height <= picture(*img).height,
    ensures
        exists|shown: image::DynamicImage| #[trigger]
            shows(shown, *img, width, height) && match r {
                Some((out, kind)) => encoded(shown, quality_of(quality)) == Some((out@, kind@)),
                None => encoded(shown, quality_of(quality)) is None,
            },
        r is Some ==> (r->0).1@ == if picture(*img).alpha {
            "image/png"@
        } else {
            "image/jpeg"@
        },
{
    let size = picture_of(img);
    if size.width == width && size.height == height {
        assert(shows(*img, *img, width, height));
        return encode_image(img, quality);
    }
    let shown = scale_image(img, width, height);
    assert(shows(shown, *img, width, height));
    encode_image(&shown, quality)
}

fn encode_image(img: &image::DynamicImage, quality: Option<i64>) -> (r: Option<
    (Vec<u8>, &'static str),
>)
    ensures
        match r {
            Some((out, kind)) => encoded(*img, quality_of(quality)) == Some((out@, kind@)),
            None => encoded(*img, quality_of(quality)) is None,
        },
{
    let alpha = picture_of(img).alpha;
    let out = if alpha {
        encode_png(img)
    } else {
        encode_jpeg(img, jpeg_quality(quality))
    };
    match out {
        Some(bytes) => Some((bytes, resized_type(alpha))),
        None => None,
    }
}

/// The greatest size along one side: as asked for, or the image's own, and one
/// where that is less. Of a number beyond 32 bits only the low 32 count, so that
/// a multiple of 2^32 comes to zero.
pub open spec fn size_limit(asked: Option<i64>, size: u32) -> int {
    let n = match asked {
        Some(n) => n as int,
        None => size as int,
    };
    if n < 1 {
        1
    } else {
        n % 0x1_0000_0000
    }
}

/// The greatest size along one side.
pub fn max_size(asked: Option<i64>, size: u32) -> (r: u32)
    ensures
        r == size_limit(asked, size),
{
    let n: i64 = match asked {
        Some(n) => n,
        None => size as i64,
    };
    if n < 1 {
        1
    } else {
        (n % 0x1_0000_0000) as u32
    }
}

/// The quality of a JPEG: as asked for, or ninety, and between one and a hundred.
pub open spec fn quality_of(asked: Option<i64>) -> u8 {
    match asked {
        Some(n) => if n < 1 {
            1
        } else if n > 100 {
            100
        } else {
            n as u8
        },
        None => 90,
    }
}

/// The quality of a JPEG.
pub fn jpeg_quality(asked: Option<i64>) -> (r: u8)
    ensures
        r == quality_of(asked),
{
    match asked {
        Some(n) => if n < 1 {
            1
        } else if n > 100 {
            100
        } else {
            n as u8
        },
        None => 90,
    }
}

/// The content type of a resized image: one with transparency stays a PNG.
pub fn resized_type(has_alpha: bool) -> (r: &'static str)
    ensures
        r@ == if has_alpha {
            "image/png"@
        } else {
            "image/jpeg"@
        },
{
    if has_alpha {
        "image/png"
    } else {
        "image/jpeg"
    }
}

// ---------------------------------------------------------------------------
// What a request for an image comes to

/// How a request for an image at an address is answered. `bounded`: whether the
/// client gives a greatest width or a greatest height.
pub open spec fn answer_for(url: Option<Seq<char>>, proxied: bool, bounded: bool) -> ImagePlan {
    match url {
        Some(u) => if u.len() == 0 {
            ImagePlan::NotFound
        } else if proxied && bounded {
            ImagePlan::Resize
        } else if proxied {
            ImagePlan::Proxy
        } else {
            ImagePlan::Redirect
        },
        None => ImagePlan::NotFound,
    }
}

/// An image without an address is not found. Any other is fetched only where
/// images are proxied, and resized only where the client gives a bound.
pub proof fn law_image_answers(url: Option<Seq<char>>, proxied: bool, bounded: bool)
    ensures
        answer_for(url, proxied, bounded) == ImagePlan::NotFound <==> url is None || url->0.len()
            == 0,
        url is Some && url->0.len() > 0 ==> {
            &&& answer_for(url, proxied, bounded) == ImagePlan::Redirect <==> !proxied
            &&& answer_for(url, proxied, bounded) == ImagePlan::Resize <==> proxied && bounded
            &&& answer_for(url, proxied, bounded) == ImagePlan::Proxy <==> proxied && !bounded
        },
{
}

proof fn lemma_no_piece(s: Seq<char>, c: char)
    requires
        !s.contains(c),
    ensures
        position(s, c) == s.len(),
        split(s, c) == seq![s],
        s.take(s.len() as int) == s,
{
    assert forall|i: int| 0 <= i < s.len() implies #[trigger] s[i] != c by {
        assert(s.contains(s[i]));
    }
    lemma_position(s, c, s.len() as int);
    assert(s.take(s.len() as int) =~= s);
}

/// The path of an image is its type and, behind a slash, its number; the type
/// alone means the first image, and an extension changes nothing.
pub proof fn law_image_paths(name: Seq<char>, n: u64, ext: Seq<char>)
    requires
        !name.contains('/') && !name.contains('.'),
        !ext.contains('/'),
    ensures
        path_type(name) == lower(name),
        path_index(name) == 0,
        path_type(name + seq!['/'] + nat_text(n as nat)) == lower(name),
        path_index(name + seq!['/'] + nat_text(n as nat)) == n,
        path_type(name.push('.') + ext) == lower(name),
        path_index(name + seq!['/'] + (nat_text(n as nat).push('.') + ext)) == n,
{
    let digits = nat_text(n as nat);
    let full = name.push('.') + ext;
    let numbered = digits.push('.') + ext;
    lemma_nat_text(n as nat);
    assert(is_digit(digits[0]));
    assert(!digits.contains('/') && !digits.contains('.')) by {
        if digits.contains('/') {
            let i = choose|i: int| 0 <= i < digits.len() && digits[i] == '/';
            assert(is_digit(digits[i]));
        }
        if digits.contains('.') {
            let i = choose|i: int| 0 <= i < digits.len() && digits[i] == '.';
            assert(is_digit(digits[i]));
        }
    }
    lemma_no_piece(name, '/');
    lemma_no_piece(name, '.');
    lemma_no_piece(digits, '.');
    lemma_split_push(name, digits, '/');
    assert(!full.contains('/')) by {
        if full.contains('/') {
            let i = choose|i: int| 0 <= i < full.len() && full[i] == '/';
            if i < name.len() {
                assert(name[i] == '/');
            } else if i > name.len() {
                assert(ext[i - name.len() - 1] == '/');
            }
        }
    }
    assert(!numbered.contains('/')) by {
        if numbered.contains('/') {
            let i = choose|i: int| 0 <= i < numbered.len() && numbered[i] == '/';
            if i < digits.len() {
                assert(digits[i] == '/');
            } else if i > digits.len() {
                assert(ext[i - digits.len() - 1] == '/');
            }
        }
    }
    lemma_no_piece(full, '/');
    lemma_split_push(name, numbered, '/');
    assert forall|i: int| 0 <= i < name.len() implies #[trigger] full[i] != '.' by {
        assert(full[i] == name[i]);
        assert(name.contains(name[i]));
    }
    lemma_position(full, '.', name.len() as int);
    assert(full.take(name.len() as int) =~= name);
    assert forall|i: int| 0 <= i < digits.len() implies #[trigger] numbered[i] != '.' by {
        assert(numbered[i] == digits[i]);
        assert(digits.contains(digits[i]));
    }
    lemma_position(numbered, '.', digits.len() as int);
    assert(numbered.take(digits.len() as int) =~= digits);
    assert(seq![name].push(digits)[0] == name && seq![name].push(digits)[1] == digits);
    assert(seq![name].push(numbered)[1] == numbered);
}

/// The owner of an image is the item or the person that is named; nothing else
/// has images.
pub proof fn law_image_owners(n: i64)
    requires
        n > 0,
    ensures
        owner_of(id_text(IdKind::Item, n as int)) == Some(ImageOwner::Item(n)),
        owner_of(id_text(IdKind::People, n as int)) == Some(ImageOwner::Person(n)),
        owner_of(id_text(IdKind::Library, n as int)) is None,
        owner_of(id_text(IdKind::Genre, n as int)) is None,
        row_of(id_text(IdKind::Image, n as int), IdKind::Image) == Some(n),
{
    law_id_round_trip(IdKind::Item, n);
    law_id_round_trip(IdKind::People, n);
    law_id_round_trip(IdKind::Library, n);
    law_id_round_trip(IdKind::Genre, n);
    law_id_round_trip(IdKind::Image, n);
}

/// A bound is what the client asks for, at least one pixel; without one it is
/// the size of the image. A quality is what the client asks for, within one and
/// a hundred; without one it is ninety.
pub proof fn law_bounds_and_quality(n: i64, size: u32)
    ensures
        1 <= n <= u32::MAX ==> size_limit(Some(n), size) == n,
        n < 1 ==> size_limit(Some(n), size) == 1,
        size > 0 ==> size_limit(None, size) == size,
        size_limit(None, 0) == 1,
        1 <= n <= 100 ==> quality_of(Some(n)) == n,
        n < 1 ==> quality_of(Some(n)) == 1,
        n > 100 ==> quality_of(Some(n)) == 100,
        quality_of(None) == 90,
{
}

/// An image with an alpha channel is written as PNG, and any other as JPEG of
/// the quality asked for.
pub proof fn law_encodings(img: image::DynamicImage, quality: u8, out: Seq<u8>, kind: Seq<char>)
    requires
        encoded(img, quality) == Some((out, kind)),
    ensures
        picture(img).alpha ==> kind == "image/png"@ && png_bytes(img) == Some(out),
        !picture(img).alpha ==> kind == "image/jpeg"@ && jpeg_bytes(img, quality) == Some(out),
{
}

/// An image that has the size asked for stays as it is; any other comes within
/// the bounds and reaches one of them, and keeps its alpha channel.
pub proof fn law_resized_images(
    shown: image::DynamicImage,
    img: image::DynamicImage,
    width: u32,
    height: u32,
)
    requires
        shows(shown, img, width, height),
    ensures
        picture(img).width == width && picture(img).height == height ==> shown == img,
        picture(shown).alpha == picture(img).alpha,
        picture(img).width != width || picture(img).height != height ==> 1 <= picture(shown).width
            <= width && 1 <= picture(shown).height <= height && (picture(shown).width == width
            || picture(shown).height == height),
{
}

} // verus!
