//! Thumbnails of image files: sizing, encoding and a cache keyed by path.
use vstd::prelude::*;
use vstd::string::*;
use crate::bitmap::Bitmap;
use crate::cache::{find, SequenceCache};
use crate::codec::{base64_encode, base64_of, png_encode, png_of, resize_triangle, triangle_resized};
use crate::graphics::{GraphicsBackend, GraphicsProtocol};
use crate::kitty::{join, tile_frames, tile_sequence};
use crate::text::{decimal_of, push_decimal};

verus! {

/// The bounding box of a thumbnail, in pixels on each side.
pub const THUMBNAIL_SIZE: u32 = 200;

/// `THUMBNAIL_SIZE * part / whole`, rounded to the nearest integer (halves up).
pub open spec fn scaled(part: nat, whole: nat) -> nat {
    if whole == 0 { 0 } else { (400 * part + whole) / (2 * whole) }
}

/// Size of the thumbnail of a `width` by `height` image: the longer side becomes
/// the bound, the other scales in proportion, rounded, and is at least 1.
pub open spec fn thumbnail_dims(width: nat, height: nat) -> (nat, nat) {
    if width > height {
        (200, if scaled(height, width) == 0 { 1 } else { scaled(height, width) })
    } else {
        (if scaled(width, height) == 0 { 1 } else { scaled(width, height) }, 200)
    }
}

/// Computes `thumbnail_dims`.
pub fn thumbnail_size(width: u32, height: u32) -> (r: (u32, u32))
    ensures
        (r.0 as nat, r.1 as nat) == thumbnail_dims(width as nat, height as nat),
        1 <= r.0 <= THUMBNAIL_SIZE,
        1 <= r.1 <= THUMBNAIL_SIZE,
{
    let (part, whole) = if width > height { (height as u64, width as u64) } else { (width as u64, height as u64) };
    let q: u64 = if whole == 0 { 0 } else { (400 * part + whole) / (2 * whole) };
    assert(q <= 200) by (nonlinear_arith)
        requires
            part <= whole,
            whole == 0 ==> q == 0,
            whole > 0 ==> q == (400 * part + whole) / (2 * whole),
    ;
    let side: u32 = if q == 0 { 1 } else { q as u32 };
    if width > height { (THUMBNAIL_SIZE, side) } else { (side, THUMBNAIL_SIZE) }
}

/// A thumbnail keeps the source's proportions up to rounding:
/// `|out_w / out_h - w / h| < 1 / min(out_w, out_h)`, written here with the
/// denominators multiplied out. It holds whenever the source is less than twice
/// as wide as it is high; wider sources can miss it, because rounding the short
/// side moves the ratio by up to `w / (2 * h * out_h)`.
pub proof fn lemma_thumbnail_aspect(width: nat, height: nat)
    requires
        width > 0,
        height > 0,
        width < 2 * height,
    ensures
        ({
            let (ow, oh) = thumbnail_dims(width, height);
            let m = if ow < oh { ow } else { oh };
            ow > 0 && oh > 0 && (if ow * height >= width * oh { ow * height - width * oh } else { width * oh - ow * height }) * m < oh * height
        }),
{
    let (ow, oh) = thumbnail_dims(width, height);
    if width > height {
        let q = scaled(height, width);
        assert(2 * width * q <= 400 * height + width && 400 * height + width < 2 * width * q + 2 * width) by (nonlinear_arith)
            requires
                q == (400 * height + width) / (2 * width),
                width > 0,
        ;
        assert(q >= 100 && q <= 200) by (nonlinear_arith)
            requires
                2 * width * q <= 400 * height + width,
                400 * height + width < 2 * width * q + 2 * width,
                width > height,
                width < 2 * height,
        ;
        assert((if 200 * height >= width * q { 200 * height - width * q } else { width * q - 200 * height }) * q < q * height) by (nonlinear_arith)
            requires
                2 * width * q <= 400 * height + width,
                400 * height + width < 2 * width * q + 2 * width,
                width < 2 * height,
                q >= 100,
        ;
    } else {
        let q = scaled(width, height);
        assert(2 * height * q <= 400 * width + height && 400 * width + height < 2 * height * q + 2 * height) by (nonlinear_arith)
            requires
                q == (400 * width + height) / (2 * height),
                height > 0,
        ;
        assert(q <= 200) by (nonlinear_arith)
            requires
                2 * height * q <= 400 * width + height,
                width <= height,
                height > 0,
        ;
        let w1 = if q == 0 { 1 } else { q };
        assert((if w1 * height >= width * 200 { w1 * height - width * 200 } else { width * 200 - w1 * height }) * w1 < 200 * height) by (nonlinear_arith)
            requires
                2 * height * q <= 400 * width + height,
                400 * width + height < 2 * height * q + 2 * height,
                q <= 200,
                w1 == if q == 0 { 1 } else { q },
                width > 0,
                width <= height,
        ;
    }
}

/// Terminal cells a `width` by `height` pixel image covers, at 12 by 24 pixels a cell.
pub open spec fn cell_dims(width: nat, height: nat) -> (nat, nat) {
    ((width + 11) / 12, (height + 23) / 24)
}

/// The control data of a thumbnail frame.
pub open spec fn thumbnail_control(width: nat, height: nat) -> Seq<char> {
    "f=100,a=T,t=d,c="@ + decimal_of(cell_dims(width, height).0) + ",r="@ + decimal_of(cell_dims(width, height).1)
}

/// The escape sequence that shows an already resized RGBA image.
pub open spec fn encoded_thumbnail(protocol: GraphicsProtocol, width: u32, height: u32, rgba: Seq<u8>) -> Seq<char> {
    let payload = base64_of(png_of(width, height, rgba));
    match protocol {
        GraphicsProtocol::Kitty => join(tile_frames(thumbnail_control(width as nat, height as nat), payload)),
        GraphicsProtocol::ITerm2 => "\x1b]1337;File=inline=1;preserveAspectRatio=1:"@ + payload + "\x07"@,
        _ => Seq::empty(),
    }
}

/// The escape sequence of the thumbnail of `image`.
pub open spec fn thumbnail_of(protocol: GraphicsProtocol, image: Bitmap) -> Seq<char> {
    let (w, h) = thumbnail_dims(image.width as nat, image.height as nat);
    encoded_thumbnail(protocol, w as u32, h as u32, triangle_resized(image.width, image.height, image.pixels@, w as u32, h as u32))
}

/// A decoded image that can be thumbnailed: its buffer matches its size, and
/// the intermediate buffer of resizing (`width * 800` bytes) is addressable.
pub open spec fn resizable(image: Bitmap) -> bool {
    image.wf() && image.width as nat * 800 <= usize::MAX
}

/// The sequence built from what decoding gave, if it gave a usable image.
pub open spec fn built(protocol: GraphicsProtocol, loaded: Option<Bitmap>) -> Option<Seq<char>> {
    match loaded {
        Some(image) => if resizable(image) { Some(thumbnail_of(protocol, image)) } else { None },
        None => None,
    }
}

/// Whether `c` is `t` up to ASCII case.
pub open spec fn same_letter(c: char, t: char) -> bool {
    c == t || ('A' <= c <= 'Z' && c as u32 + 32 == t as u32)
}

/// Whether `s` equals the lower-case `t` up to ASCII case.
pub open spec fn same_word(s: Seq<char>, t: Seq<char>) -> bool {
    s.len() == t.len() && forall|i: int| 0 <= i < s.len() ==> same_letter(#[trigger] s[i], t[i])
}

/// Index of the last `c` in `s`, or -1.
pub open spec fn last_index_of(s: Seq<char>, c: char) -> int
    decreases s.len(),
{
    if s.len() == 0 {
        -1
    } else if s.last() == c {
        s.len() - 1
    } else {
        last_index_of(s.drop_last(), c)
    }
}

/// A path without its trailing separators and trailing `.` components, which
/// name no file of their own.
pub open spec fn trim_tail(path: Seq<char>) -> Seq<char>
    decreases path.len(),
{
    if path.len() > 0 && path.last() == '/' {
        trim_tail(path.drop_last())
    } else if path.len() >= 2 && path.last() == '.' && path[path.len() - 2] == '/' {
        trim_tail(path.drop_last())
    } else {
        path
    }
}

/// The extension of the last component of a `/`-separated path (trailing
/// separators and `.` components left out): the text after its last `.`,
/// unless that dot is its first character or it has none.
pub open spec fn path_extension(path: Seq<char>) -> Option<Seq<char>> {
    let path = trim_tail(path);
    let name = path.subrange(last_index_of(path, '/') + 1, path.len() as int);
    let d = last_index_of(name, '.');
    if d <= 0 { None } else { Some(name.subrange(d + 1, name.len() as int)) }
}

/// Whether a path names an image of a supported format, by its extension.
pub open spec fn is_image_path(path: Seq<char>) -> bool {
    path_extension(path) matches Some(e) && (same_word(e, "png"@) || same_word(e, "jpg"@)
        || same_word(e, "jpeg"@) || same_word(e, "gif"@) || same_word(e, "webp"@)
        || same_word(e, "bmp"@) || same_word(e, "ico"@))
}

proof fn lemma_last_index_bounds(s: Seq<char>, c: char)
    ensures
        -1 <= last_index_of(s, c) < s.len(),
        last_index_of(s, c) >= 0 ==> s[last_index_of(s, c)] == c,
    decreases s.len(),
{
    if s.len() > 0 && s.last() != c {
        lemma_last_index_bounds(s.drop_last(), c);
    }
}

/// Index of the last `c` in `s`, if any.
fn find_last(s: &str, c: char) -> (r: Option<usize>)
    ensures
        match r {
            Some(i) => i == last_index_of(s@, c),
            None => last_index_of(s@, c) == -1,
        },
{
    let n = s.unicode_len();
    let mut i = n;
    assert(s@.take(n as int) =~= s@);
    while i > 0
        invariant
            i <= n,
            n == s@.len(),
            last_index_of(s@, c) == last_index_of(s@.take(i as int), c),
        decreases i,
    {
        assert(s@.take(i as int).drop_last() =~= s@.take(i - 1));
        if s.get_char(i - 1) == c {
            return Some(i - 1);
        }
        i = i - 1;
    }
    assert(s@.take(0) =~= Seq::<char>::empty());
    None
}

fn same_word_exec(s: &str, t: &str) -> (r: bool)
    ensures
        r == same_word(s@, t@),
{
    let n = s.unicode_len();
    if n != t.unicode_len() {
        return false;
    }
    let mut i: usize = 0;
    while i < n
        invariant
            n == s@.len(),
            n == t@.len(),
            i <= n,
            forall|j: int| 0 <= j < i ==> same_letter(#[trigger] s@[j], t@[j]),
        decreases n - i,
    {
        let c = s.get_char(i);
        let d = t.get_char(i);
        if !(c == d || ('A' <= c && c <= 'Z' && c as u32 + 32 == d as u32)) {
            return false;
        }
        i = i + 1;
    }
    true
}

/// Whether a path names an image of a supported format (see `is_image_path`).
pub fn is_image_file(path: &str) -> (r: bool)
    ensures
        r == is_image_path(path@),
{
    let full = path.unicode_len();
    let mut n = full;
    let mut done = false;
    assert(path@.take(n as int) =~= path@);
    while !done
        invariant
            n <= full,
            full == path@.len(),
            trim_tail(path@) == trim_tail(path@.take(n as int)),
            done ==> trim_tail(path@.take(n as int)) == path@.take(n as int),
        decreases n + if done { 0int } else { 1int },
    {
        if n == 0 {
            assert(path@.take(0) =~= Seq::<char>::empty());
            done = true;
        } else {
            let last = path.get_char(n - 1);
            let dot_component = n >= 2 && last == '.' && path.get_char(n - 2) == '/';
            if last != '/' && !dot_component {
                done = true;
            } else {
                assert(path@.take(n as int).drop_last() =~= path@.take(n - 1));
                n = n - 1;
            }
        }
    }
    let path = path.substring_char(0, n);
    proof {
        lemma_last_index_bounds(path@, '/');
    }
    let start = match find_last(path, '/') {
        Some(k) => k + 1,
        None => 0,
    };
    let name = path.substring_char(start, n);
    proof {
        lemma_last_index_bounds(name@, '.');
    }
    let dot = match find_last(name, '.') {
        Some(k) => k,
        None => 0,
    };
    if dot == 0 {
        return false;
    }
    let ext = name.substring_char(dot + 1, name.unicode_len());
    same_word_exec(ext, "png") || same_word_exec(ext, "jpg") || same_word_exec(ext, "jpeg")
        || same_word_exec(ext, "gif") || same_word_exec(ext, "webp") || same_word_exec(ext, "bmp")
        || same_word_exec(ext, "ico")
}

/// Thumbnails encoded for the terminal, kept by path for reuse.
pub struct ThumbnailCache {
    cache: SequenceCache,
    backend: GraphicsBackend,
}

impl ThumbnailCache {
    /// The entries stored so far, oldest first.
    pub closed spec fn entries(&self) -> Seq<(Seq<char>, Seq<char>)> {
        self.cache@
    }

    pub closed spec fn protocol(&self) -> GraphicsProtocol {
        self.backend.protocol
    }

    /// An empty thumbnail table for the given backend.
    pub fn new(backend: GraphicsBackend) -> (r: Self)
        ensures
            r.entries() == Seq::<(Seq<char>, Seq<char>)>::empty(),
            r.protocol() == backend.protocol,
    {
        ThumbnailCache { cache: SequenceCache::new(), backend }
    }

    /// Whether a path names an image of a supported format.
    pub fn is_image_file(path: &str) -> (r: bool)
        ensures
            r == is_image_path(path@),
    {
        is_image_file(path)
    }

    /// The escape sequence of the thumbnail of a decoded image: resized to fit
    /// the bounding box, then encoded for the backend's protocol. Resizing needs
    /// an intermediate buffer of `width * 800` bytes, which must be addressable.
    pub fn thumbnail_sequence(&self, image: &Bitmap) -> (r: String)
        requires
            resizable(*image),
        ensures
            r@ == thumbnail_of(self.protocol(), *image),
    {
        let (w, h) = thumbnail_size(image.width, image.height);
        assert(w as nat * h as nat * 4 <= 160000 && image.width as nat * h as nat * 4 <= image.width as nat * 800) by (nonlinear_arith)
            requires
                w <= 200,
                h <= 200,
        ;
        let pixels = resize_triangle(image.width, image.height, &image.pixels, w, h);
        let thumbnail = Bitmap { width: w, height: h, pixels };
        self.encode_thumbnail(&thumbnail)
    }

    /// The escape sequence that shows an image as it is: a tile-protocol
    /// transfer covering `ceil(width / 12)` by `ceil(height / 24)` cells, an
    /// inline-file frame, or nothing for the protocols without an encoder.
    pub fn encode_thumbnail(&self, image: &Bitmap) -> (r: String)
        requires
            image.wf(),
        ensures
            r@ == encoded_thumbnail(self.protocol(), image.width, image.height, image.pixels@),
    {
        match self.backend.protocol {
            GraphicsProtocol::Kitty => {
                let png = png_encode(image.width, image.height, image.pixels.as_slice());
                let encoded = base64_encode(png.as_slice());
                let mut control = String::from_str("f=100,a=T,t=d,c=");
                push_decimal(&mut control, (image.width as u64 + 11) / 12);
                control.append(",r=");
                push_decimal(&mut control, (image.height as u64 + 23) / 24);
                assert(control@ =~= thumbnail_control(image.width as nat, image.height as nat));
                tile_sequence(control.as_str(), encoded.as_str())
            },
            GraphicsProtocol::ITerm2 => {
                let png = png_encode(image.width, image.height, image.pixels.as_slice());
                let encoded = base64_encode(png.as_slice());
                let mut out = String::from_str("\x1b]1337;File=inline=1;preserveAspectRatio=1:");
                out.append(encoded.as_str());
                out.append("\x07");
                out
            },
            _ => String::new(),
        }
    }

    /// Completes a fetch of `path` with what decoding the file gave: a stored
    /// sequence is returned as it is; otherwise the thumbnail of a usable image
    /// is built, stored under the path and returned, and nothing comes back (and
    /// nothing is stored) for a failed decode or an unusable image.
    pub fn build_thumbnail(&mut self, path: &str, loaded: Option<Bitmap>) -> (r: Option<String>)
        ensures
            final(self).protocol() == old(self).protocol(),
            find(old(self).entries(), path@) is Some ==> (r matches Some(s)
                && Some(s@) == find(old(self).entries(), path@) && final(self).entries() == old(self).entries()),
            find(old(self).entries(), path@) is None ==> match built(old(self).protocol(), loaded) {
                Some(v) => (r matches Some(s) && s@ == v)
                    && final(self).entries() == old(self).entries().push((path@, v)),
                None => r is None && final(self).entries() == old(self).entries(),
            },
    {
        if let Some(cached) = self.cache.get(path) {
            return Some(cached);
        }
        match loaded {
            None => None,
            Some(image) => {
                assert(image.width as u128 * image.height as u128 * 4 <= u128::MAX) by (nonlinear_arith)
                    requires
                        image.width <= u32::MAX,
                        image.height <= u32::MAX,
                ;
                let expected: u128 = image.width as u128 * image.height as u128 * 4;
                if image.pixels.len() as u128 != expected || image.width as u128 * 800 > usize::MAX as u128 {
                    return None;
                }
                let sequence = self.thumbnail_sequence(&image);
                self.cache.insert(String::from_str(path), sequence.clone());
                Some(sequence)
            },
        }
    }

    /// The thumbnail sequence of an image file. Nothing for a path that does
    /// not name an image. A stored sequence is returned as it is, and `load` is
    /// not called. Otherwise `load` decodes the file, and whatever it gives is
    /// handled as `build_thumbnail` says.
    pub fn get_thumbnail<F: FnOnce() -> Option<Bitmap>>(&mut self, path: &str, load: F) -> (r: Option<String>)
        requires
            load.requires(()),
        ensures
            final(self).protocol() == old(self).protocol(),
            !is_image_path(path@) ==> r is None && final(self).entries() == old(self).entries(),
            is_image_path(path@) && find(old(self).entries(), path@) is Some ==> (r matches Some(s)
                && Some(s@) == find(old(self).entries(), path@) && final(self).entries() == old(self).entries()),
            is_image_path(path@) && find(old(self).entries(), path@) is None ==> exists|loaded: Option<Bitmap>|
                #[trigger] load.ensures((), loaded) && match built(old(self).protocol(), loaded) {
                    Some(v) => (r matches Some(s) && s@ == v)
                        && final(self).entries() == old(self).entries().push((path@, v)),
                    None => r is None && final(self).entries() == old(self).entries(),
                },
    {
        if !is_image_file(path) {
            return None;
        }
        if let Some(cached) = self.cache.get(path) {
            return Some(cached);
        }
        let loaded = load();
        let ghost returned = loaded;
        let r = self.build_thumbnail(path, loaded);
        assert(load.ensures((), returned));
        r
    }

    /// Forgets every stored thumbnail.
    pub fn clear(&mut self)
        ensures
            final(self).entries() == Seq::<(Seq<char>, Seq<char>)>::empty(),
            final(self).protocol() == old(self).protocol(),
    {
        self.cache.clear();
    }
}

} // verus!
