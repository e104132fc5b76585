//! Synthetic file-type icons: a filled square in the category's color, with a
//! tab along the top edge for folders, encoded once per category.
use vstd::prelude::*;
use vstd::string::*;
use vstd::arithmetic::div_mod::lemma_fundamental_div_mod_converse;
use crate::bitmap::Bitmap;
use crate::cache::{find, lemma_find_entry, SequenceCache};
use crate::codec::{base64_encode, base64_of, png_encode, png_of};
use crate::graphics::{GraphicsBackend, GraphicsProtocol};
use crate::kitty::{join, tile_frames, tile_sequence};
use crate::text::same_text;

verus! {

/// Side of an icon, in pixels.
pub const ICON_SIZE: u32 = 16;

pub open spec fn folder_color() -> Seq<u8> {
    seq![100u8, 180u8, 255u8, 255u8]
}

pub open spec fn default_color() -> Seq<u8> {
    seq![180u8, 180u8, 180u8, 255u8]
}

/// The categories with a color of their own.
pub open spec fn is_known_category(c: Seq<char>) -> bool {
    c == "rs"@ || c == "py"@ || c == "js"@ || c == "ts"@ || c == "md"@ || c == "toml"@
        || c == "json"@ || c == "yaml"@ || c == "png"@ || c == "jpg"@ || c == "gif"@
}

/// RGBA color of a file category.
pub open spec fn category_color(c: Seq<char>) -> Seq<u8> {
    if c == "rs"@ {
        seq![255u8, 100u8, 50u8, 255u8]
    } else if c == "py"@ {
        seq![50u8, 150u8, 255u8, 255u8]
    } else if c == "js"@ || c == "ts"@ {
        seq![255u8, 220u8, 50u8, 255u8]
    } else if c == "md"@ {
        seq![100u8, 200u8, 100u8, 255u8]
    } else if c == "toml"@ || c == "json"@ || c == "yaml"@ {
        seq![200u8, 150u8, 255u8, 255u8]
    } else if c == "png"@ || c == "jpg"@ || c == "gif"@ {
        seq![255u8, 100u8, 150u8, 255u8]
    } else {
        default_color()
    }
}

/// RGBA color of an icon.
pub open spec fn icon_color(c: Seq<char>, is_dir: bool) -> Seq<u8> {
    if is_dir { folder_color() } else { category_color(c) }
}

/// Whether pixel (`x`, `y`) is painted: the square from 2 to 13 on both axes,
/// and for folders the tab from column 2 to 7 on row 1.
pub open spec fn painted(x: int, y: int, is_dir: bool) -> bool {
    (2 <= x < 14 && 2 <= y < 14) || (is_dir && y == 1 && 2 <= x < 8)
}

/// Byte `k` of an icon's RGBA buffer; unpainted pixels are transparent black.
pub open spec fn icon_byte(c: Seq<char>, is_dir: bool, k: int) -> u8 {
    let p = k / 4;
    if painted(p % 16, p / 16, is_dir) { icon_color(c, is_dir)[k % 4] } else { 0 }
}

/// The RGBA buffer of an icon.
pub open spec fn icon_pixels(c: Seq<char>, is_dir: bool) -> Seq<u8> {
    Seq::new(1024, |k: int| icon_byte(c, is_dir, k))
}

/// The escape sequence of an icon under a protocol: two cells wide, one high.
pub open spec fn icon_sequence(protocol: GraphicsProtocol, c: Seq<char>, is_dir: bool) -> Seq<char> {
    let payload = base64_of(png_of(16, 16, icon_pixels(c, is_dir)));
    match protocol {
        GraphicsProtocol::Kitty => join(tile_frames("f=100,a=T,t=d,c=2,r=1"@, payload)),
        GraphicsProtocol::ITerm2 => "\x1b]1337;File=inline=1;width=2;height=1:"@ + payload + "\x07"@,
        _ => Seq::empty(),
    }
}

/// The cache key of a request: `d` for every folder (all folders look alike),
/// `f` followed by the category for a file, so no category meets a folder.
pub open spec fn icon_key(c: Seq<char>, is_dir: bool) -> Seq<char> {
    if is_dir { "d"@ } else { "f"@ + c }
}

/// The icon sequence that a cache key stands for.
pub open spec fn key_sequence(protocol: GraphicsProtocol, key: Seq<char>) -> Seq<char> {
    if key == "d"@ {
        icon_sequence(protocol, Seq::empty(), true)
    } else {
        icon_sequence(protocol, key.subrange(1, key.len() as int), false)
    }
}

proof fn lemma_key_sequence(protocol: GraphicsProtocol, c: Seq<char>, is_dir: bool)
    ensures
        key_sequence(protocol, icon_key(c, is_dir)) == icon_sequence(protocol, c, is_dir),
{
    reveal_strlit("d");
    reveal_strlit("f");
    if is_dir {
        assert(icon_pixels(c, true) =~= icon_pixels(Seq::empty(), true));
    } else {
        let key = "f"@ + c;
        assert(key[0] == 'f');
        assert(key != "d"@);
        assert(key.subrange(1, key.len() as int) =~= c);
    }
}

/// Every painted square pixel of an icon has the icon's color; that color is the
/// folder color for any folder request, whatever its category, and the default
/// color for a file of a category without a color of its own.
pub proof fn lemma_icon_colors(c: Seq<char>, is_dir: bool, x: int, y: int)
    requires
        2 <= x < 14,
        2 <= y < 14,
    ensures
        icon_pixels(c, is_dir).subrange((y * 16 + x) * 4, (y * 16 + x) * 4 + 4) == icon_color(c, is_dir),
        is_dir ==> icon_color(c, is_dir) == folder_color(),
        !is_dir && !is_known_category(c) ==> icon_color(c, is_dir) == default_color(),
{
    let base = (y * 16 + x) * 4;
    assert forall|j: int| 0 <= j < 4 implies #[trigger] icon_pixels(c, is_dir)[base + j] == icon_color(c, is_dir)[j] by {
        lemma_fundamental_div_mod_converse(base + j, 4, y * 16 + x, j);
        lemma_fundamental_div_mod_converse(y * 16 + x, 16, y, x);
    }
    assert(icon_pixels(c, is_dir).subrange(base, base + 4) =~= icon_color(c, is_dir));
}

fn color_bytes(file_type: &str, is_dir: bool) -> (r: (u8, u8, u8, u8))
    ensures
        seq![r.0, r.1, r.2, r.3] == icon_color(file_type@, is_dir),
{
    let r = if is_dir {
        (100, 180, 255, 255)
    } else if same_text(file_type, "rs") {
        (255, 100, 50, 255)
    } else if same_text(file_type, "py") {
        (50, 150, 255, 255)
    } else if same_text(file_type, "js") || same_text(file_type, "ts") {
        (255, 220, 50, 255)
    } else if same_text(file_type, "md") {
        (100, 200, 100, 255)
    } else if same_text(file_type, "toml") || same_text(file_type, "json") || same_text(file_type, "yaml") {
        (200, 150, 255, 255)
    } else if same_text(file_type, "png") || same_text(file_type, "jpg") || same_text(file_type, "gif") {
        (255, 100, 150, 255)
    } else {
        (180, 180, 180, 255)
    };
    assert(seq![r.0, r.1, r.2, r.3] =~= icon_color(file_type@, is_dir));
    r
}

/// Draws the icon of a file category, or the folder icon.
pub fn generate_icon(file_type: &str, is_dir: bool) -> (r: Bitmap)
    ensures
        r.width == ICON_SIZE,
        r.height == ICON_SIZE,
        r.pixels@ == icon_pixels(file_type@, is_dir),
        r.wf(),
{
    let color = color_bytes(file_type, is_dir);
    let ghost col = icon_color(file_type@, is_dir);
    let mut pixels: Vec<u8> = Vec::new();
    let mut k: usize = 0;
    while k < 1024
        invariant
            k <= 1024,
            pixels@.len() == k,
            seq![color.0, color.1, color.2, color.3] == col,
            col == icon_color(file_type@, is_dir),
            forall|j: int| 0 <= j < k ==> pixels@[j] == icon_byte(file_type@, is_dir, j),
        decreases 1024 - k,
    {
        let p = k / 4;
        let x = p % 16;
        let y = p / 16;
        let on = (2 <= x && x < 14 && 2 <= y && y < 14) || (is_dir && y == 1 && 2 <= x && x < 8);
        let channel = k % 4;
        let b: u8 = if !on {
            0
        } else if channel == 0 {
            color.0
        } else if channel == 1 {
            color.1
        } else if channel == 2 {
            color.2
        } else {
            color.3
        };
        assert(b == icon_byte(file_type@, is_dir, k as int)) by {
            assert(col[0] == color.0 && col[1] == color.1 && col[2] == color.2 && col[3] == color.3);
        }
        pixels.push(b);
        k = k + 1;
    }
    assert(pixels@ =~= icon_pixels(file_type@, is_dir));
    Bitmap { width: ICON_SIZE, height: ICON_SIZE, pixels }
}

/// Icons encoded for the terminal, one per category, kept for reuse.
pub struct IconManager {
    cache: SequenceCache,
    backend: GraphicsBackend,
}

impl IconManager {
    /// The entries stored so far, oldest first.
    pub closed spec fn entries(&self) -> Seq<(Seq<char>, Seq<char>)> {
        self.cache@
    }

    pub closed spec fn protocol(&self) -> GraphicsProtocol {
        self.backend.protocol
    }

    /// Every stored sequence is the icon that its key stands for.
    pub closed spec fn wf(&self) -> bool {
        forall|i: int| 0 <= i < self.cache@.len() ==> #[trigger] self.cache@[i].1 == key_sequence(
            self.backend.protocol,
            self.cache@[i].0,
        )
    }

    /// An empty icon table for the given backend.
    pub fn new(backend: GraphicsBackend) -> (r: Self)
        ensures
            r.wf(),
            r.entries() == Seq::<(Seq<char>, Seq<char>)>::empty(),
            r.protocol() == backend.protocol,
    {
        IconManager { cache: SequenceCache::new(), backend }
    }

    /// The escape sequence that shows the icon of a file category (or of a
    /// folder); empty when the protocol shows no pixels. A stored sequence is
    /// returned as it is; otherwise the icon is drawn, encoded and stored.
    /// Either way it is the icon of the request.
    pub fn get_icon_sequence(&mut self, file_type: &str, is_dir: bool) -> (r: String)
        requires
            old(self).wf(),
        ensures
            final(self).wf(),
            final(self).protocol() == old(self).protocol(),
            old(self).protocol() == GraphicsProtocol::Fallback ==> r@ == Seq::<char>::empty()
                && final(self).entries() == old(self).entries(),
            old(self).protocol() != GraphicsProtocol::Fallback ==> r@ == icon_sequence(old(self).protocol(), file_type@, is_dir)
                && match find(old(self).entries(), icon_key(file_type@, is_dir)) {
                    Some(v) => r@ == v && final(self).entries() == old(self).entries(),
                    None => final(self).entries() == old(self).entries().push((icon_key(file_type@, is_dir), r@)),
                },
    {
        if !self.backend.supports_images() {
            return String::new();
        }
        let mut key = if is_dir { String::from_str("d") } else { String::from_str("f") };
        if !is_dir {
            key.append(file_type);
        }
        assert(key@ == icon_key(file_type@, is_dir));
        proof {
            lemma_key_sequence(self.backend.protocol, file_type@, is_dir);
        }
        if let Some(cached) = self.cache.get(key.as_str()) {
            proof {
                lemma_find_entry(self.cache@, key@);
                let i = choose|i: int| 0 <= i < self.cache@.len() && #[trigger] self.cache@[i] == (key@, cached@);
                assert(self.cache@[i].1 == key_sequence(self.backend.protocol, self.cache@[i].0));
            }
            return cached;
        }
        let icon = generate_icon(file_type, is_dir);
        let sequence = self.encode_icon(&icon, Ghost(file_type@), Ghost(is_dir));
        self.cache.insert(key, sequence.clone());
        assert(self.cache@.last() == (key@, sequence@));
        sequence
    }

    fn encode_icon(&self, icon: &Bitmap, Ghost(c): Ghost<Seq<char>>, Ghost(is_dir): Ghost<bool>) -> (r: String)
        requires
            icon.width == 16,
            icon.height == 16,
            icon.pixels@ == icon_pixels(c, is_dir),
        ensures
            r@ == icon_sequence(self.backend.protocol, c, is_dir),
    {
        match self.backend.protocol {
            GraphicsProtocol::Kitty => {
                let png = png_encode(icon.width, icon.height, icon.pixels.as_slice());
                let encoded = base64_encode(png.as_slice());
                tile_sequence("f=100,a=T,t=d,c=2,r=1", encoded.as_str())
            },
            GraphicsProtocol::ITerm2 => {
                let png = png_encode(icon.width, icon.height, icon.pixels.as_slice());
                let encoded = base64_encode(png.as_slice());
                let mut out = String::from_str("\x1b]1337;File=inline=1;width=2;height=1:");
                out.append(encoded.as_str());
                out.append("\x07");
                out
            },
            _ => String::new(),
        }
    }
}

/// The text after the last `.` of a name, or the whole name when it has none.
pub open spec fn extension_of(name: Seq<char>) -> Seq<char> {
    if exists|i: int| 0 <= i < name.len() && name[i] == '.' {
        let i = choose|i: int| 0 <= i < name.len() && name[i] == '.' && forall|j: int| i < j < name.len() ==> name[j] != '.';
        name.subrange(i + 1, name.len() as int)
    } else {
        name
    }
}

/// The extension of a file name (see `extension_of`).
pub fn get_extension(filename: &str) -> (r: &str)
    ensures
        r@ == extension_of(filename@),
{
    let n = filename.unicode_len();
    let mut i = n;
    while i > 0
        invariant
            i <= n,
            n == filename@.len(),
            forall|j: int| i <= j < n ==> filename@[j] != '.',
        decreases i,
    {
        if filename.get_char(i - 1) == '.' {
            let ghost d = (i - 1) as int;
            assert(forall|j: int| d < j < n ==> filename@[j] != '.');
            proof {
                let c = choose|c: int| 0 <= c < filename@.len() && filename@[c] == '.' && forall|j: int| c < j < filename@.len() ==> filename@[j] != '.';
                if c < d {
                    assert(filename@[d] != '.');
                } else if c > d {
                    assert(filename@[c] != '.');
                }
            }
            return filename.substring_char(i, n);
        }
        i = i - 1;
    }
    filename.substring_char(0, n)
}

} // verus!
