use vstd::prelude::*;
use vstd::string::*;
use vstd::utf8::{encode_utf8, is_continuation_byte};

verus! {

/// Side of a square block texture, in pixels.
pub const TEXTURE_SIZE: usize = 16;

/// One texture pixel: red, green, blue, alpha.
pub type PixelRGBA = [u8; 4];

/// The pixel shown where a colour cannot be read: opaque magenta.
pub open spec fn magenta() -> Seq<u8> {
    seq![255u8, 0u8, 255u8, 255u8]
}

/// A pixel as written in a block file.
#[derive(Debug, Clone, PartialEq, Eq)]
pub enum PixelValue {
    /// `[r, g, b]`, opaque.
    RGB([u8; 3]),
    /// `[r, g, b, a]`.
    RGBA([u8; 4]),
    /// `"#RRGGBB"` or `"#RRGGBBAA"`.
    Hex(String),
    /// Index into a palette.
    Index(u8),
}

/// `t` with its leading `#` bytes removed.
pub open spec fn trim_hashes(t: Seq<u8>) -> Seq<u8>
    decreases t.len(),
{
    if t.len() > 0 && t[0] == 35u8 {
        trim_hashes(t.drop_first())
    } else {
        t
    }
}

/// Value of the byte `c` as a digit in base `radix`, if it is one (`0-9`, then `a-z` or `A-Z`).
pub open spec fn digit_value(c: u8, radix: int) -> Option<int> {
    let v: int = if 48 <= c <= 57 {
        c - 48
    } else if 97 <= c <= 122 {
        c - 97 + 10
    } else if 65 <= c <= 90 {
        c - 65 + 10
    } else {
        radix
    };
    if v < radix {
        Some(v)
    } else {
        None
    }
}

/// Value of a run of digits in base `radix`, if every byte is one.
pub open spec fn digits_value(t: Seq<u8>, radix: int) -> Option<int>
    decreases t.len(),
{
    if t.len() == 0 {
        Some(0)
    } else {
        match (digits_value(t.drop_last(), radix), digit_value(t.last(), radix)) {
            (Some(a), Some(d)) => Some(a * radix + d),
            _ => None,
        }
    }
}

/// What `u8::from_str_radix` reads from the bytes `t`: an optional `+` followed by at least one
/// digit, with a value that fits a `u8`.
pub open spec fn spec_u8_from_str_radix(t: Seq<u8>, radix: int) -> Option<u8> {
    let digits = if t.len() > 1 && t[0] == 43u8 {
        t.drop_first()
    } else {
        t
    };
    if digits.len() == 0 {
        None
    } else {
        match digits_value(digits, radix) {
            Some(v) => if v <= 255 {
                Some(v as u8)
            } else {
                None
            },
            None => None,
        }
    }
}

/// The hexadecimal byte written at `t[i..i + 2]`, or `default` when it cannot be read.
pub open spec fn hex_field(t: Seq<u8>, i: int, default: u8) -> u8 {
    match spec_u8_from_str_radix(t.subrange(i, i + 2), 16) {
        Some(v) => v,
        None => default,
    }
}

/// The colour written as `#RRGGBB` or `#RRGGBBAA` in the UTF-8 bytes `b`: leading `#`s are
/// skipped; a component that cannot be read falls back to magenta's (255, 0, 255, 255); a text
/// of another length gives magenta.
pub open spec fn spec_parse_hex_color(b: Seq<u8>) -> Seq<u8> {
    let t = trim_hashes(b);
    if t.len() == 6 {
        seq![hex_field(t, 0, 255), hex_field(t, 2, 0), hex_field(t, 4, 255), 255u8]
    } else if t.len() == 8 {
        seq![hex_field(t, 0, 255), hex_field(t, 2, 0), hex_field(t, 4, 255), hex_field(t, 6, 255)]
    } else {
        magenta()
    }
}

/// The two-byte pieces of a six- or eight-byte colour text start on character boundaries (the
/// text is cut into byte slices there).
pub open spec fn hex_color_cuttable(b: Seq<u8>) -> bool {
    let t = trim_hashes(b);
    &&& t.len() == 6 ==> !is_continuation_byte(t[2]) && !is_continuation_byte(t[4])
    &&& t.len() == 8 ==> !is_continuation_byte(t[2]) && !is_continuation_byte(t[4])
        && !is_continuation_byte(t[6])
}

/// Skipping one more `#` keeps the trimmed text.
proof fn lemma_trim_step(b: Seq<u8>, i: int)
    requires
        0 <= i < b.len(),
        b[i] == 35u8,
    ensures
        trim_hashes(b.subrange(i, b.len() as int)) == trim_hashes(b.subrange(i + 1, b.len() as int)),
{
    assert(b.subrange(i, b.len() as int).drop_first() =~= b.subrange(i + 1, b.len() as int));
}

/// The byte with an ASCII capital letter turned into its small letter; other bytes unchanged.
pub open spec fn ascii_lower(c: u8) -> u8 {
    if 65 <= c <= 90 {
        (c + 32) as u8
    } else {
        c
    }
}

/// The text with every ASCII capital letter turned into its small letter.
pub open spec fn lower_text(b: Seq<u8>) -> Seq<u8> {
    b.map_values(|c: u8| ascii_lower(c))
}

/// Law: the hexadecimal digits are `0`-`9` with values 0 to 9 and the letters `a`-`f` and
/// `A`-`F`, in either case, with values 10 to 15; no other byte is a hexadecimal digit.
pub proof fn lemma_hex_digit_values(c: u8)
    ensures
        digit_value(c, 16) == if 48 <= c <= 57 {
            Some(c - 48)
        } else if 97 <= c <= 102 {
            Some(c - 87)
        } else if 65 <= c <= 70 {
            Some(c - 55)
        } else {
            None::<int>
        },
        digit_value(ascii_lower(c), 16) == digit_value(c, 16),
        digit_value(65, 16) == Some(10int) && digit_value(70, 16) == Some(15int),
        digit_value(97, 16) == Some(10int) && digit_value(102, 16) == Some(15int),
{
}

proof fn lemma_digits_lower(t: Seq<u8>, radix: int)
    ensures
        digits_value(lower_text(t), radix) == digits_value(t, radix),
    decreases t.len(),
{
    if t.len() > 0 {
        lemma_digits_lower(t.drop_last(), radix);
        assert(lower_text(t).drop_last() =~= lower_text(t.drop_last()));
        assert(lower_text(t).last() == ascii_lower(t.last()));
    } else {
        assert(lower_text(t).len() == 0);
    }
}

proof fn lemma_trim_lower(b: Seq<u8>)
    ensures
        trim_hashes(lower_text(b)) == lower_text(trim_hashes(b)),
    decreases b.len(),
{
    if b.len() > 0 && b[0] == 35u8 {
        assert(lower_text(b).drop_first() =~= lower_text(b.drop_first()));
        lemma_trim_lower(b.drop_first());
    }
}

proof fn lemma_hex_field_lower(t: Seq<u8>, i: int, default: u8)
    requires
        0 <= i,
        i + 2 <= t.len(),
    ensures
        hex_field(lower_text(t), i, default) == hex_field(t, i, default),
{
    let u = t.subrange(i, i + 2);
    assert(lower_text(t).subrange(i, i + 2) =~= lower_text(u));
    let lu = lower_text(u);
    if u.len() > 1 && u[0] == 43u8 {
        assert(lu[0] == 43u8);
        assert(lu.drop_first() =~= lower_text(u.drop_first()));
        lemma_digits_lower(u.drop_first(), 16);
    } else {
        assert(!(lu.len() > 1 && lu[0] == 43u8));
        lemma_digits_lower(u, 16);
    }
}

/// The value of a hexadecimal digit byte (meaningful when it is one).
pub open spec fn hex_value(c: u8) -> int {
    match digit_value(c, 16) {
        Some(v) => v,
        None => 0,
    }
}

proof fn lemma_hex_pair_value(t: Seq<u8>, i: int, default: u8)
    requires
        0 <= i,
        i + 2 <= t.len(),
        digit_value(t[i], 16) is Some,
        digit_value(t[i + 1], 16) is Some,
    ensures
        hex_field(t, i, default) == 16 * hex_value(t[i]) + hex_value(t[i + 1]),
{
    let u = t.subrange(i, i + 2);
    assert(u[0] == t[i] && u[1] == t[i + 1]);
    assert(u.drop_last() =~= seq![t[i]]);
    assert(seq![t[i]].drop_last() =~= Seq::<u8>::empty());
    reveal_with_fuel(digits_value, 3);
}

/// Law: a colour written with six hexadecimal digits after its `#`s reads as the opaque colour
/// whose red, green and blue are the values of the digit pairs, most significant digit first.
pub proof fn lemma_hex_color_value(b: Seq<u8>)
    requires
        trim_hashes(b).len() == 6,
        forall|j: int| 0 <= j < 6 ==> #[trigger] digit_value(trim_hashes(b)[j], 16) is Some,
    ensures
        ({
            let t = trim_hashes(b);
            spec_parse_hex_color(b) == seq![
                (16 * hex_value(t[0]) + hex_value(t[1])) as u8,
                (16 * hex_value(t[2]) + hex_value(t[3])) as u8,
                (16 * hex_value(t[4]) + hex_value(t[5])) as u8,
                255u8,
            ]
        }),
{
    let t = trim_hashes(b);
    assert(digit_value(t[0], 16) is Some && digit_value(t[1], 16) is Some);
    assert(digit_value(t[2], 16) is Some && digit_value(t[3], 16) is Some);
    assert(digit_value(t[4], 16) is Some && digit_value(t[5], 16) is Some);
    lemma_hex_pair_value(t, 0, 255);
    lemma_hex_pair_value(t, 2, 0);
    lemma_hex_pair_value(t, 4, 255);
}

/// Law: reading a colour does not depend on the case of its letters: a text reads as the
/// same colour as the text with its capital letters made small (`#00FF00` as `#00ff00`).
pub proof fn lemma_hex_color_case(b: Seq<u8>)
    ensures
        spec_parse_hex_color(lower_text(b)) == spec_parse_hex_color(b),
{
    lemma_trim_lower(b);
    let t = trim_hashes(b);
    if t.len() == 6 || t.len() == 8 {
        lemma_hex_field_lower(t, 0, 255);
        lemma_hex_field_lower(t, 2, 0);
        lemma_hex_field_lower(t, 4, 255);
        if t.len() == 8 {
            lemma_hex_field_lower(t, 6, 255);
        }
    }
}

/// Value of one hexadecimal digit byte.
fn hex_digit(c: u8) -> (r: Option<u8>)
    ensures
        r == match digit_value(c, 16) {
            Some(v) => Some(v as u8),
            None => None::<u8>,
        },
{
    if 48 <= c && c <= 57 {
        Some(c - 48)
    } else if 97 <= c && c <= 102 {
        Some(c - 97 + 10)
    } else if 65 <= c && c <= 70 {
        Some(c - 65 + 10)
    } else {
        None
    }
}

/// Reads the two bytes `b[i..i + 2]` as `u8::from_str_radix(.., 16)` does.
fn parse_hex_pair(b: &[u8], i: usize) -> (r: Option<u8>)
    requires
        i + 2 <= b@.len(),
    ensures
        r == spec_u8_from_str_radix(b@.subrange(i as int, i + 2), 16),
{
    let ghost t = b@.subrange(i as int, i + 2);
    let c0 = b[i];
    let c1 = b[i + 1];
    proof {
        assert(t[0] == c0 && t[1] == c1);
        assert(t.drop_last() =~= seq![c0]);
        assert(seq![c0].drop_last() =~= Seq::<u8>::empty());
        assert(t.drop_first() =~= seq![c1]);
        assert(seq![c1].drop_last() =~= Seq::<u8>::empty());
        reveal_with_fuel(digits_value, 3);
    }
    if c0 == 43 {
        match hex_digit(c1) {
            Some(d) => Some(d),
            None => None,
        }
    } else {
        match (hex_digit(c0), hex_digit(c1)) {
            (Some(h), Some(l)) => Some(h * 16 + l),
            _ => None,
        }
    }
}

/// Whether a colour text can be cut into two-byte pieces where `parse_hex_color` reads it.
pub fn hex_color_is_cuttable(s: &str) -> (r: bool)
    ensures
        r == hex_color_cuttable(s.spec_bytes()),
{
    let b = s.as_bytes();
    let mut start: usize = 0;
    assert(b@.subrange(0, b@.len() as int) =~= b@);
    while start < b.len() && b[start] == 35
        invariant
            0 <= start <= b@.len(),
            trim_hashes(b@) == trim_hashes(b@.subrange(start as int, b@.len() as int)),
        decreases b@.len() - start,
    {
        proof {
            lemma_trim_step(b@, start as int);
        }
        start = start + 1;
    }
    let ghost t = b@.subrange(start as int, b@.len() as int);
    proof {
        assert(t.len() > 0 ==> t[0] != 35u8);
        assert(trim_hashes(t) == t);
    }
    let n = b.len() - start;
    let cont = |c: u8| -> (r: bool)
        ensures
            r == is_continuation_byte(c),
        { 0x80 <= c && c <= 0xbf };
    if n == 6 {
        !cont(b[start + 2]) && !cont(b[start + 4])
    } else if n == 8 {
        !cont(b[start + 2]) && !cont(b[start + 4]) && !cont(b[start + 6])
    } else {
        true
    }
}

/// Reads a colour written `#RRGGBB` or `#RRGGBBAA`.
pub fn parse_hex_color(s: &str) -> (r: PixelRGBA)
    requires
        hex_color_cuttable(s.spec_bytes()),
    ensures
        r@ == spec_parse_hex_color(s.spec_bytes()),
{
    let b = s.as_bytes();
    let mut start: usize = 0;
    assert(b@.subrange(0, b@.len() as int) =~= b@);
    while start < b.len() && b[start] == 35
        invariant
            0 <= start <= b@.len(),
            trim_hashes(b@) == trim_hashes(b@.subrange(start as int, b@.len() as int)),
        decreases b@.len() - start,
    {
        proof {
            lemma_trim_step(b@, start as int);
        }
        start = start + 1;
    }
    let ghost t = b@.subrange(start as int, b@.len() as int);
    proof {
        assert(t.len() > 0 ==> t[0] != 35u8);
        assert(trim_hashes(t) == t);
    }
    let n = b.len() - start;
    let r: PixelRGBA = if n == 6 {
        let red = match parse_hex_pair(b, start) { Some(v) => v, None => 255 };
        let green = match parse_hex_pair(b, start + 2) { Some(v) => v, None => 0 };
        let blue = match parse_hex_pair(b, start + 4) { Some(v) => v, None => 255 };
        proof {
            assert(t.subrange(0, 2) =~= b@.subrange(start as int, start + 2));
            assert(t.subrange(2, 4) =~= b@.subrange(start + 2, start + 4));
            assert(t.subrange(4, 6) =~= b@.subrange(start + 4, start + 6));
        }
        [red, green, blue, 255]
    } else if n == 8 {
        let red = match parse_hex_pair(b, start) { Some(v) => v, None => 255 };
        let green = match parse_hex_pair(b, start + 2) { Some(v) => v, None => 0 };
        let blue = match parse_hex_pair(b, start + 4) { Some(v) => v, None => 255 };
        let alpha = match parse_hex_pair(b, start + 6) { Some(v) => v, None => 255 };
        proof {
            assert(t.subrange(0, 2) =~= b@.subrange(start as int, start + 2));
            assert(t.subrange(2, 4) =~= b@.subrange(start + 2, start + 4));
            assert(t.subrange(4, 6) =~= b@.subrange(start + 4, start + 6));
            assert(t.subrange(6, 8) =~= b@.subrange(start + 6, start + 8));
        }
        [red, green, blue, alpha]
    } else {
        [255, 0, 255, 255]
    };
    assert(r@ =~= spec_parse_hex_color(s.spec_bytes()));
    r
}

impl PixelValue {
    /// The pixel can be converted without a panic: a hex colour text can be cut where it is read.
    pub open spec fn readable(&self) -> bool {
        match self {
            PixelValue::Hex(s) => hex_color_cuttable(encode_utf8(s@)),
            _ => true,
        }
    }

    /// The pixel's RGBA value: RGB is made opaque, hex text is parsed, and a palette index
    /// (which has no colour of its own) shows as magenta.
    pub open spec fn spec_rgba(&self) -> Seq<u8> {
        match self {
            PixelValue::RGB(c) => seq![c@[0], c@[1], c@[2], 255u8],
            PixelValue::RGBA(c) => c@,
            PixelValue::Hex(s) => spec_parse_hex_color(encode_utf8(s@)),
            PixelValue::Index(_) => magenta(),
        }
    }

    /// Whether the pixel can be converted without a panic (see `readable`).
    pub fn is_readable(&self) -> (r: bool)
        ensures
            r == self.readable(),
    {
        match self {
            PixelValue::Hex(s) => hex_color_is_cuttable(s.as_str()),
            _ => true,
        }
    }

    /// The pixel's RGBA value.
    pub fn to_rgba(&self) -> (r: PixelRGBA)
        requires
            self.readable(),
        ensures
            r@ == self.spec_rgba(),
    {
        match self {
            PixelValue::RGB(c) => {
                let r: PixelRGBA = [c[0], c[1], c[2], 255];
                assert(r@ =~= self.spec_rgba());
                r
            },
            PixelValue::RGBA(rgba) => *rgba,
            PixelValue::Hex(s) => parse_hex_color(s.as_str()),
            PixelValue::Index(_) => {
                let r: PixelRGBA = [255, 0, 255, 255];
                assert(r@ =~= magenta());
                r
            },
        }
    }
}


/// Kinds of generated texture.
#[derive(Debug, Clone, Copy, PartialEq, Eq)]
pub enum ProceduralType {
    Noise,
    Gradient,
    Checker,
    Bricks,
    Planks,
    Ore,
}

/// Parameters of a generated texture. The floating-point parameters are kept as their IEEE-754
/// bit patterns (`f32::to_bits`), which the texture code never reads.
#[derive(Debug, Clone, PartialEq, Eq)]
pub struct ProceduralParams {
    pub color1: Option<PixelValue>,
    pub color2: Option<PixelValue>,
    pub scale_bits: Option<u32>,
    pub seed: Option<u32>,
    pub variation_bits: Option<u32>,
}

impl Default for ProceduralParams {
    /// No colours and no parameters.
    fn default() -> (r: Self)
        ensures
            r.color1 is None,
            r.color2 is None,
            r.scale_bits is None,
            r.seed is None,
            r.variation_bits is None,
    {
        ProceduralParams { color1: None, color2: None, scale_bits: None, seed: None, variation_bits: None }
    }
}

/// Texture of one block face.
#[derive(Debug, Clone, PartialEq, Eq)]
pub enum TextureDef {
    /// A PNG file.
    File(String),
    /// Inline pixels, row by row.
    Pixels { width: u8, height: u8, pixels: Vec<PixelValue> },
    /// A palette and one palette index per pixel.
    Indexed { palette: Vec<PixelValue>, indices: Vec<u8>, width: u8, height: u8 },
    /// A generated texture.
    Procedural { proc_type: ProceduralType, params: ProceduralParams },
}

impl Default for TextureDef {
    /// The texture used when none is given: the file `missing.png`.
    fn default() -> (r: Self)
        ensures
            r matches TextureDef::File(f) && f@ == "missing.png"@,
    {
        TextureDef::File(String::from_str("missing.png"))
    }
}

impl Default for FaceTextures {
    /// The default texture on every face.
    fn default() -> (r: Self)
        ensures
            r matches FaceTextures::All(TextureDef::File(f)) && f@ == "missing.png"@,
    {
        FaceTextures::All(TextureDef::default())
    }
}

/// Textures of a block's faces.
#[derive(Debug, Clone, PartialEq, Eq)]
pub enum FaceTextures {
    /// One texture for every face.
    All(TextureDef),
    /// One texture per face; `side` stands in for the four sides.
    PerFace {
        top: Option<TextureDef>,
        bottom: Option<TextureDef>,
        north: Option<TextureDef>,
        south: Option<TextureDef>,
        east: Option<TextureDef>,
        west: Option<TextureDef>,
        side: Option<TextureDef>,
    },
}

/// Colour(s) of a block as RGB triples of IEEE-754 bit patterns (`f32::to_bits`).
#[derive(Debug, Clone, Copy, PartialEq, Eq)]
pub enum ColorDef {
    /// One colour for every face.
    Uniform([u32; 3]),
    /// Colours of the top, the sides and the bottom.
    PerFace { top: [u32; 3], side: [u32; 3], bottom: [u32; 3] },
}

impl ColorDef {
    /// Colour of the top face.
    pub fn top(&self) -> (r: [u32; 3])
        ensures
            r == match *self {
                ColorDef::Uniform(c) => c,
                ColorDef::PerFace { top, .. } => top,
            },
    {
        match self {
            ColorDef::Uniform(c) => *c,
            ColorDef::PerFace { top, .. } => *top,
        }
    }

    /// Colour of the side faces.
    pub fn side(&self) -> (r: [u32; 3])
        ensures
            r == match *self {
                ColorDef::Uniform(c) => c,
                ColorDef::PerFace { side, .. } => side,
            },
    {
        match self {
            ColorDef::Uniform(c) => *c,
            ColorDef::PerFace { side, .. } => *side,
        }
    }

    /// Colour of the bottom face.
    pub fn bottom(&self) -> (r: [u32; 3])
        ensures
            r == match *self {
                ColorDef::Uniform(c) => c,
                ColorDef::PerFace { bottom, .. } => bottom,
            },
    {
        match self {
            ColorDef::Uniform(c) => *c,
            ColorDef::PerFace { bottom, .. } => *bottom,
        }
    }
}

/// Bit pattern of the single-precision number one half, the default grey component.
pub const HALF_BITS: u32 = 0x3F00_0000;

/// Bit pattern of the single-precision number one, the default hardness.
pub const ONE_BITS: u32 = 0x3F80_0000;

impl Default for ColorDef {
    /// The colour of a block that gives none: uniform mid grey.
    fn default() -> (r: Self)
        ensures
            r == ColorDef::Uniform([HALF_BITS, HALF_BITS, HALF_BITS]),
    {
        ColorDef::Uniform([HALF_BITS, HALF_BITS, HALF_BITS])
    }
}

/// Category of a block, for grouping in the inventory.
#[derive(Debug, Clone, Copy, PartialEq, Eq, Structural, Hash)]
pub enum BlockCategory {
    Basic,
    Stone,
    Ore,
    Wood,
    Nature,
    Building,
    Metal,
}

impl Default for BlockCategory {
    fn default() -> (r: Self)
        ensures
            r == BlockCategory::Basic,
    {
        BlockCategory::Basic
    }
}

/// Sounds of a block.
#[derive(Debug, Clone, PartialEq, Eq)]
pub struct BlockSounds {
    pub place: Option<String>,
    pub break_sound: Option<String>,
    pub step: Option<String>,
}

impl Default for BlockSounds {
    /// No sounds.
    fn default() -> (r: Self)
        ensures
            r.place is None,
            r.break_sound is None,
            r.step is None,
    {
        BlockSounds { place: None, break_sound: None, step: None }
    }
}

/// A block as defined in a block file.
#[derive(Debug, Clone)]
pub struct BlockDefinition {
    /// Unique text id, such as `"stone"`.
    pub id: String,
    /// Numeric id (the block kind).
    pub numeric_id: u8,
    /// Name shown to the player.
    pub name: String,
    /// Colour(s).
    pub color: ColorDef,
    /// Bit pattern of the time it takes to break the block by hand.
    pub hardness_bits: u32,
    pub transparent: bool,
    pub emissive: bool,
    /// Light level, 0 to 15.
    pub light_level: u8,
    /// Blocks movement.
    pub solid: bool,
    pub breakable: bool,
    pub category: BlockCategory,
    pub textures: Option<FaceTextures>,
    pub sounds: BlockSounds,
    /// Extra tags for mods.
    pub tags: Vec<String>,
}

/// The default of the `solid` and `breakable` fields of a block file: true.
pub fn default_true() -> (r: bool)
    ensures
        r,
{
    true
}

/// The format version assumed when a block file gives none: `"1.0"`.
pub fn default_version() -> (r: String)
    ensures
        r@ == "1.0"@,
{
    String::from_str("1.0")
}

impl Default for BlockDefinition {
    /// The unknown block: id `"unknown"`, numeric id 0, named `"Unknown"`, grey, hardness one,
    /// opaque, dark, solid, breakable, basic, with no textures, sounds or tags.
    fn default() -> (r: Self)
        ensures
            r.id@ == "unknown"@,
            r.numeric_id == 0,
            r.name@ == "Unknown"@,
            r.color == ColorDef::Uniform([HALF_BITS, HALF_BITS, HALF_BITS]),
            r.hardness_bits == ONE_BITS,
            !r.transparent,
            !r.emissive,
            r.light_level == 0,
            r.solid,
            r.breakable,
            r.category == BlockCategory::Basic,
            r.textures is None,
            r.sounds.place is None && r.sounds.break_sound is None && r.sounds.step is None,
            r.tags@.len() == 0,
    {
        BlockDefinition {
            id: String::from_str("unknown"),
            numeric_id: 0,
            name: String::from_str("Unknown"),
            color: ColorDef::default(),
            hardness_bits: ONE_BITS,
            transparent: false,
            emissive: false,
            light_level: 0,
            solid: true,
            breakable: true,
            category: BlockCategory::Basic,
            textures: None,
            sounds: BlockSounds::default(),
            tags: Vec::new(),
        }
    }
}

/// A block file: a format version and the blocks it defines.
#[derive(Debug, Clone)]
pub struct BlocksFile {
    pub version: String,
    pub blocks: Vec<BlockDefinition>,
}

} // verus!
