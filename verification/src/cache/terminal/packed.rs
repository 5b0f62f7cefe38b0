//! Packed terminal cells: a character and a style id in one `u64`, the
//! character's scalar value in the upper 32 bits and the style id in the lower
//! 32 bits, plus a table that deduplicates styles.

use vstd::prelude::*;

verus! {

/// Identifier of a style in a [`StyleTable`]; id 0 is the default style.
#[derive(Debug, Clone, Copy, PartialEq, Eq, Structural)]
pub struct StyleId(pub u32);

impl StyleId {
    /// The id of the default style.
    pub fn default_id() -> (res: StyleId)
        ensures
            res == StyleId(0),
    {
        StyleId(0)
    }
}

/// A terminal cell packed into a `u64`.
#[derive(Debug, Clone, Copy, PartialEq, Eq, Structural)]
pub struct PackedCell(u64);

/// The packing of a character and a style id.
pub open spec fn spec_pack(ch: char, style: StyleId) -> u64 {
    ((ch as u32) as int * 0x1_0000_0000 + style.0 as int) as u64
}

impl PackedCell {
    /// The raw packed value.
    pub closed spec fn raw_value(self) -> u64 {
        self.0
    }

    /// Wraps a raw packed value.
    pub fn from_raw(raw: u64) -> (res: PackedCell)
        ensures
            res.raw_value() == raw,
            res == PackedCell::spec_from_raw(raw),
    {
        PackedCell(raw)
    }

    /// Returns the raw packed value.
    pub fn raw(self) -> (res: u64)
        ensures
            res == self.raw_value(),
    {
        self.0
    }
}

impl From<u64> for PackedCell {
    fn from(raw: u64) -> (res: PackedCell) {
        PackedCell(raw)
    }
}

impl vstd::std_specs::convert::FromSpecImpl<u64> for PackedCell {
    open spec fn obeys_from_spec() -> bool {
        true
    }

    open spec fn from_spec(v: u64) -> PackedCell {
        PackedCell::spec_from_raw(v)
    }
}

impl From<PackedCell> for u64 {
    fn from(cell: PackedCell) -> (res: u64) {
        cell.0
    }
}

impl vstd::std_specs::convert::FromSpecImpl<PackedCell> for u64 {
    open spec fn obeys_from_spec() -> bool {
        true
    }

    open spec fn from_spec(v: PackedCell) -> u64 {
        v.raw_value()
    }
}

impl PackedCell {
    /// The cell whose raw packed value is `raw`.
    pub closed spec fn spec_from_raw(raw: u64) -> PackedCell {
        PackedCell(raw)
    }

    pub broadcast proof fn lemma_from_raw_value(raw: u64)
        ensures
            #[trigger] PackedCell::spec_from_raw(raw).raw_value() == raw,
    {
    }

    pub broadcast proof fn lemma_raw_value_injective(a: PackedCell, b: PackedCell)
        ensures
            #![trigger a.raw_value(), b.raw_value()]
            a.raw_value() == b.raw_value() ==> a == b,
    {
    }
}

/// `char::from_u32` of std: `Some(c)` with `c as u32 == v` exactly when `v` is
/// a Unicode scalar value (not a surrogate, at most 0x10FFFF), else `None`.
#[verifier::external_body]
fn char_from_u32(v: u32) -> (res: Option<char>)
    ensures
        res is Some <==> (v <= 0xD7FF || (0xE000 <= v && v <= 0x10FFFF)),
        res matches Some(c) ==> c as u32 == v,
{
    char::from_u32(v)
}

/// Packs a character and a style id into one cell.
pub fn pack_cell(ch: char, style: StyleId) -> (res: PackedCell)
    ensures
        res.raw_value() == spec_pack(ch, style),
        res == PackedCell::spec_from_raw(spec_pack(ch, style)),
{
    let code: u32 = ch as u32;
    let raw: u64 = (code as u64) * 0x1_0000_0000u64 + (style.0 as u64);
    PackedCell(raw)
}

/// Whether `v` is a Unicode scalar value.
pub open spec fn is_scalar_value(v: int) -> bool {
    0 <= v <= 0xD7FF || (0xE000 <= v && v <= 0x10FFFF)
}

/// The scalar value stored in the upper 32 bits of a packed cell.
pub open spec fn spec_unpack_code(raw: u64) -> int {
    raw as int / 0x1_0000_0000
}

/// The style id stored in the lower 32 bits of a packed cell.
pub open spec fn spec_unpack_style(raw: u64) -> StyleId {
    StyleId((raw % 0x1_0000_0000) as u32)
}

/// Splits a packed cell into its character and style id; upper bits that are
/// not a Unicode scalar value read as a space.
pub fn unpack_cell(cell: PackedCell) -> (res: (char, StyleId))
    ensures
        is_scalar_value(spec_unpack_code(cell.raw_value())) ==> res.0 as u32 == spec_unpack_code(cell.raw_value()),
        !is_scalar_value(spec_unpack_code(cell.raw_value())) ==> res.0 == ' ',
        res.1 == spec_unpack_style(cell.raw_value()),
{
    let raw = cell.0;
    let code: u32 = (raw / 0x1_0000_0000u64) as u32;
    let style: u32 = (raw % 0x1_0000_0000u64) as u32;
    let ch = match char_from_u32(code) {
        Some(c) => c,
        None => ' ',
    };
    (ch, StyleId(style))
}

/// Unpacking gives back what was packed.
pub proof fn law_unpack_pack(ch: char, style: StyleId)
    ensures
        is_scalar_value(spec_unpack_code(spec_pack(ch, style))),
        spec_unpack_code(spec_pack(ch, style)) == ch as u32,
        spec_unpack_style(spec_pack(ch, style)) == style,
{
    let c = ch as u32;
    assert(c <= 0xD7FF || (0xE000 <= c && c <= 0x10FFFF));
    assert((c as int * 0x1_0000_0000 + style.0 as int) / 0x1_0000_0000 == c) by (nonlinear_arith)
        requires
            0 <= style.0 < 0x1_0000_0000,
    ;
    assert((c as int * 0x1_0000_0000 + style.0 as int) % 0x1_0000_0000 == style.0) by (nonlinear_arith)
        requires
            0 <= style.0 < 0x1_0000_0000,
    ;
    assert(c as int * 0x1_0000_0000 + style.0 as int <= u64::MAX) by (nonlinear_arith)
        requires
            0 <= style.0 < 0x1_0000_0000,
            0 <= c <= 0x10FFFF,
    ;
}

/// Two characters with the same scalar value are the same character.
pub proof fn lemma_char_code_injective(a: char, b: char)
    ensures
        a as u32 == b as u32 ==> a == b,
{
}

/// Colours and attributes of a cell.
#[derive(Debug, Clone, Copy, PartialEq, Eq, Structural)]
pub struct Style {
    pub fg: u32,
    pub bg: u32,
    pub attrs: u8,
}

impl Style {
    /// The default style: default colours, no attributes.
    pub fn default_style() -> (res: Style)
        ensures
            res == spec_default_style(),
    {
        Style { fg: 0, bg: 0, attrs: 0 }
    }
}

pub open spec fn spec_default_style() -> Style {
    Style { fg: 0, bg: 0, attrs: 0 }
}

impl Default for Style {
    fn default() -> (res: Style)
        ensures
            res == spec_default_style(),
    {
        Style::default_style()
    }
}

/// A cell unpacked into its character and its style.
#[derive(Debug, Clone, Copy, PartialEq, Eq, Structural)]
pub struct Cell {
    pub ch: char,
    pub style: Style,
}

/// A table that gives each distinct style one id; id 0 is the default style.
pub struct StyleTable {
    styles: Vec<Style>,
}

impl View for StyleTable {
    type V = Seq<Style>;

    closed spec fn view(&self) -> Seq<Style> {
        self.styles@
    }
}

impl StyleTable {
    /// The default style stands at id 0, no style occurs twice and every id
    /// fits in a `u32`.
    pub open spec fn wf(&self) -> bool {
        &&& self@.len() >= 1
        &&& self@[0] == spec_default_style()
        &&& self@.no_duplicates()
        &&& self@.len() <= u32::MAX as nat + 1
    }

    /// A table holding only the default style.
    pub fn new() -> (res: StyleTable)
        ensures
            res.wf(),
            res@ == seq![spec_default_style()],
    {
        let mut styles: Vec<Style> = Vec::new();
        styles.push(Style::default_style());
        let res = StyleTable { styles };
        assert(res@ =~= seq![spec_default_style()]);
        res
    }

    /// The number of styles in the table.
    pub fn len(&self) -> (res: usize)
        ensures
            res == self@.len(),
    {
        self.styles.len()
    }

    /// The style with id `id`, if the table has one.
    pub fn get(&self, id: StyleId) -> (res: Option<Style>)
        ensures
            (id.0 as int) < self@.len() ==> res == Some(self@[id.0 as int]),
            (id.0 as int) >= self@.len() ==> res is None,
    {
        let i = id.0 as usize;
        if i < self.styles.len() {
            Some(self.styles[i])
        } else {
            None
        }
    }

    /// The id of `style`, added to the table if it is not there yet. When the
    /// table already holds every id a `u32` can name, an unknown style gets
    /// the default id.
    pub fn ensure_id(&mut self, style: Style) -> (res: StyleId)
        requires
            old(self).wf(),
        ensures
            final(self).wf(),
            old(self)@.contains(style) ==> final(self)@ == old(self)@ && final(self)@[res.0 as int] == style,
            !old(self)@.contains(style) && old(self)@.len() <= u32::MAX ==> final(self)@ == old(self)@.push(style)
                && res.0 == old(self)@.len(),
            !old(self)@.contains(style) && old(self)@.len() > u32::MAX ==> final(self)@ == old(self)@ && res
                == StyleId(0),
    {
        let n = self.styles.len();
        let mut i: usize = 0;
        while i < n
            invariant
                n == self@.len(),
                self.wf(),
                i <= n,
                forall|k: int| 0 <= k < i ==> self@[k] != style,
            decreases n - i,
        {
            if self.styles[i] == style {
                return StyleId(i as u32);
            }
            i = i + 1;
        }
        if n > u32::MAX as usize {
            return StyleId::default_id();
        }
        self.styles.push(style);
        proof {
            assert forall|a: int, b: int|
                0 <= a < self@.len() && 0 <= b < self@.len() && a != b implies self@[a] != self@[b] by {
                if a < n && b < n {
                    assert(old(self)@[a] != old(self)@[b]);
                }
            }
        }
        StyleId(n as u32)
    }
}

} // verus!
