//! The category palette: an ordered table of category names and colours.
//! A category's place in the table is the index that highlight events carry.

use vstd::prelude::*;
use crate::color::{is_rrggbb, parse_hex_color, rrggbb_color, Rgba};

verus! {

/// One category of the palette.
#[derive(Clone, Copy, Debug)]
pub struct PaletteEntry {
    pub name: &'static str,
    pub color: Rgba,
}

/// The palette as mathematics: the names and colours in table order, and the
/// colour of text that no category covers.
pub struct PaletteView {
    pub names: Seq<Seq<char>>,
    pub colors: Seq<Rgba>,
    pub fallback: Rgba,
}

/// An ordered table of categories. It is built once and never changed.
pub struct Palette {
    entries: Vec<PaletteEntry>,
    fallback: Rgba,
}

/// The colour of text outside every category: that of comments.
pub open spec fn standard_fallback() -> Rgba {
    Rgba { r: 0x6a, g: 0x99, b: 0x55, a: 255 }
}

/// The category names of the standard palette, in table order.
pub open spec fn standard_names() -> Seq<Seq<char>> {
    seq![
        "attribute"@,
        "constant"@,
        "function.builtin"@,
        "function"@,
        "keyword"@,
        "operator"@,
        "property"@,
        "punctuation"@,
        "punctuation.bracket"@,
        "punctuation.delimiter"@,
        "string"@,
        "string.special"@,
        "tag"@,
        "type"@,
        "type.builtin"@,
        "variable"@,
        "variable.builtin"@,
        "variable.parameter"@,
        "number"@,
        "comment"@,
    ]
}

/// The colours of the standard palette, in table order.
pub open spec fn standard_colors() -> Seq<Rgba> {
    seq![
        Rgba { r: 0x9c, g: 0xdc, b: 0xfe, a: 255 },
        Rgba { r: 0x56, g: 0x9c, b: 0xd6, a: 255 },
        Rgba { r: 0xc8, g: 0xc8, b: 0xc8, a: 255 },
        Rgba { r: 0xc8, g: 0xc8, b: 0xc8, a: 255 },
        Rgba { r: 0x56, g: 0x9c, b: 0xd6, a: 255 },
        Rgba { r: 0xb4, g: 0xb4, b: 0xb4, a: 255 },
        Rgba { r: 0xda, g: 0xda, b: 0xda, a: 255 },
        Rgba { r: 0xb4, g: 0xb4, b: 0xb4, a: 255 },
        Rgba { r: 0xb4, g: 0xb4, b: 0xb4, a: 255 },
        Rgba { r: 0xb4, g: 0xb4, b: 0xb4, a: 255 },
        Rgba { r: 0xce, g: 0x91, b: 0x78, a: 255 },
        Rgba { r: 0xd1, g: 0x69, b: 0x69, a: 255 },
        Rgba { r: 0x56, g: 0x9c, b: 0xd6, a: 255 },
        Rgba { r: 0x4e, g: 0xc9, b: 0xb0, a: 255 },
        Rgba { r: 0x4e, g: 0xc9, b: 0xb0, a: 255 },
        Rgba { r: 0xc8, g: 0xc8, b: 0xc8, a: 255 },
        Rgba { r: 0xc8, g: 0xc8, b: 0xc8, a: 255 },
        Rgba { r: 0x7f, g: 0x7f, b: 0x7f, a: 255 },
        Rgba { r: 0x56, g: 0x9c, b: 0xd6, a: 255 },
        Rgba { r: 0x6a, g: 0x99, b: 0x55, a: 255 },
    ]
}

/// Whether no name stands twice among `names`.
pub open spec fn no_name_twice(names: Seq<Seq<char>>) -> bool {
    forall|i: int, j: int| 0 <= i < j < names.len() ==> #[trigger] names[i] != #[trigger] names[j]
}

/// The standard palette is an ordered set: none of its names stands twice.
pub proof fn lemma_standard_names_differ()
    ensures
        standard_names().len() == 20,
        no_name_twice(standard_names()),
{
    reveal_strlit("attribute");
    reveal_strlit("constant");
    reveal_strlit("function.builtin");
    reveal_strlit("function");
    reveal_strlit("keyword");
    reveal_strlit("operator");
    reveal_strlit("property");
    reveal_strlit("punctuation");
    reveal_strlit("punctuation.bracket");
    reveal_strlit("punctuation.delimiter");
    reveal_strlit("string");
    reveal_strlit("string.special");
    reveal_strlit("tag");
    reveal_strlit("type");
    reveal_strlit("type.builtin");
    reveal_strlit("variable");
    reveal_strlit("variable.builtin");
    reveal_strlit("variable.parameter");
    reveal_strlit("number");
    reveal_strlit("comment");
    let names = standard_names();
    assert forall|i: int, j: int| 0 <= i < j < names.len() implies #[trigger] names[i]
        != #[trigger] names[j] by {
        let a = names[i];
        let b = names[j];
        if a.len() == b.len() {
            assert(a[0] != b[0] || a[1] != b[1] || a[a.len() - 1] != b[b.len() - 1]);
        }
    }
}

/// The colour of the category at `index`, or `fallback` where the table has
/// no such place.
pub open spec fn slot_color(colors: Seq<Rgba>, fallback: Rgba, index: usize) -> Rgba {
    if index < colors.len() {
        colors[index as int]
    } else {
        fallback
    }
}

/// One entry, its colour read from `#rrggbb` text.
fn entry(name: &'static str, hex: &'static str) -> (e: PaletteEntry)
    requires
        is_rrggbb(hex@),
    ensures
        e.name == name,
        e.color == rrggbb_color(hex@),
{
    match parse_hex_color(hex) {
        Some(color) => PaletteEntry { name, color },
        None => PaletteEntry { name, color: Rgba { r: 0, g: 0, b: 0, a: 0 } },
    }
}

impl View for Palette {
    type V = PaletteView;

    closed spec fn view(&self) -> PaletteView {
        PaletteView {
            names: self.entries@.map_values(|e: PaletteEntry| e.name@),
            colors: self.entries@.map_values(|e: PaletteEntry| e.color),
            fallback: self.fallback,
        }
    }
}

impl Palette {
    /// The palette of the editor: twenty categories, no name twice, and
    /// comments' green as the colour of everything else.
    pub fn standard() -> (palette: Palette)
        ensures
            palette@.names == standard_names(),
            palette@.colors == standard_colors(),
            palette@.fallback == standard_fallback(),
            no_name_twice(palette@.names),
    {
        proof {
            lemma_standard_names_differ();
            reveal_strlit("#9cdcfe");
            reveal_strlit("#569cd6");
            reveal_strlit("#C8C8C8");
            reveal_strlit("#569CD6");
            reveal_strlit("#b4b4b4");
            reveal_strlit("#DADADA");
            reveal_strlit("#ce9178");
            reveal_strlit("#d16969");
            reveal_strlit("#4EC9B0");
            reveal_strlit("#7F7F7F");
            reveal_strlit("#6A9955");
        }
        let mut entries: Vec<PaletteEntry> = Vec::new();
        entries.push(entry("attribute", "#9cdcfe"));
        entries.push(entry("constant", "#569cd6"));
        entries.push(entry("function.builtin", "#C8C8C8"));
        entries.push(entry("function", "#C8C8C8"));
        entries.push(entry("keyword", "#569CD6"));
        entries.push(entry("operator", "#b4b4b4"));
        entries.push(entry("property", "#DADADA"));
        entries.push(entry("punctuation", "#b4b4b4"));
        entries.push(entry("punctuation.bracket", "#b4b4b4"));
        entries.push(entry("punctuation.delimiter", "#b4b4b4"));
        entries.push(entry("string", "#ce9178"));
        entries.push(entry("string.special", "#d16969"));
        entries.push(entry("tag", "#569cd6"));
        entries.push(entry("type", "#4EC9B0"));
        entries.push(entry("type.builtin", "#4EC9B0"));
        entries.push(entry("variable", "#C8C8C8"));
        entries.push(entry("variable.builtin", "#C8C8C8"));
        entries.push(entry("variable.parameter", "#7F7F7F"));
        entries.push(entry("number", "#569cd6"));
        let comment = entry("comment", "#6A9955");
        entries.push(comment);
        let palette = Palette { entries, fallback: comment.color };
        assert(palette@.names =~= standard_names());
        assert(palette@.colors =~= standard_colors());
        palette
    }

    /// How many categories the table holds.
    pub fn len(&self) -> (n: usize)
        ensures
            n == self@.colors.len(),
            n == self@.names.len(),
    {
        self.entries.len()
    }

    /// The colour of text that no category covers.
    pub fn fallback(&self) -> (color: Rgba)
        ensures
            color == self@.fallback,
    {
        self.fallback
    }

    /// The colour of the category at `index`; the fallback colour where the
    /// table has no such place.
    pub fn color_at(&self, index: usize) -> (color: Rgba)
        ensures
            color == slot_color(self@.colors, self@.fallback, index),
    {
        if index < self.entries.len() {
            self.entries[index].color
        } else {
            self.fallback
        }
    }

    /// The category names in table order, as a grammar is configured with.
    pub fn names(&self) -> (names: Vec<&'static str>)
        ensures
            names@.len() == self@.names.len(),
            forall|i: int| 0 <= i < names@.len() ==> (#[trigger] names@[i])@ == self@.names[i],
    {
        let mut names: Vec<&'static str> = Vec::new();
        let mut i: usize = 0;
        while i < self.entries.len()
            invariant
                i <= self.entries.len(),
                names@.len() == i,
                forall|k: int| 0 <= k < i ==> (#[trigger] names@[k])@ == self.entries@[k].name@,
            decreases self.entries.len() - i,
        {
            names.push(self.entries[i].name);
            i += 1;
        }
        names
    }
}

} // verus!
