//! Font definitions and the font registry.
//!
//! A font couples a glyph atlas image with the tile and grid dimensions that
//! cut it into glyphs, and with the character map that assigns characters to
//! tiles. The registry is the owned, explicitly passed collection of loaded
//! fonts; it is filled once when the font assets arrive and read-only from
//! then on.

use vstd::prelude::*;

verus! {

use crate::charmap::CharMap;
use crate::pixbuf::Image;

/// One loaded bitmap font: a named glyph atlas cut into a grid of equally
/// sized tiles, with the character map of the atlas's layout.
pub struct FontDefinition {
    pub name: String,
    pub atlas: Image,
    pub tile_width: usize,
    pub tile_height: usize,
    pub grid_columns: usize,
    pub grid_rows: usize,
    pub char_map: CharMap,
}

impl FontDefinition {
    /// Well-formed font: a well-formed atlas, positive tile and grid
    /// dimensions, and the whole tile grid lying inside the atlas image.
    pub open spec fn wf(&self) -> bool {
        &&& self.atlas.wf()
        &&& self.tile_width > 0
        &&& self.tile_height > 0
        &&& self.grid_columns > 0
        &&& self.grid_rows > 0
        &&& self.grid_columns * self.tile_width <= self.atlas.spec_width()
        &&& self.grid_rows * self.tile_height <= self.atlas.spec_height()
    }
}

/// Why a request could not be served.
#[derive(Clone, Copy, Debug, PartialEq, Eq, Structural)]
pub enum FontError {
    /// The named font is not in the registry.
    NotFound,
}

/// The position of the first font of that name, if any is registered.
pub open spec fn find_named(fonts: Seq<FontDefinition>, name: Seq<char>) -> Option<int>
    decreases fonts.len(),
{
    if fonts.len() == 0 {
        None
    } else if fonts[0].name@ == name {
        Some(0)
    } else {
        match find_named(fonts.drop_first(), name) {
            Some(i) => Some(i + 1),
            None => None,
        }
    }
}

/// `find_named` answers with the first font of the name: the index it gives
/// carries the name and no earlier one does; `None` means no font does.
pub proof fn lemma_find_named(fonts: Seq<FontDefinition>, name: Seq<char>)
    ensures
        match find_named(fonts, name) {
            Some(i) => 0 <= i < fonts.len() && fonts[i].name@ == name && (forall|j: int|
                0 <= j < i ==> fonts[j].name@ != name),
            None => forall|j: int| 0 <= j < fonts.len() ==> fonts[j].name@ != name,
        },
    decreases fonts.len(),
{
    if fonts.len() == 0 {
    } else if fonts[0].name@ == name {
    } else {
        lemma_find_named(fonts.drop_first(), name);
        match find_named(fonts.drop_first(), name) {
            Some(i) => {
                assert(fonts.drop_first()[i] == fonts[i + 1]);
                assert forall|j: int| 0 <= j < i + 1 implies fonts[j].name@ != name by {
                    if j > 0 {
                        assert(fonts[j] == fonts.drop_first()[j - 1]);
                    }
                }
            },
            None => {
                assert forall|j: int| 0 <= j < fonts.len() implies fonts[j].name@ != name by {
                    if j > 0 {
                        assert(fonts[j] == fonts.drop_first()[j - 1]);
                    }
                }
            },
        }
    }
}

/// Whichever font of the name comes first is what `find_named` answers.
proof fn lemma_find_named_converse(fonts: Seq<FontDefinition>, name: Seq<char>, i: int)
    requires
        0 <= i < fonts.len(),
        fonts[i].name@ == name,
        forall|j: int| 0 <= j < i ==> fonts[j].name@ != name,
    ensures
        find_named(fonts, name) == Some(i),
{
    lemma_find_named(fonts, name);
    match find_named(fonts, name) {
        Some(k) => {
            if k < i {
            } else if k > i {
            }
        },
        None => {},
    }
}

/// Character-for-character equality of two string slices.
pub fn str_eq(a: &str, b: &str) -> (r: bool)
    ensures
        r == (a@ == b@),
{
    let na = a.unicode_len();
    let nb = b.unicode_len();
    if na != nb {
        return false;
    }
    let mut i: usize = 0;
    while i < na
        invariant
            na == a@.len(),
            na == b@.len(),
            i <= na,
            forall|j: int| 0 <= j < i ==> a@[j] == b@[j],
        decreases na - i,
    {
        if a.get_char(i) != b.get_char(i) {
            return false;
        }
        i = i + 1;
    }
    proof {
        assert(a@ =~= b@);
    }
    true
}

/// The named, explicitly owned collection of loaded fonts. Registration
/// happens once, when the font assets have arrived; rendering only reads.
pub struct FontRegistry {
    fonts: Vec<FontDefinition>,
}

impl FontRegistry {
    /// The registered fonts, in registration order.
    pub closed spec fn spec_fonts(&self) -> Seq<FontDefinition> {
        self.fonts@
    }

    /// Every registered font is well-formed.
    pub open spec fn wf(&self) -> bool {
        forall|i: int| 0 <= i < self.spec_fonts().len() ==> (#[trigger] self.spec_fonts()[i]).wf()
    }

    /// The position of the first registered font with the given name.
    pub open spec fn spec_resolve(&self, name: Seq<char>) -> Option<int> {
        find_named(self.spec_fonts(), name)
    }

    /// An empty registry.
    pub fn new() -> (r: FontRegistry)
        ensures
            r.spec_fonts() == Seq::<FontDefinition>::empty(),
            r.wf(),
    {
        let r = FontRegistry { fonts: Vec::new() };
        proof {
            assert(r.spec_fonts() =~= Seq::<FontDefinition>::empty());
        }
        r
    }

    /// Adds a font. Names need not be distinct; lookup answers with the
    /// first font registered under a name.
    pub fn register(&mut self, font: FontDefinition)
        requires
            old(self).wf(),
            font.wf(),
        ensures
            final(self).spec_fonts() == old(self).spec_fonts().push(font),
            final(self).wf(),
    {
        self.fonts.push(font);
        proof {
            assert forall|i: int|
                0 <= i < self.spec_fonts().len() implies (#[trigger] self.spec_fonts()[i]).wf() by {
                if i < old(self).spec_fonts().len() {
                    assert(self.spec_fonts()[i] == old(self).spec_fonts()[i]);
                }
            }
        }
    }

    /// How many fonts are registered.
    pub fn len(&self) -> (n: usize)
        ensures
            n == self.spec_fonts().len(),
    {
        self.fonts.len()
    }

    /// The first registered font with the given name, or `NotFound` when no
    /// font of that name is registered. Takes the registry read-only: a
    /// failed lookup leaves it as it was.
    pub fn resolve(&self, name: &str) -> (r: Result<&FontDefinition, FontError>)
        ensures
            match r {
                Ok(f) => {
                    &&& self.spec_resolve(name@) is Some
                    &&& *f == self.spec_fonts()[self.spec_resolve(name@)->0]
                },
                Err(e) => {
                    &&& e == FontError::NotFound
                    &&& self.spec_resolve(name@) is None
                },
            },
    {
        let n = self.fonts.len();
        let mut i: usize = 0;
        while i < n
            invariant
                n == self.spec_fonts().len(),
                i <= n,
                forall|j: int| 0 <= j < i ==> (#[trigger] self.spec_fonts()[j]).name@ != name@,
            decreases n - i,
        {
            if str_eq(self.fonts[i].name.as_str(), name) {
                proof {
                    lemma_find_named_converse(self.spec_fonts(), name@, i as int);
                }
                return Ok(&self.fonts[i]);
            }
            i = i + 1;
        }
        proof {
            lemma_find_named(self.spec_fonts(), name@);
        }
        Err(FontError::NotFound)
    }
}

} // verus!
