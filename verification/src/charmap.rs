//! Character maps: the association between a displayable character and its
//! glyph tile index within a font's atlas.
//!
//! A map is an ordered table of characters; a character's position in the
//! table is its tile index. Characters absent from the table have no tile.
//! The maps form a closed set of named layouts, one per atlas family.

use vstd::prelude::*;

verus! {

/// The closed set of character-map layouts.
#[derive(Clone, Copy, Debug, PartialEq, Eq, Structural)]
pub enum CharMap {
    /// A printable-ASCII layout: space through `Z`, uppercase letters only.
    /// The table lists the apostrophe at two positions (7 and 12, where a
    /// comma would be expected); lookup always answers with the first, and
    /// the comma has no tile in this layout. The glyph sheets are drawn to
    /// this table as it stands, so it is preserved verbatim.
    Ascii,
    /// A restricted layout: uppercase letters, a few punctuation marks, and
    /// digits.
    RestrictedSymbols,
}

/// The ordered table of characters of a map; a character's position in this
/// sequence is its tile index.
pub open spec fn map_chars(m: CharMap) -> Seq<char> {
    match m {
        CharMap::Ascii => " !\"#$%&'()*+'-./0123456789:;<=>?@ABCDEFGHIJKLMNOPQRSTUVWXYZ"@,
        CharMap::RestrictedSymbols => "ABCDEFGHIJKLMNOPQRSTUVWXYZ.,()0123456789"@,
    }
}

/// The table of a map as a string slice.
pub fn map_str(m: &CharMap) -> (s: &'static str)
    ensures
        s@ == map_chars(*m),
{
    match m {
        CharMap::Ascii => " !\"#$%&'()*+'-./0123456789:;<=>?@ABCDEFGHIJKLMNOPQRSTUVWXYZ",
        CharMap::RestrictedSymbols => "ABCDEFGHIJKLMNOPQRSTUVWXYZ.,()0123456789",
    }
}

/// The position of the first occurrence of `c` in `s`, if any.
pub open spec fn find_first(s: Seq<char>, c: char) -> Option<int>
    decreases s.len(),
{
    if s.len() == 0 {
        None
    } else if s[0] == c {
        Some(0)
    } else {
        match find_first(s.drop_first(), c) {
            Some(i) => Some(i + 1),
            None => None,
        }
    }
}

/// The tile index of `c` in map `m`: the first position of `c` in the map's
/// table, or `None` when the map has no tile for `c`.
pub open spec fn char_index(m: CharMap, c: char) -> Option<int> {
    find_first(map_chars(m), c)
}

/// `find_first` answers with the first occurrence: the index it gives holds
/// `c` and nothing before it does; `None` means `c` is absent.
pub proof fn lemma_find_first(s: Seq<char>, c: char)
    ensures
        match find_first(s, c) {
            Some(i) => 0 <= i < s.len() && s[i] == c && (forall|j: int|
                0 <= j < i ==> s[j] != c),
            None => forall|j: int| 0 <= j < s.len() ==> s[j] != c,
        },
    decreases s.len(),
{
    if s.len() == 0 {
    } else if s[0] == c {
    } else {
        lemma_find_first(s.drop_first(), c);
        match find_first(s.drop_first(), c) {
            Some(i) => {
                assert(s.drop_first()[i] == s[i + 1]);
                assert forall|j: int| 0 <= j < i + 1 implies s[j] != c by {
                    if j > 0 {
                        assert(s[j] == s.drop_first()[j - 1]);
                    }
                }
            },
            None => {
                assert forall|j: int| 0 <= j < s.len() implies s[j] != c by {
                    if j > 0 {
                        assert(s[j] == s.drop_first()[j - 1]);
                    }
                }
            },
        }
    }
}

/// Whatever is the first occurrence of `c` is what `find_first` answers.
proof fn lemma_find_first_converse(s: Seq<char>, c: char, i: int)
    requires
        0 <= i < s.len(),
        s[i] == c,
        forall|j: int| 0 <= j < i ==> s[j] != c,
    ensures
        find_first(s, c) == Some(i),
{
    lemma_find_first(s, c);
    match find_first(s, c) {
        Some(k) => {
            if k < i {
            } else if k > i {
            }
        },
        None => {},
    }
}

/// The tile index of `c` in map `char_map`, as [`char_index`] states.
/// Lookup is case-sensitive: the tables hold uppercase letters only, so a
/// caller that wants case-insensitive lookup uppercases first.
pub fn get_char_index(c: char, char_map: &CharMap) -> (r: Option<usize>)
    ensures
        match r {
            Some(j) => char_index(*char_map, c) == Some(j as int),
            None => char_index(*char_map, c) is None,
        },
{
    let table = map_str(char_map);
    let n = table.unicode_len();
    let mut j: usize = 0;
    while j < n
        invariant
            n == map_chars(*char_map).len(),
            table@ == map_chars(*char_map),
            0 <= j <= n,
            forall|k: int| 0 <= k < j ==> map_chars(*char_map)[k] != c,
        decreases n - j,
    {
        if table.get_char(j) == c {
            proof {
                lemma_find_first_converse(map_chars(*char_map), c, j as int);
            }
            return Some(j);
        }
        j = j + 1;
    }
    proof {
        lemma_find_first(map_chars(*char_map), c);
    }
    None
}

/// `c` with a lowercase ASCII letter lifted to its uppercase form; any other
/// character is left as it is. Glyph tables hold uppercase letters only.
pub open spec fn upper_char(c: char) -> char {
    if 97 <= c as u32 && c as u32 <= 122 {
        (c as u32 - 32) as char
    } else {
        c
    }
}

/// Uppercases one character, as [`upper_char`] states.
pub fn to_upper(c: char) -> (r: char)
    ensures
        r == upper_char(c),
{
    let u = c as u32;
    if 97 <= u && u <= 122 {
        let v: u8 = (u - 32) as u8;
        v as char
    } else {
        c
    }
}

} // verus!
