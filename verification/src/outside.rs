//! The calls out of the library, and what is taken as known of them.

use crate::text;
use vstd::prelude::*;
use vstd::utf8::*;

verus! {

/// One section of a configuration file: its name, and its keys with their
/// values, in the order of the file. A key may stand alone, without a value.
#[derive(Debug)]
pub struct Section {
    pub name: String,
    pub entries: Vec<(String, Option<String>)>,
}

/// The keys of a section, with their values.
pub type EntryList = Seq<(Seq<char>, Option<Seq<char>>)>;

/// The sections of a file: their names and their entries.
pub type SectionList = Seq<(Seq<char>, EntryList)>;

/// The content of a section's entries.
pub open spec fn entry_views(v: Seq<(String, Option<String>)>) -> EntryList {
    Seq::new(v.len(), |i: int| (v[i].0@, text::opt_view(v[i].1)))
}

impl View for Section {
    type V = (Seq<char>, EntryList);

    open spec fn view(&self) -> Self::V {
        (self.name@, entry_views(self.entries@))
    }
}

/// The content of a list of sections.
pub open spec fn section_views(v: Seq<Section>) -> SectionList {
    Seq::new(v.len(), |i: int| v[i]@)
}

/// What `configparser::ini::Ini::read` makes of a text: the sections with
/// their entries, both in the order of their first appearance, or its message
/// about a line that it cannot read.
pub uninterp spec fn ini_sections(text: Seq<char>) -> Result<
    Seq<(Seq<char>, Seq<(Seq<char>, Option<Seq<char>>)>)>,
    Seq<char>,
>;

/// Calls `configparser::ini::Ini::read` on a fresh `Ini`, in the crate's
/// default, case-insensitive setting. What it returns depends on the text
/// alone: the crate is built with ordered maps, so the sections and their
/// keys come out in the order of the file. Nothing else is claimed of it.
#[verifier::external_body]
pub(crate) fn read_ini(text: &str) -> (r: Result<Vec<Section>, String>)
    ensures
        match r {
            Ok(sections) => ini_sections(text@) == Ok::<SectionList, Seq<char>>(section_views(sections@)),
            Err(why) => ini_sections(text@) == Err::<SectionList, Seq<char>>(why@),
        },
{
    let map = configparser::ini::Ini::new().read(text.to_owned())?;
    Ok(
        map.into_iter().map(
            |(name, entries)| Section { name, entries: entries.into_iter().collect() },
        ).collect(),
    )
}

/// The code of the key that `evdev` knows by a name, as in `KEY_ENTER`.
pub uninterp spec fn evdev_key(name: Seq<char>) -> Option<u16>;

/// The codes of the keys that this library itself names.
pub open spec fn own_key(name: Seq<char>) -> Option<u16> {
    if name == "KEY_ENTER"@ {
        Some(28)
    } else if name == "KEY_HOME"@ {
        Some(102)
    } else if name == "KEY_UP"@ {
        Some(103)
    } else if name == "KEY_LEFT"@ {
        Some(105)
    } else if name == "KEY_RIGHT"@ {
        Some(106)
    } else if name == "KEY_DOWN"@ {
        Some(108)
    } else if name == "KEY_BACK"@ {
        Some(158)
    } else {
        None
    }
}

/// The name begins as the names of keys and buttons do.
pub open spec fn key_prefix(name: Seq<char>) -> bool {
    "KEY_"@.is_prefix_of(name) || "BTN_"@.is_prefix_of(name)
}

/// The code of the key with a name: known for the keys that this library
/// names, none for what is no name of a key or button, and as `evdev` has it
/// for any other.
pub open spec fn key_code(name: Seq<char>) -> Option<u16> {
    match own_key(name) {
        Some(code) => Some(code),
        None => if key_prefix(name) {
            evdev_key(name)
        } else {
            None
        },
    }
}

/// Calls `evdev::Key::from_str`, which looks the name up, as it is written,
/// in the crate's table of keys. Of the table it is claimed that the keys that
/// this library itself names are in it, with the kernel's codes, and that every
/// name in it begins with `KEY_` or `BTN_`. The rest of the table is not
/// repeated here.
#[verifier::external_body]
pub(crate) fn key_by_name(name: &str) -> (r: Option<u16>)
    ensures
        r == evdev_key(name@),
        own_key(name@) is Some ==> r == own_key(name@),
        r is Some ==> key_prefix(name@),
{
    name.parse::<evdev::Key>().ok().map(|key| key.code())
}

/// What `str::to_lowercase` makes of a text.
pub uninterp spec fn lowercased(s: Seq<char>) -> Seq<char>;

/// A text in lower case: letter by letter where it is plain ASCII, and as
/// `str::to_lowercase` has it where it is not.
pub open spec fn lower_case(s: Seq<char>) -> Seq<char> {
    if is_ascii_chars(s) {
        text::lower(s)
    } else {
        lowercased(s)
    }
}

/// Calls `str::to_lowercase`: Unicode's lower case. Of plain ASCII text it is
/// claimed that the letters `A` to `Z` become `a` to `z` and the rest stays.
#[verifier::external_body]
pub(crate) fn to_lowercase(s: &str) -> (r: String)
    ensures
        r@ == lowercased(s@),
        is_ascii_chars(s@) ==> r@ == text::lower(s@),
{
    s.to_lowercase()
}

/// What `str::to_uppercase` makes of a text.
pub uninterp spec fn uppercased(s: Seq<char>) -> Seq<char>;

/// A text in upper case: letter by letter where it is plain ASCII, and as
/// `str::to_uppercase` has it where it is not.
pub open spec fn upper_case(s: Seq<char>) -> Seq<char> {
    if is_ascii_chars(s) {
        text::upper(s)
    } else {
        uppercased(s)
    }
}

/// Calls `str::to_uppercase`: Unicode's upper case. Of plain ASCII text it is
/// claimed that the letters `a` to `z` become `A` to `Z` and the rest stays.
#[verifier::external_body]
pub(crate) fn to_uppercase(s: &str) -> (r: String)
    ensures
        r@ == uppercased(s@),
        is_ascii_chars(s@) ==> r@ == text::upper(s@),
{
    s.to_uppercase()
}

/// Calls `std::str::from_utf8`: bytes that are valid UTF-8 are the text that
/// they encode, and any others are none.
#[verifier::external_body]
pub(crate) fn utf8_text(bytes: &[u8]) -> (r: Option<&str>)
    ensures
        r is Some <==> valid_utf8(bytes@),
        r matches Some(s) ==> s@ == decode_utf8(bytes@),
{
    std::str::from_utf8(bytes).ok()
}

} // verus!
