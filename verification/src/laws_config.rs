//! What holds of reading the configuration and of loading it again.

use crate::config;
use crate::config::{Config, ConfigView, DeviceConfig, DeviceView, Key, LoadError};
use crate::laws;
use crate::laws_text;
use crate::mappings::{DpadDirection, DpadMap, Trigger, TriggerMap};
use crate::outside;
use crate::outside::{EntryList, Section, SectionList};
use crate::reload;
use crate::reload::{Reload, ReloadView};
use crate::text;
use vstd::prelude::*;
use vstd::utf8::*;

verus! {

/// Entry `i` is the first of a section with a key.
pub open spec fn first_entry(entries: EntryList, i: int, key: Seq<char>) -> bool {
    &&& 0 <= i < entries.len()
    &&& entries[i].0 == key
    &&& forall|j: int| 0 <= j < i ==> (#[trigger] entries[j]).0 != key
}

/// The value of a key is that of its first entry, and a key without an entry
/// has none.
pub proof fn law_value_of_a_key(entries: EntryList, i: int, key: Seq<char>)
    ensures
        first_entry(entries, i, key) ==> config::value_of(entries, key) == entries[i].1,
        (forall|j: int| 0 <= j < entries.len() ==> (#[trigger] entries[j]).0 != key)
            ==> config::value_of(entries, key) is None,
    decreases entries.len(),
{
    if entries.len() > 0 && entries[0].0 != key {
        let rest = entries.skip(1);
        law_value_of_a_key(rest, i - 1, key);
        if first_entry(entries, i, key) {
            assert forall|j: int| 0 <= j < i - 1 implies (#[trigger] rest[j]).0 != key by {
                assert(rest[j] == entries[j + 1]);
            }
            assert(rest[i - 1] == entries[i]);
            assert(first_entry(rest, i - 1, key));
        }
        if forall|j: int| 0 <= j < entries.len() ==> (#[trigger] entries[j]).0 != key {
            assert forall|j: int| 0 <= j < rest.len() implies (#[trigger] rest[j]).0 != key by {
                assert(rest[j] == entries[j + 1]);
            }
        }
    } else if entries.len() > 0 && first_entry(entries, i, key) && i > 0 {
        assert(entries[0].0 != key);
    }
}

/// Section `s` is the first with a name.
pub open spec fn first_section(sections: SectionList, s: int, name: Seq<char>) -> bool {
    &&& 0 <= s < sections.len()
    &&& sections[s].0 == name
    &&& forall|j: int| 0 <= j < s ==> (#[trigger] sections[j]).0 != name
}

proof fn lemma_section_named(sections: SectionList, s: int, name: Seq<char>)
    ensures
        first_section(sections, s, name) ==> config::section_named(sections, name) == Some(
            sections[s].1,
        ),
        (forall|j: int| 0 <= j < sections.len() ==> (#[trigger] sections[j]).0 != name)
            ==> config::section_named(sections, name) is None,
    decreases sections.len(),
{
    if sections.len() > 0 && sections[0].0 != name {
        let rest = sections.skip(1);
        lemma_section_named(rest, s - 1, name);
        if first_section(sections, s, name) {
            assert forall|j: int| 0 <= j < s - 1 implies (#[trigger] rest[j]).0 != name by {
                assert(rest[j] == sections[j + 1]);
            }
            assert(rest[s - 1] == sections[s]);
            assert(first_section(rest, s - 1, name));
        }
        if forall|j: int| 0 <= j < sections.len() ==> (#[trigger] sections[j]).0 != name {
            assert forall|j: int| 0 <= j < rest.len() implies (#[trigger] rest[j]).0 != name by {
                assert(rest[j] == sections[j + 1]);
            }
        }
    } else if sections.len() > 0 && first_section(sections, s, name) && s > 0 {
        assert(sections[0].0 != name);
    }
}

/// The section `settings` gives a key a value.
pub open spec fn set(
    sections: SectionList,
    s: int,
    i: int,
    key: Seq<char>,
    value: Seq<char>,
) -> bool {
    &&& first_section(sections, s, "settings"@)
    &&& first_entry(sections[s].1, i, key)
    &&& sections[s].1[i].1 == Some(value)
}

/// No section `settings` has an entry for a key.
pub open spec fn unset(sections: SectionList, key: Seq<char>) -> bool {
    forall|s: int, i: int|
        0 <= s < sections.len() && sections[s].0 == "settings"@ && 0 <= i < sections[s].1.len()
            ==> (#[trigger] sections[s].1[i]).0 != key
}

proof fn lemma_set(sections: SectionList, s: int, i: int, key: Seq<char>, value: Seq<char>)
    requires
        set(sections, s, i, key, value),
    ensures
        config::setting(sections, key) == Some(value),
{
    lemma_section_named(sections, s, "settings"@);
    law_value_of_a_key(sections[s].1, i, key);
}

proof fn lemma_unset(sections: SectionList, key: Seq<char>)
    requires
        unset(sections, key),
    ensures
        config::setting(sections, key) is None,
{
    let name = "settings"@;
    if exists|s: int| first_section(sections, s, name) {
        let s = choose|s: int| first_section(sections, s, name);
        lemma_section_named(sections, s, name);
        assert forall|i: int| 0 <= i < sections[s].1.len() implies (
        #[trigger] sections[s].1[i]).0 != key by {}
        law_value_of_a_key(sections[s].1, 0, key);
    } else {
        lemma_no_first(sections, name, sections.len() as int);
        lemma_section_named(sections, 0, name);
    }
}

proof fn lemma_no_first(sections: SectionList, name: Seq<char>, n: int)
    requires
        0 <= n <= sections.len(),
        forall|s: int| !first_section(sections, s, name),
    ensures
        forall|j: int| 0 <= j < n ==> (#[trigger] sections[j]).0 != name,
    decreases n,
{
    if n > 0 {
        lemma_no_first(sections, name, n - 1);
        if sections[n - 1].0 == name {
            assert(first_section(sections, n - 1, name));
        }
    }
}

/// A number in the settings is the number that its digits write.
pub proof fn law_number_settings(sections: SectionList, s: int, i: int, n: u64)
    ensures
        set(sections, s, i, "debounce_ms"@, text::decimal(n as nat)) ==> ConfigView::read(
            sections,
        ).debounce_ms == n,
        set(sections, s, i, "long_press_ms"@, text::decimal(n as nat)) ==> ConfigView::read(
            sections,
        ).long_press_ms == n,
        set(sections, s, i, "repeat_ms"@, text::decimal(n as nat)) ==> ConfigView::read(
            sections,
        ).repeat_ms == n,
{
    let digits = text::decimal(n as nat);
    text::law_decimal_reads_back(n as nat, u64::MAX as int);
    if set(sections, s, i, "debounce_ms"@, digits) {
        lemma_set(sections, s, i, "debounce_ms"@, digits);
    }
    if set(sections, s, i, "long_press_ms"@, digits) {
        lemma_set(sections, s, i, "long_press_ms"@, digits);
    }
    if set(sections, s, i, "repeat_ms"@, digits) {
        lemma_set(sections, s, i, "repeat_ms"@, digits);
    }
}

/// A number in the settings that cannot be read is as if it were not there.
pub proof fn law_unreadable_settings(sections: SectionList, s: int, i: int, value: Seq<char>)
    requires
        text::unsigned(value, 10, 0xffff_ffff_ffff_ffff) is None,
    ensures
        set(sections, s, i, "debounce_ms"@, value) ==> ConfigView::read(sections).debounce_ms
            == 200,
        set(sections, s, i, "long_press_ms"@, value) ==> ConfigView::read(sections).long_press_ms
            == 500,
        set(sections, s, i, "repeat_ms"@, value) ==> ConfigView::read(sections).repeat_ms == 100,
{
    if set(sections, s, i, "debounce_ms"@, value) {
        lemma_set(sections, s, i, "debounce_ms"@, value);
    }
    if set(sections, s, i, "long_press_ms"@, value) {
        lemma_set(sections, s, i, "long_press_ms"@, value);
    }
    if set(sections, s, i, "repeat_ms"@, value) {
        lemma_set(sections, s, i, "repeat_ms"@, value);
    }
}

/// A switch in the settings says what its value says, and a script is the
/// value itself, unless that is empty.
pub proof fn law_other_settings(sections: SectionList, s: int, i: int, value: Seq<char>)
    ensures
        set(sections, s, i, "log_buttons"@, value) ==> ConfigView::read(sections).log_buttons
            == config::truth(value),
        set(sections, s, i, "keep_awake"@, value) ==> ConfigView::read(sections).keep_awake
            == config::truth(value),
        set(sections, s, i, "on_connect"@, value) ==> ConfigView::read(sections).on_connect == if
        value.len() > 0 {
            Some(value)
        } else {
            None
        },
        set(sections, s, i, "on_disconnect"@, value) ==> ConfigView::read(sections).on_disconnect
            == if value.len() > 0 {
            Some(value)
        } else {
            None
        },
{
    if set(sections, s, i, "log_buttons"@, value) {
        lemma_set(sections, s, i, "log_buttons"@, value);
    }
    if set(sections, s, i, "keep_awake"@, value) {
        lemma_set(sections, s, i, "keep_awake"@, value);
    }
    if set(sections, s, i, "on_connect"@, value) {
        lemma_set(sections, s, i, "on_connect"@, value);
    }
    if set(sections, s, i, "on_disconnect"@, value) {
        lemma_set(sections, s, i, "on_disconnect"@, value);
    }
}

/// What each setting is where the file does not give it.
pub proof fn law_default_settings(sections: SectionList)
    ensures
        unset(sections, "debounce_ms"@) ==> ConfigView::read(sections).debounce_ms == 200,
        unset(sections, "long_press_ms"@) ==> ConfigView::read(sections).long_press_ms == 500,
        unset(sections, "repeat_ms"@) ==> ConfigView::read(sections).repeat_ms == 100,
        unset(sections, "log_buttons"@) ==> !ConfigView::read(sections).log_buttons,
        unset(sections, "keep_awake"@) ==> ConfigView::read(sections).keep_awake,
        unset(sections, "on_connect"@) ==> ConfigView::read(sections).on_connect is None,
        unset(sections, "on_disconnect"@) ==> ConfigView::read(sections).on_disconnect is None,
        ConfigView::plain() == ConfigView::read(seq![]),
{
    if unset(sections, "debounce_ms"@) {
        lemma_unset(sections, "debounce_ms"@);
    }
    if unset(sections, "long_press_ms"@) {
        lemma_unset(sections, "long_press_ms"@);
    }
    if unset(sections, "repeat_ms"@) {
        lemma_unset(sections, "repeat_ms"@);
    }
    if unset(sections, "log_buttons"@) {
        lemma_unset(sections, "log_buttons"@);
    }
    if unset(sections, "keep_awake"@) {
        lemma_unset(sections, "keep_awake"@);
    }
    if unset(sections, "on_connect"@) {
        lemma_unset(sections, "on_connect"@);
    }
    if unset(sections, "on_disconnect"@) {
        lemma_unset(sections, "on_disconnect"@);
    }
    let none: SectionList = seq![];
    assert(config::all_devices(none) =~= seq![]);
    assert(ConfigView::read(none) =~= ConfigView::plain());
}

proof fn lemma_lowered_end(c: char, small: char)
    requires
        text::ascii_lower(c) == small,
        'a' <= small <= 'z' || small == '1',
    ensures
        !text::white_space(c),
{
}

/// `true`, `yes`, `1` and `on` say yes, in any case and with white space
/// around them, and nothing else does.
pub proof fn law_what_says_yes(a: Seq<char>, w: Seq<char>, b: Seq<char>)
    requires
        laws_text::blank(a),
        laws_text::blank(b),
    ensures
        text::lower(w) == "true"@ || text::lower(w) == "yes"@ || text::lower(w) == "1"@
            || text::lower(w) == "on"@ ==> config::truth(a + w + b),
        config::truth(w) ==> text::lower(text::trimmed(w)) == "true"@ || text::lower(
            text::trimmed(w),
        ) == "yes"@ || text::lower(text::trimmed(w)) == "1"@ || text::lower(text::trimmed(w))
            == "on"@,
{
    reveal_strlit("true");
    reveal_strlit("yes");
    reveal_strlit("1");
    reveal_strlit("on");
    let l = text::lower(w);
    if l == "true"@ || l == "yes"@ || l == "1"@ || l == "on"@ {
        let n = w.len() - 1;
        assert(l.len() == w.len());
        assert(l[0] == text::ascii_lower(w[0]));
        assert(l[n] == text::ascii_lower(w[n]));
        lemma_lowered_end(w[0], l[0]);
        lemma_lowered_end(w[n], l[n]);
        laws_text::law_trimming_takes_white_space(a, w, b);
    }
}

/// The directions go by their names, in any case.
pub proof fn law_direction_names(s: Seq<char>)
    requires
        is_ascii_chars(s),
    ensures
        config::direction_of(outside::lower_case(s)) == Some(DpadDirection::Up) <==> text::lower(s)
            == "up"@,
        config::direction_of(outside::lower_case(s)) == Some(DpadDirection::Down) <==> text::lower(
            s,
        ) == "down"@,
        config::direction_of(outside::lower_case(s)) == Some(DpadDirection::Left) <==> text::lower(
            s,
        ) == "left"@,
        config::direction_of(outside::lower_case(s)) == Some(DpadDirection::Right)
            <==> text::lower(s) == "right"@,
{
    reveal_strlit("up");
    reveal_strlit("down");
    reveal_strlit("left");
    reveal_strlit("right");
    assert("down"@[0] == 'd' && "left"@[0] == 'l');
    assert("up"@.len() == 2 && "down"@.len() == 4 && "left"@.len() == 4 && "right"@.len() == 5);
}

/// The triggers go by their short names or their sides, in any case.
pub proof fn law_trigger_names(s: Seq<char>)
    requires
        is_ascii_chars(s),
    ensures
        config::trigger_of(outside::lower_case(s)) == Some(Trigger::LT) <==> text::lower(s)
            == "lt"@ || text::lower(s) == "left"@,
        config::trigger_of(outside::lower_case(s)) == Some(Trigger::RT) <==> text::lower(s)
            == "rt"@ || text::lower(s) == "right"@,
{
    reveal_strlit("lt");
    reveal_strlit("rt");
    reveal_strlit("left");
    reveal_strlit("right");
    assert("lt"@[0] == 'l' && "rt"@[0] == 'r');
    assert("lt"@.len() == 2 && "rt"@.len() == 2 && "left"@.len() == 4 && "right"@.len() == 5);
}

/// A key goes by its name in any case. The keys that this library names have
/// the kernel's codes, and any other is what `evdev` knows the name as.
pub proof fn law_key_names(s: Seq<char>)
    requires
        is_ascii_chars(s),
        text::unsigned(s, 10, 65535) is None,
        config::hex_code(s) is None,
    ensures
        ({
            let name = text::upper(s);
            let code = match config::key_of(s) {
                Some(key) => Some(key.code),
                None => None,
            };
            &&& name == "KEY_ENTER"@ ==> code == Some(28u16)
            &&& name == "KEY_HOME"@ ==> code == Some(102u16)
            &&& name == "KEY_UP"@ ==> code == Some(103u16)
            &&& name == "KEY_LEFT"@ ==> code == Some(105u16)
            &&& name == "KEY_RIGHT"@ ==> code == Some(106u16)
            &&& name == "KEY_DOWN"@ ==> code == Some(108u16)
            &&& name == "KEY_BACK"@ ==> code == Some(158u16)
            &&& name != "KEY_ENTER"@ && name != "KEY_HOME"@ && name != "KEY_UP"@ && name
                != "KEY_LEFT"@ && name != "KEY_RIGHT"@ && name != "KEY_DOWN"@ && name
                != "KEY_BACK"@ && ("KEY_"@.is_prefix_of(name) || "BTN_"@.is_prefix_of(name))
                ==> code == outside::evdev_key(name)
            &&& !"KEY_"@.is_prefix_of(name) && !"BTN_"@.is_prefix_of(name) ==> code is None
        }),
{
    reveal_strlit("KEY_");
    reveal_strlit("KEY_ENTER");
    reveal_strlit("KEY_HOME");
    reveal_strlit("KEY_UP");
    reveal_strlit("KEY_LEFT");
    reveal_strlit("KEY_RIGHT");
    reveal_strlit("KEY_DOWN");
    reveal_strlit("KEY_BACK");
    assert("KEY_ENTER"@[4] == 'E' && "KEY_HOME"@[4] == 'H' && "KEY_UP"@[4] == 'U');
    assert("KEY_LEFT"@[4] == 'L' && "KEY_RIGHT"@[4] == 'R' && "KEY_DOWN"@[4] == 'D');
    assert("KEY_BACK"@[4] == 'B');
    if !"KEY_"@.is_prefix_of(text::upper(s)) && !"BTN_"@.is_prefix_of(text::upper(s)) {
        config::law_unknown_name_is_no_key(s);
    }
}

/// A section is about a device where its name is `device`, a dot and the id of
/// the device, and about a part of it where a dot and the part follow. What
/// follows a further dot does not count.
pub proof fn law_device_sections(id: Seq<char>, part: Seq<char>, more: Seq<char>)
    requires
        laws_text::without(id, '.'),
        laws_text::without(part, '.'),
    ensures
        config::device_part("device."@ + id) == Some((id, None::<Seq<char>>)),
        config::device_part("device."@ + id + "."@ + part) == Some((id, Some(part))),
        config::device_part("device."@ + id + "."@ + part + "."@ + more) == Some((id, Some(part))),
{
    reveal_strlit("device.");
    reveal_strlit("device");
    reveal_strlit(".");
    let d = "device"@;
    let dot = seq!['.'];
    assert("."@ =~= dot);
    assert(laws_text::without(d, '.'));
    let tail = part + dot + more;
    assert("device."@ + id =~= d + dot + id);
    assert("device."@ + id + "."@ + part =~= d + dot + (id + dot + part));
    assert("device."@ + id + "."@ + part + "."@ + more =~= d + dot + (id + dot + tail));
    laws_text::law_separators_part_pieces(d, '.', id);
    laws_text::law_separators_part_pieces(d, '.', id + dot + part);
    laws_text::law_separators_part_pieces(d, '.', id + dot + tail);
    laws_text::law_separators_part_pieces(id, '.', part);
    laws_text::law_separators_part_pieces(id, '.', tail);
    laws_text::law_separators_part_pieces(part, '.', more);
}

/// A section whose name does not begin with `device` and a dot is about no
/// device.
pub proof fn law_other_sections(first: Seq<char>, rest: Seq<char>)
    requires
        laws_text::without(first, '.'),
    ensures
        config::device_part(first) is None,
        first != "device"@ ==> config::device_part(first + seq!['.'] + rest) is None,
{
    laws_text::law_separators_part_pieces(first, '.', rest);
}

/// The sections of the format without device names, and no others, have a file
/// refused.
pub proof fn law_old_format(sections: SectionList)
    ensures
        config::old_format(sections) <==> exists|i: int|
            0 <= i < sections.len() && seq![
                "device"@,
                "buttons"@,
                "longpress"@,
                "dpad"@,
                "dpad_longpress"@,
                "triggers"@,
                "triggers_longpress"@,
            ].contains((#[trigger] sections[i]).0),
{
    let old = seq![
        "device"@,
        "buttons"@,
        "longpress"@,
        "dpad"@,
        "dpad_longpress"@,
        "triggers"@,
        "triggers_longpress"@,
    ];
    assert forall|i: int| 0 <= i < sections.len() implies config::old_section(
        (#[trigger] sections[i]).0,
    ) == old.contains(sections[i].0) by {
        let name = sections[i].0;
        assert(old[0] == "device"@ && old[1] == "buttons"@ && old[2] == "longpress"@ && old[3]
            == "dpad"@);
        assert(old[4] == "dpad_longpress"@ && old[5] == "triggers"@ && old[6]
            == "triggers_longpress"@);
    }
    if config::old_format(sections) {
        let i = choose|i: int| 0 <= i < sections.len() && config::old_section(
            #[trigger] sections[i].0,
        );
        assert(old.contains(sections[i].0));
    }
    if exists|i: int| 0 <= i < sections.len() && old.contains((#[trigger] sections[i]).0) {
        let i = choose|i: int| 0 <= i < sections.len() && old.contains((#[trigger] sections[i]).0);
        assert(config::old_section(sections[i].0));
    }
}

/// A device of which only the id is known is grabbed, though not explicitly,
/// and has nothing else.
pub proof fn law_fresh_device(id: Seq<char>)
    ensures
        ({
            let dev = DeviceView::read(id, seq![]);
            &&& dev == DeviceView::fresh(id)
            &&& dev.id == id
            &&& dev.name is None
            &&& dev.uniq is None
            &&& dev.grab
            &&& !dev.grab_explicit
            &&& !dev.passthrough
            &&& dev.keyboard_layout is None
            &&& dev.mappings =~= Map::empty()
            &&& dev.long_press_mappings =~= Map::empty()
            &&& dev.dpad_mappings =~= Map::empty()
            &&& dev.dpad_longpress_mappings =~= Map::empty()
            &&& dev.trigger_mappings =~= Map::empty()
            &&& dev.trigger_longpress_mappings =~= Map::empty()
        }),
{
}

/// The fields of a device that its own section gives.
pub open spec fn same_description(a: DeviceView, b: DeviceView) -> bool {
    &&& a.name == b.name
    &&& a.uniq == b.uniq
    &&& a.grab == b.grab
    &&& a.grab_explicit == b.grab_explicit
    &&& a.passthrough == b.passthrough
    &&& a.keyboard_layout == b.keyboard_layout
}

proof fn lemma_no_own_section(sections: SectionList, id: Seq<char>)
    requires
        forall|q: int| !#[trigger] laws::own_section(sections, q, id),
    ensures
        same_description(DeviceView::read(id, sections), DeviceView::fresh(id)),
    decreases sections.len(),
{
    if sections.len() > 0 {
        let before = sections.drop_last();
        let n = sections.len() - 1;
        assert forall|q: int| !#[trigger] laws::own_section(before, q, id) by {
            if 0 <= q < n {
                assert(before[q] == sections[q]);
                assert(!laws::own_section(sections, q, id));
            }
        }
        lemma_no_own_section(before, id);
        assert(!laws::own_section(sections, n, id));
        assert(sections[n] == sections.last());
    }
}

/// What a device's own section says is what is known of the device: its name
/// and unique id as they are written, whether it is grabbed and passed through
/// as its switches say, and its layout without white space around it.
pub proof fn law_own_section_describes_the_device(sections: SectionList, p: int, id: Seq<char>)
    requires
        laws::own_section(sections, p, id),
        forall|q: int| q != p ==> !#[trigger] laws::own_section(sections, q, id),
    ensures
        ({
            let dev = DeviceView::read(id, sections);
            let e = sections[p].1;
            &&& dev.id == id
            &&& dev.name == config::value_of(e, "name"@)
            &&& dev.uniq == config::value_of(e, "uniq"@)
            &&& dev.grab_explicit == config::value_of(e, "grab"@) is Some
            &&& dev.grab == match config::value_of(e, "grab"@) {
                Some(v) => config::truth(v),
                None => true,
            }
            &&& dev.passthrough == match config::value_of(e, "passthrough"@) {
                Some(v) => config::truth(v),
                None => false,
            }
            &&& dev.keyboard_layout == match config::value_of(e, "keyboard_layout"@) {
                Some(v) => if text::trimmed(v) == Seq::<char>::empty() {
                    None
                } else {
                    Some(text::trimmed(v))
                },
                None => None,
            }
        }),
    decreases sections.len(),
{
    let before = sections.drop_last();
    let n = sections.len() - 1;
    config::lemma_read_keeps_id(id, sections);
    assert(sections[n] == sections.last());
    assert forall|q: int| 0 <= q < n implies #[trigger] laws::own_section(before, q, id)
        == laws::own_section(sections, q, id) by {
        assert(before[q] == sections[q]);
    }
    if p < n {
        assert(laws::own_section(before, p, id));
        assert forall|q: int| q != p implies !#[trigger] laws::own_section(before, q, id) by {
            if 0 <= q < n {
                assert(!laws::own_section(sections, q, id));
            }
        }
        law_own_section_describes_the_device(before, p, id);
        assert(!laws::own_section(sections, n, id));
        assert(before[p] == sections[p]);
    } else {
        assert forall|q: int| !#[trigger] laws::own_section(before, q, id) by {
            if 0 <= q < n {
                assert(!laws::own_section(sections, q, id));
            }
        }
        lemma_no_own_section(before, id);
        if let Some(v) = config::value_of(sections[p].1, "keyboard_layout"@) {
            if text::trimmed(v).len() == 0 {
                assert(text::trimmed(v) =~= Seq::<char>::empty());
            }
        }
    }
}

/// Section `s` is about a part of a device.
pub open spec fn part_section(
    sections: SectionList,
    s: int,
    id: Seq<char>,
    part: Seq<char>,
) -> bool {
    &&& 0 <= s < sections.len()
    &&& config::device_part(sections[s].0) == Some((id, Some(part)))
}

/// Section `s` is the last about a part of a device.
pub open spec fn last_part_section(
    sections: SectionList,
    s: int,
    id: Seq<char>,
    part: Seq<char>,
) -> bool {
    &&& part_section(sections, s, id, part)
    &&& forall|r: int| s < r ==> !#[trigger] part_section(sections, r, id, part)
}

proof fn lemma_last_part_shrinks(sections: SectionList, s: int, id: Seq<char>, part: Seq<char>)
    requires
        last_part_section(sections, s, id, part),
        s < sections.len() - 1,
    ensures
        last_part_section(sections.drop_last(), s, id, part),
        !part_section(sections, sections.len() - 1, id, part),
{
    let before = sections.drop_last();
    assert(before[s] == sections[s]);
    assert forall|r: int| s < r implies !#[trigger] part_section(before, r, id, part) by {
        if r < before.len() {
            assert(before[r] == sections[r]);
            assert(!part_section(sections, r, id, part));
        }
    }
}

proof fn lemma_parts()
    ensures
        "buttons"@ != "longpress"@,
        "buttons"@ != "dpad"@,
        "buttons"@ != "dpad_longpress"@,
        "buttons"@ != "triggers"@,
        "buttons"@ != "triggers_longpress"@,
        "longpress"@ != "dpad"@,
        "longpress"@ != "dpad_longpress"@,
        "longpress"@ != "triggers"@,
        "longpress"@ != "triggers_longpress"@,
        "dpad"@ != "dpad_longpress"@,
        "dpad"@ != "triggers"@,
        "dpad"@ != "triggers_longpress"@,
        "dpad_longpress"@ != "triggers"@,
        "dpad_longpress"@ != "triggers_longpress"@,
        "triggers"@ != "triggers_longpress"@,
{
    reveal_strlit("buttons");
    reveal_strlit("longpress");
    reveal_strlit("dpad");
    reveal_strlit("dpad_longpress");
    reveal_strlit("triggers");
    reveal_strlit("triggers_longpress");
    assert("buttons"@.len() == 7 && "longpress"@.len() == 9 && "dpad"@.len() == 4);
    assert("dpad_longpress"@.len() == 14 && "triggers"@.len() == 8 && "triggers_longpress"@.len()
        == 18);
}

/// What a part of a device binds a key to is in its own map: `buttons` to a
/// short press, `longpress` to a long one.
pub proof fn law_buttons_reach_their_map(
    sections: SectionList,
    id: Seq<char>,
    s: int,
    i: int,
    code: u16,
)
    requires
        0 <= s < sections.len(),
        laws::binds(sections[s].1, i, code),
        forall|j: int| i < j ==> !#[trigger] laws::binds(sections[s].1, j, code),
    ensures
        last_part_section(sections, s, id, "buttons"@) ==> DeviceView::read(
            id,
            sections,
        ).mappings.contains_key(code) && Some(DeviceView::read(id, sections).mappings[code])
            == sections[s].1[i].1,
        last_part_section(sections, s, id, "longpress"@) ==> DeviceView::read(
            id,
            sections,
        ).long_press_mappings.contains_key(code) && Some(DeviceView::read(id, sections).long_press_mappings[code])
            == sections[s].1[i].1,
    decreases sections.len(),
{
    let before = sections.drop_last();
    let n = sections.len() - 1;
    let dev = DeviceView::read(id, before);
    lemma_parts();
    assert(sections[n] == sections.last());
    if s < n {
        assert(before[s] == sections[s]);
        law_buttons_reach_their_map(before, id, s, i, code);
        if last_part_section(sections, s, id, "buttons"@) {
            lemma_last_part_shrinks(sections, s, id, "buttons"@);
        }
        if last_part_section(sections, s, id, "longpress"@) {
            lemma_last_part_shrinks(sections, s, id, "longpress"@);
        }
    } else {
        laws::law_last_binding_counts(dev.mappings, sections[s].1, i, code);
        laws::law_last_binding_counts(dev.long_press_mappings, sections[s].1, i, code);
    }
}

/// Section `s` of a part of a device binds a key.
pub open spec fn buttons_section(
    sections: SectionList,
    s: int,
    id: Seq<char>,
    part: Seq<char>,
    code: u16,
) -> bool {
    &&& part_section(sections, s, id, part)
    &&& exists|i: int| laws::binds(sections[s].1, i, code)
}

/// Nothing is in the map of a part of a device but what that part binds.
pub proof fn law_buttons_come_from_their_part(sections: SectionList, id: Seq<char>, code: u16)
    ensures
        DeviceView::read(id, sections).mappings.contains_key(code) ==> exists|s: int| #[trigger]
            buttons_section(sections, s, id, "buttons"@, code),
        DeviceView::read(id, sections).long_press_mappings.contains_key(code) ==> exists|s: int| #[trigger]
            buttons_section(sections, s, id, "longpress"@, code),
    decreases sections.len(),
{
    lemma_parts();
    if sections.len() > 0 {
        let before = sections.drop_last();
        let n = sections.len() - 1;
        let dev = DeviceView::read(id, before);
        let now = DeviceView::read(id, sections);
        let e = sections.last().1;
        law_buttons_come_from_their_part(before, id, code);
        assert(sections[n] == sections.last());
        if now.mappings.contains_key(code) {
            if dev.mappings.contains_key(code) {
                let s = choose|s: int| #[trigger]
                    buttons_section(before, s, id, "buttons"@, code);
                assert(before[s] == sections[s]);
                assert(buttons_section(sections, s, id, "buttons"@, code));
            } else {
                if forall|j: int| !#[trigger] laws::binds(e, j, code) {
                    laws::law_other_bindings_stay(dev.mappings, e, code);
                }
                assert(buttons_section(sections, n, id, "buttons"@, code));
            }
        }
        if now.long_press_mappings.contains_key(code) {
            if dev.long_press_mappings.contains_key(code) {
                let s = choose|s: int| #[trigger]
                    buttons_section(before, s, id, "longpress"@, code);
                assert(before[s] == sections[s]);
                assert(buttons_section(sections, s, id, "longpress"@, code));
            } else {
                if forall|j: int| !#[trigger] laws::binds(e, j, code) {
                    laws::law_other_bindings_stay(dev.long_press_mappings, e, code);
                }
                assert(buttons_section(sections, n, id, "longpress"@, code));
            }
        }
    }
}

/// What a part of a device binds a direction to is in its own map: `dpad` to
/// a short press, `dpad_longpress` to a long one.
pub proof fn law_directions_reach_their_map(
    sections: SectionList,
    id: Seq<char>,
    s: int,
    i: int,
    dir: DpadDirection,
)
    requires
        0 <= s < sections.len(),
        laws::binds_dpad(sections[s].1, i, dir),
        forall|j: int| i < j ==> !#[trigger] laws::binds_dpad(sections[s].1, j, dir),
    ensures
        last_part_section(sections, s, id, "dpad"@) ==> DeviceView::read(
            id,
            sections,
        ).dpad_mappings.contains_key(dir) && Some(DeviceView::read(id, sections).dpad_mappings[dir])
            == sections[s].1[i].1,
        last_part_section(sections, s, id, "dpad_longpress"@) ==> DeviceView::read(
            id,
            sections,
        ).dpad_longpress_mappings.contains_key(dir) && Some(DeviceView::read(id, sections).dpad_longpress_mappings[dir])
            == sections[s].1[i].1,
    decreases sections.len(),
{
    let before = sections.drop_last();
    let n = sections.len() - 1;
    let dev = DeviceView::read(id, before);
    lemma_parts();
    assert(sections[n] == sections.last());
    if s < n {
        assert(before[s] == sections[s]);
        law_directions_reach_their_map(before, id, s, i, dir);
        if last_part_section(sections, s, id, "dpad"@) {
            lemma_last_part_shrinks(sections, s, id, "dpad"@);
        }
        if last_part_section(sections, s, id, "dpad_longpress"@) {
            lemma_last_part_shrinks(sections, s, id, "dpad_longpress"@);
        }
    } else {
        laws::law_last_dpad_binding_counts(dev.dpad_mappings, sections[s].1, i, dir);
        laws::law_last_dpad_binding_counts(dev.dpad_longpress_mappings, sections[s].1, i, dir);
    }
}

/// Section `s` of a part of a device binds a direction.
pub open spec fn directions_section(
    sections: SectionList,
    s: int,
    id: Seq<char>,
    part: Seq<char>,
    dir: DpadDirection,
) -> bool {
    &&& part_section(sections, s, id, part)
    &&& exists|i: int| laws::binds_dpad(sections[s].1, i, dir)
}

/// Nothing is in the map of a part of a device but what that part binds.
pub proof fn law_directions_come_from_their_part(sections: SectionList, id: Seq<char>, dir: DpadDirection)
    ensures
        DeviceView::read(id, sections).dpad_mappings.contains_key(dir) ==> exists|s: int| #[trigger]
            directions_section(sections, s, id, "dpad"@, dir),
        DeviceView::read(id, sections).dpad_longpress_mappings.contains_key(dir) ==> exists|s: int| #[trigger]
            directions_section(sections, s, id, "dpad_longpress"@, dir),
    decreases sections.len(),
{
    lemma_parts();
    if sections.len() > 0 {
        let before = sections.drop_last();
        let n = sections.len() - 1;
        let dev = DeviceView::read(id, before);
        let now = DeviceView::read(id, sections);
        let e = sections.last().1;
        law_directions_come_from_their_part(before, id, dir);
        assert(sections[n] == sections.last());
        if now.dpad_mappings.contains_key(dir) {
            if dev.dpad_mappings.contains_key(dir) {
                let s = choose|s: int| #[trigger]
                    directions_section(before, s, id, "dpad"@, dir);
                assert(before[s] == sections[s]);
                assert(directions_section(sections, s, id, "dpad"@, dir));
            } else {
                if forall|j: int| !#[trigger] laws::binds_dpad(e, j, dir) {
                    laws::law_other_dpad_bindings_stay(dev.dpad_mappings, e, dir);
                }
                assert(directions_section(sections, n, id, "dpad"@, dir));
            }
        }
        if now.dpad_longpress_mappings.contains_key(dir) {
            if dev.dpad_longpress_mappings.contains_key(dir) {
                let s = choose|s: int| #[trigger]
                    directions_section(before, s, id, "dpad_longpress"@, dir);
                assert(before[s] == sections[s]);
                assert(directions_section(sections, s, id, "dpad_longpress"@, dir));
            } else {
                if forall|j: int| !#[trigger] laws::binds_dpad(e, j, dir) {
                    laws::law_other_dpad_bindings_stay(dev.dpad_longpress_mappings, e, dir);
                }
                assert(directions_section(sections, n, id, "dpad_longpress"@, dir));
            }
        }
    }
}

/// What a part of a device binds a trigger to is in its own map: `triggers`
/// to a short press, `triggers_longpress` to a long one.
pub proof fn law_triggers_reach_their_map(
    sections: SectionList,
    id: Seq<char>,
    s: int,
    i: int,
    trigger: Trigger,
)
    requires
        0 <= s < sections.len(),
        laws::binds_trigger(sections[s].1, i, trigger),
        forall|j: int| i < j ==> !#[trigger] laws::binds_trigger(sections[s].1, j, trigger),
    ensures
        last_part_section(sections, s, id, "triggers"@) ==> DeviceView::read(
            id,
            sections,
        ).trigger_mappings.contains_key(trigger) && Some(DeviceView::read(id, sections).trigger_mappings[trigger])
            == sections[s].1[i].1,
        last_part_section(sections, s, id, "triggers_longpress"@) ==> DeviceView::read(
            id,
            sections,
        ).trigger_longpress_mappings.contains_key(trigger) && Some(DeviceView::read(id, sections).trigger_longpress_mappings[trigger])
            == sections[s].1[i].1,
    decreases sections.len(),
{
    let before = sections.drop_last();
    let n = sections.len() - 1;
    let dev = DeviceView::read(id, before);
    lemma_parts();
    assert(sections[n] == sections.last());
    if s < n {
        assert(before[s] == sections[s]);
        law_triggers_reach_their_map(before, id, s, i, trigger);
        if last_part_section(sections, s, id, "triggers"@) {
            lemma_last_part_shrinks(sections, s, id, "triggers"@);
        }
        if last_part_section(sections, s, id, "triggers_longpress"@) {
            lemma_last_part_shrinks(sections, s, id, "triggers_longpress"@);
        }
    } else {
        laws::law_last_trigger_binding_counts(dev.trigger_mappings, sections[s].1, i, trigger);
        laws::law_last_trigger_binding_counts(dev.trigger_longpress_mappings, sections[s].1, i, trigger);
    }
}

/// Section `s` of a part of a device binds a trigger.
pub open spec fn triggers_section(
    sections: SectionList,
    s: int,
    id: Seq<char>,
    part: Seq<char>,
    trigger: Trigger,
) -> bool {
    &&& part_section(sections, s, id, part)
    &&& exists|i: int| laws::binds_trigger(sections[s].1, i, trigger)
}

/// Nothing is in the map of a part of a device but what that part binds.
pub proof fn law_triggers_come_from_their_part(sections: SectionList, id: Seq<char>, trigger: Trigger)
    ensures
        DeviceView::read(id, sections).trigger_mappings.contains_key(trigger) ==> exists|s: int| #[trigger]
            triggers_section(sections, s, id, "triggers"@, trigger),
        DeviceView::read(id, sections).trigger_longpress_mappings.contains_key(trigger) ==> exists|s: int| #[trigger]
            triggers_section(sections, s, id, "triggers_longpress"@, trigger),
    decreases sections.len(),
{
    lemma_parts();
    if sections.len() > 0 {
        let before = sections.drop_last();
        let n = sections.len() - 1;
        let dev = DeviceView::read(id, before);
        let now = DeviceView::read(id, sections);
        let e = sections.last().1;
        law_triggers_come_from_their_part(before, id, trigger);
        assert(sections[n] == sections.last());
        if now.trigger_mappings.contains_key(trigger) {
            if dev.trigger_mappings.contains_key(trigger) {
                let s = choose|s: int| #[trigger]
                    triggers_section(before, s, id, "triggers"@, trigger);
                assert(before[s] == sections[s]);
                assert(triggers_section(sections, s, id, "triggers"@, trigger));
            } else {
                if forall|j: int| !#[trigger] laws::binds_trigger(e, j, trigger) {
                    laws::law_other_trigger_bindings_stay(dev.trigger_mappings, e, trigger);
                }
                assert(triggers_section(sections, n, id, "triggers"@, trigger));
            }
        }
        if now.trigger_longpress_mappings.contains_key(trigger) {
            if dev.trigger_longpress_mappings.contains_key(trigger) {
                let s = choose|s: int| #[trigger]
                    triggers_section(before, s, id, "triggers_longpress"@, trigger);
                assert(before[s] == sections[s]);
                assert(triggers_section(sections, s, id, "triggers_longpress"@, trigger));
            } else {
                if forall|j: int| !#[trigger] laws::binds_trigger(e, j, trigger) {
                    laws::law_other_trigger_bindings_stay(dev.trigger_longpress_mappings, e, trigger);
                }
                assert(triggers_section(sections, n, id, "triggers_longpress"@, trigger));
            }
        }
    }
}

/// An entry binds a key where its key reads as one and it has a value.
pub proof fn law_what_binds(entries: EntryList, i: int, code: u16)
    requires
        0 <= i < entries.len(),
    ensures
        laws::binds(entries, i, code) <==> config::key_of(entries[i].0) == Some(Key { code })
            && entries[i].1 is Some,
{
}

/// The default layout, script by script.
pub proof fn law_default_scripts(dev: DeviceView)
    ensures
        ({
            let d = dev.with_default_layout().dpad_mappings;
            let m = dev.with_default_layout().mappings;
            &&& d[DpadDirection::Up] == "/mnt/us/kindle-button-mapper/scripts/key.sh KEY_UP"@
            &&& d[DpadDirection::Down] == "/mnt/us/kindle-button-mapper/scripts/key.sh KEY_DOWN"@
            &&& d[DpadDirection::Left] == "/mnt/us/kindle-button-mapper/scripts/key.sh KEY_LEFT"@
            &&& d[DpadDirection::Right] == "/mnt/us/kindle-button-mapper/scripts/key.sh KEY_RIGHT"@
            &&& m[304u16] == "/mnt/us/kindle-button-mapper/scripts/key.sh KEY_ENTER"@
            &&& m[305u16] == "/mnt/us/kindle-button-mapper/scripts/key.sh KEY_BACK"@
            &&& m[310u16] == "/mnt/us/kindle-button-mapper/scripts/key.sh page_prev"@
            &&& m[311u16] == "/mnt/us/kindle-button-mapper/scripts/key.sh page_next"@
        }),
        forall|code: u16|
            code != 304 && code != 305 && code != 310 && code != 311
                ==> #[trigger] dev.with_default_layout().mappings.contains_key(code)
                == dev.mappings.contains_key(code) && (dev.mappings.contains_key(code)
                ==> dev.with_default_layout().mappings[code] == dev.mappings[code]),
        dev.with_default_layout().long_press_mappings == dev.long_press_mappings,
        dev.with_default_layout().dpad_longpress_mappings == dev.dpad_longpress_mappings,
        dev.with_default_layout().trigger_mappings == dev.trigger_mappings,
        dev.with_default_layout().trigger_longpress_mappings == dev.trigger_longpress_mappings,
        dev.with_default_layout().id == dev.id,
        same_description(dev.with_default_layout(), dev),
{
    reveal_strlit("/mnt/us/kindle-button-mapper/scripts/key.sh");
    reveal_strlit("KEY_UP");
    reveal_strlit("/mnt/us/kindle-button-mapper/scripts/key.sh KEY_UP");
    assert(config::key_script("KEY_UP"@) =~= "/mnt/us/kindle-button-mapper/scripts/key.sh KEY_UP"@);
    reveal_strlit("KEY_DOWN");
    reveal_strlit("/mnt/us/kindle-button-mapper/scripts/key.sh KEY_DOWN");
    assert(config::key_script("KEY_DOWN"@) =~= "/mnt/us/kindle-button-mapper/scripts/key.sh KEY_DOWN"@);
    reveal_strlit("KEY_LEFT");
    reveal_strlit("/mnt/us/kindle-button-mapper/scripts/key.sh KEY_LEFT");
    assert(config::key_script("KEY_LEFT"@) =~= "/mnt/us/kindle-button-mapper/scripts/key.sh KEY_LEFT"@);
    reveal_strlit("KEY_RIGHT");
    reveal_strlit("/mnt/us/kindle-button-mapper/scripts/key.sh KEY_RIGHT");
    assert(config::key_script("KEY_RIGHT"@) =~= "/mnt/us/kindle-button-mapper/scripts/key.sh KEY_RIGHT"@);
    reveal_strlit("KEY_ENTER");
    reveal_strlit("/mnt/us/kindle-button-mapper/scripts/key.sh KEY_ENTER");
    assert(config::key_script("KEY_ENTER"@) =~= "/mnt/us/kindle-button-mapper/scripts/key.sh KEY_ENTER"@);
    reveal_strlit("KEY_BACK");
    reveal_strlit("/mnt/us/kindle-button-mapper/scripts/key.sh KEY_BACK");
    assert(config::key_script("KEY_BACK"@) =~= "/mnt/us/kindle-button-mapper/scripts/key.sh KEY_BACK"@);
    reveal_strlit("page_prev");
    reveal_strlit("/mnt/us/kindle-button-mapper/scripts/key.sh page_prev");
    assert(config::key_script("page_prev"@) =~= "/mnt/us/kindle-button-mapper/scripts/key.sh page_prev"@);
    reveal_strlit("page_next");
    reveal_strlit("/mnt/us/kindle-button-mapper/scripts/key.sh page_next");
    assert(config::key_script("page_next"@) =~= "/mnt/us/kindle-button-mapper/scripts/key.sh page_next"@);
}

/// The messages about a file that was not loaded name the file, and why.
pub proof fn law_load_messages(path: Seq<char>, why: String)
    ensures
        LoadError::Create(why).message_of(path) == "Cannot create "@ + path + ": "@ + why@,
        LoadError::Read(why).message_of(path) == "Failed to load config: couldn't read "@ + path
            + ": "@ + why@,
        LoadError::OldFormat.message_of(path) == path
            + " uses the old config format. Delete it and re-add your device via the Button Mapper app."@,
{
}

/// A map of directions holds what its four fields hold.
pub proof fn law_dpad_map_shows_its_fields(m: DpadMap)
    ensures
        m@.contains_key(DpadDirection::Up) == m.up is Some,
        m@.contains_key(DpadDirection::Down) == m.down is Some,
        m@.contains_key(DpadDirection::Left) == m.left is Some,
        m@.contains_key(DpadDirection::Right) == m.right is Some,
        m.up matches Some(s) ==> m@[DpadDirection::Up] == s@,
        m.down matches Some(s) ==> m@[DpadDirection::Down] == s@,
        m.left matches Some(s) ==> m@[DpadDirection::Left] == s@,
        m.right matches Some(s) ==> m@[DpadDirection::Right] == s@,
{
}

/// A map of triggers holds what its two fields hold.
pub proof fn law_trigger_map_shows_its_fields(m: TriggerMap)
    ensures
        m@.contains_key(Trigger::LT) == m.lt is Some,
        m@.contains_key(Trigger::RT) == m.rt is Some,
        m.lt matches Some(s) ==> m@[Trigger::LT] == s@,
        m.rt matches Some(s) ==> m@[Trigger::RT] == s@,
{
}

/// The text that an optional string holds.
pub open spec fn holds(shown: Option<Seq<char>>, held: Option<String>) -> bool {
    match held {
        Some(s) => shown == Some(s@),
        None => shown is None,
    }
}

/// A device says what its fields hold.
pub proof fn law_device_shows_its_fields(dev: DeviceConfig, code: u16)
    ensures
        dev@.id == dev.id@,
        holds(dev@.name, dev.name),
        holds(dev@.uniq, dev.uniq),
        dev@.grab == dev.grab,
        dev@.grab_explicit == dev.grab_explicit,
        dev@.passthrough == dev.passthrough,
        holds(dev@.keyboard_layout, dev.keyboard_layout),
        dev@.mappings.contains_key(code) == dev.mappings@.contains_key(code),
        dev.mappings@.contains_key(code) ==> dev@.mappings[code] == dev.mappings@[code]@,
        dev@.long_press_mappings.contains_key(code) == dev.long_press_mappings@.contains_key(code),
        dev.long_press_mappings@.contains_key(code) ==> dev@.long_press_mappings[code]
            == dev.long_press_mappings@[code]@,
        dev@.dpad_mappings == dev.dpad_mappings@,
        dev@.dpad_longpress_mappings == dev.dpad_longpress_mappings@,
        dev@.trigger_mappings == dev.trigger_mappings@,
        dev@.trigger_longpress_mappings == dev.trigger_longpress_mappings@,
{
}

/// A configuration says what its fields hold.
pub proof fn law_config_shows_its_fields(c: Config, i: int)
    ensures
        c@.devices.len() == c.devices@.len(),
        0 <= i < c.devices@.len() ==> c@.devices[i] == c.devices@[i]@,
        c@.debounce_ms == c.debounce_ms,
        c@.long_press_ms == c.long_press_ms,
        c@.repeat_ms == c.repeat_ms,
        c@.log_buttons == c.log_buttons,
        c@.keep_awake == c.keep_awake,
        holds(c@.on_connect, c.on_connect),
        holds(c@.on_disconnect, c.on_disconnect),
{
}

/// A section says its name and, in order, its keys and their values.
pub proof fn law_section_shows_its_fields(s: Section, i: int)
    ensures
        s@.0 == s.name@,
        s@.1.len() == s.entries@.len(),
        0 <= i < s.entries@.len() ==> s@.1[i].0 == s.entries@[i].0@ && holds(
            s@.1[i].1,
            s.entries@[i].1,
        ),
{
}

/// The reload state says what its fields hold.
pub proof fn law_reload_shows_its_fields(r: Reload, i: int)
    ensures
        r@.requested == r.requested,
        r@.generation == r.generation,
        r@.devices.len() == r.devices@.len(),
        0 <= i < r.devices@.len() ==> r@.devices[i] == r.devices@[i]@,
{
}

/// A signal is a request and nothing else.
pub proof fn law_signal_is_a_request(state: ReloadView)
    ensures
        state.signalled().requested,
        state.signalled().generation == state.generation,
        state.signalled().devices == state.devices,
{
}

/// Without a request a poll changes nothing. With one it takes the request
/// back, and the generation goes up by one, from the largest back to 0,
/// exactly where the file could be loaded.
pub proof fn law_generation_counts_reloads(state: ReloadView, text: Option<Seq<char>>)
    ensures
        !state.requested ==> state.polled(text) == state,
        state.requested ==> !state.polled(text).requested,
        state.requested && (text matches Some(t) && reload::loadable(t) is Some) ==> state.polled(
            text,
        ).generation == if state.generation == 0xffff_ffff_ffff_ffff {
            0
        } else {
            state.generation + 1
        },
        state.requested && !(text matches Some(t) && reload::loadable(t) is Some) ==> state.polled(
            text,
        ).generation == state.generation && state.polled(text).devices == state.devices,
{
}

/// A text can be loaded exactly where it can be parsed and is not of the old
/// format, and what is loaded is what was parsed.
pub proof fn law_loadable_texts(t: Seq<char>)
    ensures
        match outside::ini_sections(t) {
            Ok(sections) => if config::old_format(sections) {
                reload::loadable(t) is None
            } else {
                reload::loadable(t) == Some(sections)
            },
            Err(_) => reload::loadable(t) is None,
        },
{
}

/// The devices that need a restart to be watched are those of the new
/// configuration whose id the running one does not have.
pub proof fn law_unwatched_devices(
    running: Seq<DeviceView>,
    new: Seq<DeviceView>,
    id: Seq<char>,
)
    ensures
        reload::unwatched_of(running, new).contains(id) <==> (exists|i: int|
            0 <= i < new.len() && (#[trigger] new[i]).id == id) && !(exists|i: int|
            0 <= i < running.len() && (#[trigger] running[i]).id == id),
        reload::unwatched_of(running, new).len() <= new.len(),
        running.len() == 0 ==> reload::unwatched_of(running, new) =~= Seq::new(
            new.len(),
            |i: int| new[i].id,
        ),
    decreases new.len(),
{
    if new.len() > 0 {
        let before = new.drop_last();
        let n = new.len() - 1;
        let old_ids = reload::unwatched_of(running, before);
        let ids = reload::unwatched_of(running, new);
        law_unwatched_devices(running, before, id);
        assert(new[n] == new.last());
        if ids.contains(id) {
            let k = choose|k: int| 0 <= k < ids.len() && ids[k] == id;
            if k < old_ids.len() {
                assert(old_ids[k] == id);
                let i = choose|i: int| 0 <= i < before.len() && (#[trigger] before[i]).id == id;
                assert(new[i].id == id);
            } else {
                assert(new[n].id == id);
            }
        }
        if (exists|i: int| 0 <= i < new.len() && (#[trigger] new[i]).id == id) && !(exists|i: int|
            0 <= i < running.len() && (#[trigger] running[i]).id == id) {
            let i = choose|i: int| 0 <= i < new.len() && (#[trigger] new[i]).id == id;
            if i < n {
                assert(before[i].id == id);
                let k = choose|k: int| 0 <= k < old_ids.len() && old_ids[k] == id;
                assert(ids[k] == id);
            } else {
                assert(ids[old_ids.len() as int] == id);
            }
        }
    }
}

/// A file of the present format is loaded, and one of the old format refused
/// as such.
pub proof fn law_which_files_are_loaded(sections: SectionList, result: Result<Config, LoadError>)
    requires
        config::loads(sections, result),
    ensures
        result is Ok <==> !config::old_format(sections),
        config::old_format(sections) ==> result == Err::<Config, LoadError>(LoadError::OldFormat),
        result matches Ok(c) ==> c@ == ConfigView::read(sections),
{
}

/// The settings of a loaded file are in the fields of the configuration.
pub proof fn law_loaded_settings(
    sections: SectionList,
    result: Result<Config, LoadError>,
    s: int,
    i: int,
    n: u64,
    value: Seq<char>,
)
    requires
        config::loads(sections, result),
        !config::old_format(sections),
    ensures
        result matches Ok(c) && {
            &&& set(sections, s, i, "debounce_ms"@, text::decimal(n as nat)) ==> c.debounce_ms == n
            &&& set(sections, s, i, "long_press_ms"@, text::decimal(n as nat)) ==> c.long_press_ms
                == n
            &&& set(sections, s, i, "repeat_ms"@, text::decimal(n as nat)) ==> c.repeat_ms == n
            &&& set(sections, s, i, "log_buttons"@, value) ==> c.log_buttons == config::truth(value)
            &&& set(sections, s, i, "keep_awake"@, value) ==> c.keep_awake == config::truth(value)
            &&& set(sections, s, i, "on_connect"@, value) && value.len() > 0 ==> holds(
                Some(value),
                c.on_connect,
            )
            &&& set(sections, s, i, "on_disconnect"@, value) && value.len() > 0 ==> holds(
                Some(value),
                c.on_disconnect,
            )
        },
{
    law_number_settings(sections, s, i, n);
    law_other_settings(sections, s, i, value);
    if let Ok(c) = result {
        law_config_shows_its_fields(c, 0);
    }
}

/// The devices of a loaded file are those that the file identifies, each as
/// its own sections say.
pub proof fn law_loaded_devices(
    sections: SectionList,
    result: Result<Config, LoadError>,
    k: int,
)
    requires
        config::loads(sections, result),
        result matches Ok(c) && 0 <= k < c.devices@.len(),
    ensures
        ({
            let dev = (result->Ok_0).devices@[k];
            &&& dev@ == DeviceView::read(dev.id@, sections)
            &&& dev.name is Some || dev.uniq is Some
        }),
{
    let c = result->Ok_0;
    let id = c.devices@[k].id@;
    let devices = ConfigView::read(sections).devices;
    law_config_shows_its_fields(c, k);
    law_device_shows_its_fields(c.devices@[k], 0);
    assert(devices[k] == c.devices@[k]@);
    assert(devices[k].id == id);
    laws::law_config_has_the_identified_devices(sections, id);
    reload::law_found_where_known(devices, id);
    assert(reload::known(devices, id));
    law_found_device_comes_first(devices, id, k);
}

/// The device that is found is the first of its id.
pub proof fn law_found_device_comes_first(devices: Seq<DeviceView>, id: Seq<char>, k: int)
    requires
        0 <= k < devices.len(),
        devices[k].id == id,
        forall|j: int| 0 <= j < k ==> (#[trigger] devices[j]).id != id,
    ensures
        reload::found(devices, id) == Some(devices[k]),
    decreases devices.len(),
{
    if k > 0 {
        let rest = devices.skip(1);
        assert(devices[0].id != id);
        assert forall|j: int| 0 <= j < k - 1 implies (#[trigger] rest[j]).id != id by {
            assert(rest[j] == devices[j + 1]);
        }
        assert(rest[k - 1] == devices[k]);
        law_found_device_comes_first(rest, id, k - 1);
    }
}

/// A text that the parser refuses is refused with the parser's own message, and
/// any other comes to what its sections come to.
pub proof fn law_which_texts_are_loaded(t: Seq<char>, result: Result<Config, LoadError>)
    requires
        config::loads_text(t, result),
    ensures
        outside::ini_sections(t) matches Ok(sections) ==> config::loads(sections, result),
        outside::ini_sections(t) matches Err(why) ==> (result matches Err(LoadError::Read(w)) && w@
            == why),
        result is Ok <==> reload::loadable(t) is Some,
{
}

/// Publishing changes the running devices and nothing else.
pub proof fn law_publishing(state: ReloadView, devices: Seq<DeviceView>)
    ensures
        state.published(devices).devices == devices,
        state.published(devices).requested == state.requested,
        state.published(devices).generation == state.generation,
{
}

/// A poll says that it was idle exactly where nothing was asked for, that a
/// reload was applied exactly where one was asked for and the file could be
/// loaded, and otherwise that the running configuration was kept. The devices
/// that it names are those that the running configuration did not have.
pub proof fn law_what_a_poll_says(
    state: ReloadView,
    contents: Result<String, LoadError>,
    said: reload::Polled,
)
    requires
        reload::poll_says(state, contents, said),
    ensures
        said is Idle <==> !state.requested,
        said is Applied <==> state.requested && (contents matches Ok(t) && reload::loadable(
            t@,
        ) is Some),
        state.requested ==> (contents matches Err(e) ==> said == reload::Polled::Kept(e)),
        said matches reload::Polled::Applied { unwatched } ==> text::views(unwatched@)
            == reload::unwatched_of(
            state.devices,
            ConfigView::read(reload::loadable(contents->Ok_0@)->0).devices,
        ),
{
}

/// A code is read as a code whatever key goes by that name, and any other text
/// is the named key, if there is one.
pub proof fn law_codes_count_before_names(
    s: Seq<char>,
    digits: Seq<char>,
    code: u16,
    named: Option<u16>,
)
    ensures
        config::code_or_named(text::decimal(code as nat), named) == Some(Key { code }),
        text::unsigned(digits, 16, 65535) == Some(code as int) ==> config::code_or_named(
            "0x"@ + digits,
            named,
        ) == Some(Key { code }),
        text::unsigned(s, 10, 65535) is None && !"0x"@.is_prefix_of(s) ==> config::code_or_named(
            s,
            named,
        ) == match named {
            Some(c) => Some(Key { code: c }),
            None => None,
        },
        text::unsigned(digits, 16, 65535) is None ==> config::code_or_named("0x"@ + digits, named)
            == match named {
            Some(c) => Some(Key { code: c }),
            None => None,
        },
{
    reveal_strlit("0x");
    text::law_decimal_reads_back(code as nat, 65535);
    let t = "0x"@ + digits;
    assert(t[1] == 'x');
    text::lemma_not_a_number(t, 10, 1);
    assert(t.skip(2) =~= digits);
    if s.len() >= 2 && s[0] == '0' && s[1] == 'x' {
        assert("0x"@ =~= s.subrange(0, 2));
        assert("0x"@.is_prefix_of(s));
    }
}

/// A list of sections says, in order, what each of them says.
pub proof fn law_section_lists(v: Seq<Section>, i: int)
    ensures
        outside::section_views(v).len() == v.len(),
        0 <= i < v.len() ==> outside::section_views(v)[i] == v[i]@,
{
}

} // verus!
