//! What holds of the library as a whole.

use crate::action;
use crate::action::{MoveView, StepView};
use crate::config;
use crate::config::{ConfigView, DeviceView, Key};
use crate::input;
use crate::mappings::{DpadDirection, Trigger};
use crate::outside;
use crate::outside::{EntryList, SectionList};
use crate::reload;
use crate::text;
use crate::text::Run;
use crate::vkeyboard;
use crate::vkeyboard::{Injection, Injector};
use vstd::prelude::*;
use vstd::utf8::*;

verus! {

proof fn lemma_identified(devices: Seq<DeviceView>)
    requires
        forall|i: int, j: int|
            #![trigger devices[i], devices[j]]
            0 <= i < j < devices.len() ==> devices[i].id != devices[j].id,
    ensures
        forall|i: int|
            #![trigger config::identified_only(devices)[i]]
            0 <= i < config::identified_only(devices).len()
                ==> config::identified_only(devices)[i].identified() && devices.contains(
                config::identified_only(devices)[i],
            ),
        forall|i: int, j: int|
            #![trigger config::identified_only(devices)[i], config::identified_only(devices)[j]]
            0 <= i < j < config::identified_only(devices).len()
                ==> config::identified_only(devices)[i].id != config::identified_only(
                devices,
            )[j].id,
        forall|i: int|
            0 <= i < devices.len() && (#[trigger] devices[i]).identified()
                ==> config::identified_only(devices).contains(devices[i]),
    decreases devices.len(),
{
    if devices.len() > 0 {
        let before = devices.drop_last();
        lemma_identified(before);
        let kept = config::identified_only(before);
        let all = config::identified_only(devices);
        let last = devices.last();
        assert forall|i: int| #![trigger all[i]] 0 <= i < all.len() implies all[i].identified()
            && devices.contains(all[i]) by {
            if i < kept.len() {
                assert(all[i] == kept[i]);
                let k = choose|k: int| 0 <= k < before.len() && before[k] == kept[i];
                assert(devices[k] == kept[i]);
            } else {
                assert(devices[devices.len() - 1] == last);
            }
        }
        assert forall|i: int, j: int|
            #![trigger all[i], all[j]]
            0 <= i < j < all.len() implies all[i].id != all[j].id by {
            assert(all[i] == kept[i]);
            if j < kept.len() {
                assert(all[j] == kept[j]);
            } else {
                let k = choose|k: int| 0 <= k < before.len() && before[k] == kept[i];
                assert(devices[k].id != devices[devices.len() - 1].id);
            }
        }
        assert forall|i: int|
            0 <= i < devices.len() && (#[trigger] devices[i]).identified() implies all.contains(
            devices[i],
        ) by {
            if i < before.len() {
                assert(before[i].identified());
                let k = choose|k: int| 0 <= k < kept.len() && kept[k] == before[i];
                assert(all[k] == devices[i]);
            } else {
                assert(all[kept.len() as int] == last);
            }
        }
    }
}

proof fn lemma_found(devices: Seq<DeviceView>, i: int)
    requires
        0 <= i < devices.len(),
        forall|j: int| 0 <= j < i ==> (#[trigger] devices[j]).id != devices[i].id,
    ensures
        reload::found(devices, devices[i].id) == Some(devices[i]),
    decreases devices.len(),
{
    if i > 0 {
        let rest = devices.skip(1);
        assert(devices[0].id != devices[i].id);
        assert forall|j: int| 0 <= j < i - 1 implies (#[trigger] rest[j]).id != rest[i - 1].id by {
            assert(rest[j] == devices[j + 1]);
        }
        lemma_found(rest, i - 1);
    }
}

/// A device is in the configuration exactly where some section is about it
/// and the file gives its name or its unique id, and then it is there as its
/// own sections say. No id is there twice.
pub proof fn law_config_has_the_identified_devices(sections: SectionList, id: Seq<char>)
    ensures
        ({
            let devices = ConfigView::read(sections).devices;
            let dev = DeviceView::read(id, sections);
            &&& reload::found(devices, id) == if config::device_ids(sections).contains(id)
                && dev.identified() {
                Some(dev)
            } else {
                None
            }
            &&& forall|i: int, j: int|
                #![trigger devices[i], devices[j]]
                0 <= i < j < devices.len() ==> devices[i].id != devices[j].id
        }),
{
    let ids = config::device_ids(sections);
    let all = config::all_devices(sections);
    let devices = ConfigView::read(sections).devices;
    let dev = DeviceView::read(id, sections);
    config::lemma_ids_distinct(sections);
    config::lemma_read_keeps_id(id, sections);
    assert forall|i: int| 0 <= i < all.len() implies (#[trigger] all[i]).id == ids[i] by {
        config::lemma_read_keeps_id(ids[i], sections);
    }
    assert forall|i: int, j: int|
        #![trigger all[i], all[j]]
        0 <= i < j < all.len() implies all[i].id != all[j].id by {
        assert(all[i].id == ids[i]);
        assert(all[j].id == ids[j]);
    }
    lemma_identified(all);
    reload::law_found_where_known(devices, id);
    if reload::known(devices, id) {
        let i = choose|i: int| 0 <= i < devices.len() && (#[trigger] devices[i]).id == id;
        lemma_found(devices, i);
        let k = choose|k: int| 0 <= k < all.len() && all[k] == devices[i];
        assert(all[k].id == ids[k]);
        assert(ids[k] == id);
        assert(devices[i] == dev);
    } else if ids.contains(id) && dev.identified() {
        let k = choose|k: int| 0 <= k < ids.len() && ids[k] == id;
        assert(all[k] == dev);
        assert(devices.contains(dev));
        let i = choose|i: int| 0 <= i < devices.len() && devices[i] == dev;
        assert(devices[i].id == id);
    }
}

/// The file first mentions a device in section `p`.
pub open spec fn first_about(sections: SectionList, p: int, id: Seq<char>) -> bool {
    &&& 0 <= p < sections.len()
    &&& about(sections, p, id)
    &&& forall|r: int| 0 <= r < p ==> !#[trigger] about(sections, r, id)
}

/// Section `p` is about a device.
pub open spec fn about(sections: SectionList, p: int, id: Seq<char>) -> bool {
    config::device_part(sections[p].0) matches Some((d, _)) && d == id
}

proof fn lemma_first_about_grows(sections: SectionList, p: int, id: Seq<char>)
    requires
        sections.len() > 0,
        first_about(sections.drop_last(), p, id),
    ensures
        first_about(sections, p, id),
{
    let before = sections.drop_last();
    assert(sections[p] == before[p]);
    assert forall|r: int| 0 <= r < p implies !#[trigger] about(sections, r, id) by {
        assert(sections[r] == before[r]);
        assert(!about(before, r, id));
    }
}

proof fn lemma_unlisted(sections: SectionList, id: Seq<char>, r: int)
    requires
        !config::device_ids(sections).contains(id),
        0 <= r < sections.len(),
    ensures
        !about(sections, r, id),
    decreases sections.len(),
{
    let before = sections.drop_last();
    let ids = config::device_ids(before);
    if ids.contains(id) {
        let k = choose|k: int| 0 <= k < ids.len() && ids[k] == id;
        assert(config::device_ids(sections)[k] == id);
    }
    if r < before.len() {
        lemma_unlisted(before, id, r);
        assert(sections[r] == before[r]);
    } else if about(sections, r, id) {
        assert(config::device_ids(sections) == ids.push(id));
        assert(ids.push(id)[ids.len() as int] == id);
    }
}

/// The ids stand in the order in which the file first mentions them.
proof fn lemma_ids_in_order(sections: SectionList, a: int, b: int)
    requires
        0 <= a < b < config::device_ids(sections).len(),
    ensures
        exists|p: int, q: int| #[trigger]
            first_about(sections, p, config::device_ids(sections)[a]) && #[trigger] first_about(
                sections,
                q,
                config::device_ids(sections)[b],
            ) && p < q,
    decreases sections.len(),
{
    let before = sections.drop_last();
    let old_ids = config::device_ids(before);
    let ids = config::device_ids(sections);
    if b < old_ids.len() {
        assert(ids[a] == old_ids[a]);
        assert(ids[b] == old_ids[b]);
        lemma_ids_in_order(before, a, b);
        let (p, q) = choose|p: int, q: int| #[trigger]
            first_about(before, p, old_ids[a]) && #[trigger] first_about(before, q, old_ids[b]) && p
                < q;
        lemma_first_about_grows(sections, p, ids[a]);
        lemma_first_about_grows(sections, q, ids[b]);
        assert(first_about(sections, p, ids[a]) && first_about(sections, q, ids[b]) && p < q);
    } else {
        let n = sections.len() - 1;
        assert(ids[a] == old_ids[a]);
        lemma_mentioned(before, a);
        let p = choose|p: int| first_about(before, p, old_ids[a]);
        lemma_first_about_grows(sections, p, ids[a]);
        assert(sections[n] == sections.last());
        assert forall|r: int| 0 <= r < n implies !#[trigger] about(sections, r, ids[b]) by {
            lemma_unlisted(before, ids[b], r);
            assert(sections[r] == before[r]);
        }
        assert(first_about(sections, n, ids[b]));
        assert(first_about(sections, p, ids[a]) && first_about(sections, n, ids[b]) && p < n);
    }
}

proof fn lemma_mentioned(sections: SectionList, k: int)
    requires
        0 <= k < config::device_ids(sections).len(),
    ensures
        exists|p: int| first_about(sections, p, config::device_ids(sections)[k]),
    decreases sections.len(),
{
    let before = sections.drop_last();
    let old_ids = config::device_ids(before);
    let ids = config::device_ids(sections);
    if k < old_ids.len() {
        assert(ids[k] == old_ids[k]);
        lemma_mentioned(before, k);
        let p = choose|p: int| first_about(before, p, old_ids[k]);
        lemma_first_about_grows(sections, p, ids[k]);
    } else {
        let n = sections.len() - 1;
        assert(sections[n] == sections.last());
        assert forall|r: int| 0 <= r < n implies !#[trigger] about(sections, r, ids[k]) by {
            lemma_unlisted(before, ids[k], r);
            assert(sections[r] == before[r]);
        }
        assert(first_about(sections, n, ids[k]));
    }
}

/// The identified devices stand in the order of the list they come from.
proof fn lemma_identified_in_order(devices: Seq<DeviceView>, i: int, j: int)
    requires
        0 <= i < j < config::identified_only(devices).len(),
    ensures
        exists|a: int, b: int|
            #![trigger devices[a], devices[b]]
            0 <= a < b < devices.len() && devices[a] == config::identified_only(devices)[i]
                && devices[b] == config::identified_only(devices)[j],
    decreases devices.len(),
{
    let before = devices.drop_last();
    let kept = config::identified_only(before);
    let all = config::identified_only(devices);
    assert(all[i] == kept[i]);
    if j < kept.len() {
        assert(all[j] == kept[j]);
        lemma_identified_in_order(before, i, j);
        let (a, b) = choose|a: int, b: int|
            #![trigger before[a], before[b]]
            0 <= a < b < before.len() && before[a] == kept[i] && before[b] == kept[j];
        assert(devices[a] == all[i] && devices[b] == all[j]);
    } else {
        lemma_identified_from(before, i);
        let a = choose|a: int| 0 <= a < before.len() && #[trigger] before[a] == kept[i];
        assert(devices[a] == all[i]);
        assert(devices[devices.len() - 1] == all[j]);
    }
}

proof fn lemma_identified_from(devices: Seq<DeviceView>, i: int)
    requires
        0 <= i < config::identified_only(devices).len(),
    ensures
        exists|a: int|
            0 <= a < devices.len() && #[trigger] devices[a] == config::identified_only(devices)[i],
    decreases devices.len(),
{
    let before = devices.drop_last();
    let kept = config::identified_only(before);
    if i < kept.len() {
        lemma_identified_from(before, i);
        let a = choose|a: int| 0 <= a < before.len() && #[trigger] before[a] == kept[i];
        assert(devices[a] == kept[i]);
    } else {
        assert(devices[devices.len() - 1] == config::identified_only(devices)[i]);
    }
}

/// The devices of the configuration stand in the order in which the file first
/// mentions them.
pub proof fn law_devices_keep_the_order_of_the_file(sections: SectionList, i: int, j: int)
    requires
        0 <= i < j < ConfigView::read(sections).devices.len(),
    ensures
        exists|p: int, q: int| #[trigger]
            first_about(sections, p, ConfigView::read(sections).devices[i].id)
                && #[trigger] first_about(sections, q, ConfigView::read(sections).devices[j].id)
                && p < q,
{
    let all = config::all_devices(sections);
    let ids = config::device_ids(sections);
    let devices = ConfigView::read(sections).devices;
    lemma_identified_in_order(all, i, j);
    let (a, b) = choose|a: int, b: int|
        #![trigger all[a], all[b]]
        0 <= a < b < all.len() && all[a] == devices[i] && all[b] == devices[j];
    config::lemma_read_keeps_id(ids[a], sections);
    config::lemma_read_keeps_id(ids[b], sections);
    lemma_ids_in_order(sections, a, b);
}

proof fn lemma_insert_other(
    sections: SectionList,
    k: int,
    other: (Seq<char>, EntryList),
    id: Seq<char>,
)
    requires
        0 <= k <= sections.len(),
        !(config::device_part(other.0) matches Some((d, _)) && d == id),
    ensures
        DeviceView::read(id, sections.insert(k, other)) == DeviceView::read(id, sections),
    decreases sections.len(),
{
    let more = sections.insert(k, other);
    if k == sections.len() {
        assert(more.drop_last() =~= sections);
        assert(more.last() == other);
    } else {
        lemma_insert_other(sections.drop_last(), k, other, id);
        assert(more.drop_last() =~= sections.drop_last().insert(k, other));
        assert(more.last() == sections.last());
    }
}

proof fn lemma_listed_where_mentioned(sections: SectionList, id: Seq<char>)
    ensures
        config::device_ids(sections).contains(id) <==> exists|p: int|
            0 <= p < sections.len() && #[trigger] about(sections, p, id),
{
    let ids = config::device_ids(sections);
    if ids.contains(id) {
        let k = choose|k: int| 0 <= k < ids.len() && ids[k] == id;
        lemma_mentioned(sections, k);
        let p = choose|p: int| first_about(sections, p, ids[k]);
        assert(about(sections, p, id));
    } else if exists|p: int| 0 <= p < sections.len() && #[trigger] about(sections, p, id) {
        let p = choose|p: int| 0 <= p < sections.len() && #[trigger] about(sections, p, id);
        lemma_unlisted(sections, id, p);
    }
}

/// A section about another device, or about none, changes nothing of a device,
/// wherever in the file it stands: neither what the file says of it nor
/// whether it is in the configuration.
pub proof fn law_other_sections_change_nothing(
    sections: SectionList,
    k: int,
    other: (Seq<char>, EntryList),
    id: Seq<char>,
)
    requires
        0 <= k <= sections.len(),
        !(config::device_part(other.0) matches Some((d, _)) && d == id),
    ensures
        DeviceView::read(id, sections.insert(k, other)) == DeviceView::read(id, sections),
        reload::found(ConfigView::read(sections.insert(k, other)).devices, id) == reload::found(
            ConfigView::read(sections).devices,
            id,
        ),
{
    let more = sections.insert(k, other);
    lemma_insert_other(sections, k, other, id);
    law_config_has_the_identified_devices(sections, id);
    law_config_has_the_identified_devices(more, id);
    lemma_listed_where_mentioned(sections, id);
    lemma_listed_where_mentioned(more, id);
    assert(!about(more, k, id));
    if exists|p: int| 0 <= p < sections.len() && #[trigger] about(sections, p, id) {
        let p = choose|p: int| 0 <= p < sections.len() && #[trigger] about(sections, p, id);
        assert(about(more, if p < k { p } else { p + 1 }, id));
    }
    if exists|p: int| 0 <= p < more.len() && #[trigger] about(more, p, id) {
        let p = choose|p: int| 0 <= p < more.len() && #[trigger] about(more, p, id);
        assert(about(sections, if p < k { p } else { p - 1 }, id));
    }
}

/// Section `i` is a device's own, and says how to recognise the device.
pub open spec fn identifying(sections: SectionList, i: int, id: Seq<char>) -> bool {
    &&& own_section(sections, i, id)
    &&& config::value_of(sections[i].1, "name"@) is Some || config::value_of(
        sections[i].1,
        "uniq"@,
    ) is Some
}

proof fn lemma_identified_where_said(sections: SectionList, id: Seq<char>)
    ensures
        DeviceView::read(id, sections).identified() <==> exists|i: int| #[trigger]
            identifying(sections, i, id),
    decreases sections.len(),
{
    if sections.len() > 0 {
        let before = sections.drop_last();
        let n = sections.len() - 1;
        lemma_identified_where_said(before, id);
        assert(sections[n] == sections.last());
        assert forall|i: int| i != n implies #[trigger] identifying(sections, i, id)
            == identifying(before, i, id) by {
            if 0 <= i < n {
                assert(sections[i] == before[i]);
            }
        }
        if DeviceView::read(id, before).identified() {
            let i = choose|i: int| #[trigger] identifying(before, i, id);
            assert(identifying(sections, i, id));
        } else if DeviceView::read(id, sections).identified() {
            assert(identifying(sections, n, id));
        } else if exists|i: int| #[trigger] identifying(sections, i, id) {
            let i = choose|i: int| #[trigger] identifying(sections, i, id);
            assert(identifying(before, i, id) || i == n);
        }
    }
}

/// A device is in the configuration exactly where its own section, `device.ID`,
/// gives its name or its unique id.
pub proof fn law_listed_where_its_section_identifies_it(sections: SectionList, id: Seq<char>)
    ensures
        reload::found(ConfigView::read(sections).devices, id) is Some <==> exists|i: int| #[trigger]
            identifying(sections, i, id),
{
    law_config_has_the_identified_devices(sections, id);
    lemma_identified_where_said(sections, id);
    lemma_listed_where_mentioned(sections, id);
    if exists|i: int| #[trigger] identifying(sections, i, id) {
        let i = choose|i: int| #[trigger] identifying(sections, i, id);
        assert(about(sections, i, id));
    }
}

/// After a reload a worker gets its device as the file now describes it, or
/// nothing where the file no longer does.
pub proof fn law_reload_hands_out_what_the_file_says(
    state: reload::ReloadView,
    text: Seq<char>,
    id: Seq<char>,
)
    requires
        state.requested,
        reload::loadable(text) is Some,
    ensures
        ({
            let sections = reload::loadable(text)->0;
            let dev = DeviceView::read(id, sections);
            reload::found(state.polled(Some(text)).devices, id) == if config::device_ids(
                sections,
            ).contains(id) && dev.identified() {
                Some(dev)
            } else {
                None
            }
        }),
{
    law_config_has_the_identified_devices(reload::loadable(text)->0, id);
}

/// The section is the device's own, `device.ID`.
pub open spec fn own_section(sections: SectionList, i: int, id: Seq<char>) -> bool {
    &&& 0 <= i < sections.len()
    &&& config::device_part(sections[i].0) matches Some((d, part)) && d == id && part is None
}

/// A grab is explicit exactly where the device's own section gives one, and
/// otherwise the device is grabbed.
pub proof fn law_grab_is_explicit_where_the_file_says_so(sections: SectionList, id: Seq<char>)
    ensures
        DeviceView::read(id, sections).grab_explicit <==> exists|i: int| #[trigger]
            own_section(sections, i, id) && config::value_of(sections[i].1, "grab"@) is Some,
        !DeviceView::read(id, sections).grab_explicit ==> DeviceView::read(id, sections).grab,
    decreases sections.len(),
{
    if sections.len() > 0 {
        let before = sections.drop_last();
        let n = sections.len() - 1;
        law_grab_is_explicit_where_the_file_says_so(before, id);
        assert forall|i: int| 0 <= i < n implies #[trigger] own_section(before, i, id)
            == own_section(sections, i, id) by {
            assert(before[i] == sections[i]);
        }
        if exists|i: int| #[trigger]
            own_section(before, i, id) && config::value_of(before[i].1, "grab"@) is Some {
            let i = choose|i: int| #[trigger]
                own_section(before, i, id) && config::value_of(before[i].1, "grab"@) is Some;
            assert(own_section(sections, i, id));
        }
        if own_section(sections, n, id) && config::value_of(sections[n].1, "grab"@) is Some {
            assert(DeviceView::read(id, sections).grab_explicit);
        }
        if exists|i: int| #[trigger]
            own_section(sections, i, id) && config::value_of(sections[i].1, "grab"@) is Some {
            let i = choose|i: int| #[trigger]
                own_section(sections, i, id) && config::value_of(sections[i].1, "grab"@) is Some;
            if i < n {
                assert(own_section(before, i, id));
            }
        }
        if DeviceView::read(id, sections).grab_explicit && !DeviceView::read(
            id,
            before,
        ).grab_explicit {
            assert(own_section(sections, n, id));
        }
    }
}

/// Passthrough is off unless the device's own section asks for it.
pub proof fn law_passthrough_is_off_unless_asked_for(sections: SectionList, id: Seq<char>)
    requires
        forall|i: int| #[trigger]
            own_section(sections, i, id) ==> !(config::value_of(
                sections[i].1,
                "passthrough"@,
            ) matches Some(v) && config::truth(v)),
    ensures
        !DeviceView::read(id, sections).passthrough,
    decreases sections.len(),
{
    if sections.len() > 0 {
        let before = sections.drop_last();
        let n = sections.len() - 1;
        assert forall|i: int| #[trigger] own_section(before, i, id) implies !(config::value_of(
            before[i].1,
            "passthrough"@,
        ) matches Some(v) && config::truth(v)) by {
            assert(before[i] == sections[i]);
            assert(own_section(sections, i, id));
        }
        law_passthrough_is_off_unless_asked_for(before, id);
        assert(sections[n] == sections.last());
        if config::device_part(sections.last().0) matches Some((d, part)) && d == id && part
            is None {
            assert(own_section(sections, n, id));
        }
    }
}

/// A device that has only its own section, and no section for its buttons, is
/// left unmapped.
pub proof fn law_load_leaves_an_unmapped_device_unmapped(sections: SectionList, id: Seq<char>)
    requires
        forall|i: int|
            0 <= i < sections.len() ==> ((#[trigger] config::device_part(
                sections[i].0,
            )) matches Some((d, part)) ==> d == id ==> part is None),
    ensures
        DeviceView::read(id, sections).unmapped(),
    decreases sections.len(),
{
    if sections.len() > 0 {
        let before = sections.drop_last();
        assert forall|i: int| 0 <= i < before.len() implies ((#[trigger] config::device_part(
            before[i].0,
        )) matches Some((d, part)) ==> d == id ==> part is None) by {
            assert(before[i] == sections[i]);
        }
        law_load_leaves_an_unmapped_device_unmapped(before, id);
        assert(sections[sections.len() - 1] == sections.last());
        assert(config::device_part(sections[sections.len() - 1].0) matches Some((d, part)) ==> d
            == id ==> part is None);
    }
}

/// Entry `i` binds a key to a script.
pub open spec fn binds(entries: EntryList, i: int, code: u16) -> bool {
    &&& 0 <= i < entries.len()
    &&& config::key_of(entries[i].0) matches Some(key) && key.code == code
    &&& entries[i].1 is Some
}

/// Of the entries of a section that bind a key, the last one counts.
pub proof fn law_last_binding_counts(
    m: Map<u16, Seq<char>>,
    entries: EntryList,
    i: int,
    code: u16,
)
    requires
        binds(entries, i, code),
        forall|j: int| i < j ==> !#[trigger] binds(entries, j, code),
    ensures
        config::keys_filled(m, entries).contains_key(code),
        Some(config::keys_filled(m, entries)[code]) == entries[i].1,
    decreases entries.len(),
{
    let before = entries.drop_last();
    let n = entries.len() - 1;
    if i < n {
        assert(before[i] == entries[i]);
        assert forall|j: int| i < j implies !#[trigger] binds(before, j, code) by {
            if j < n {
                assert(before[j] == entries[j]);
                assert(!binds(entries, j, code));
            }
        }
        law_last_binding_counts(m, before, i, code);
        assert(!binds(entries, n, code));
    }
}

/// Entry `i` binds a direction to a script.
pub open spec fn binds_dpad(entries: EntryList, i: int, dir: DpadDirection) -> bool {
    &&& 0 <= i < entries.len()
    &&& config::direction_of(outside::lower_case(entries[i].0)) == Some(dir)
    &&& entries[i].1 is Some
}

/// Of the entries of a section that bind a direction, the last one counts.
pub proof fn law_last_dpad_binding_counts(
    m: Map<DpadDirection, Seq<char>>,
    entries: EntryList,
    i: int,
    dir: DpadDirection,
)
    requires
        binds_dpad(entries, i, dir),
        forall|j: int| i < j ==> !#[trigger] binds_dpad(entries, j, dir),
    ensures
        config::dpad_filled(m, entries).contains_key(dir),
        Some(config::dpad_filled(m, entries)[dir]) == entries[i].1,
    decreases entries.len(),
{
    let before = entries.drop_last();
    let n = entries.len() - 1;
    if i < n {
        assert(before[i] == entries[i]);
        assert forall|j: int| i < j implies !#[trigger] binds_dpad(before, j, dir) by {
            if j < n {
                assert(before[j] == entries[j]);
                assert(!binds_dpad(entries, j, dir));
            }
        }
        law_last_dpad_binding_counts(m, before, i, dir);
        assert(!binds_dpad(entries, n, dir));
    }
}

/// Entry `i` binds a trigger to a script.
pub open spec fn binds_trigger(entries: EntryList, i: int, trigger: Trigger) -> bool {
    &&& 0 <= i < entries.len()
    &&& config::trigger_of(outside::lower_case(entries[i].0)) == Some(trigger)
    &&& entries[i].1 is Some
}

/// Of the entries of a section that bind a trigger, the last one counts.
pub proof fn law_last_trigger_binding_counts(
    m: Map<Trigger, Seq<char>>,
    entries: EntryList,
    i: int,
    trigger: Trigger,
)
    requires
        binds_trigger(entries, i, trigger),
        forall|j: int| i < j ==> !#[trigger] binds_trigger(entries, j, trigger),
    ensures
        config::triggers_filled(m, entries).contains_key(trigger),
        Some(config::triggers_filled(m, entries)[trigger]) == entries[i].1,
    decreases entries.len(),
{
    let before = entries.drop_last();
    let n = entries.len() - 1;
    if i < n {
        assert(before[i] == entries[i]);
        assert forall|j: int| i < j implies !#[trigger] binds_trigger(before, j, trigger) by {
            if j < n {
                assert(before[j] == entries[j]);
                assert(!binds_trigger(entries, j, trigger));
            }
        }
        law_last_trigger_binding_counts(m, before, i, trigger);
        assert(!binds_trigger(entries, n, trigger));
    }
}

/// A key that no entry of a section binds keeps what it was bound to.
pub proof fn law_other_bindings_stay(m: Map<u16, Seq<char>>, entries: EntryList, code: u16)
    requires
        forall|j: int| !#[trigger] binds(entries, j, code),
    ensures
        config::keys_filled(m, entries).contains_key(code) == m.contains_key(code),
        m.contains_key(code) ==> config::keys_filled(m, entries)[code] == m[code],
    decreases entries.len(),
{
    if entries.len() > 0 {
        let before = entries.drop_last();
        assert forall|j: int| !#[trigger] binds(before, j, code) by {
            if 0 <= j < before.len() {
                assert(before[j] == entries[j]);
                assert(!binds(entries, j, code));
            }
        }
        law_other_bindings_stay(m, before, code);
        assert(!binds(entries, entries.len() - 1, code));
    }
}

/// A direction that no entry of a section binds keeps what it was bound to.
pub proof fn law_other_dpad_bindings_stay(m: Map<DpadDirection, Seq<char>>, entries: EntryList, dir: DpadDirection)
    requires
        forall|j: int| !#[trigger] binds_dpad(entries, j, dir),
    ensures
        config::dpad_filled(m, entries).contains_key(dir) == m.contains_key(dir),
        m.contains_key(dir) ==> config::dpad_filled(m, entries)[dir] == m[dir],
    decreases entries.len(),
{
    if entries.len() > 0 {
        let before = entries.drop_last();
        assert forall|j: int| !#[trigger] binds_dpad(before, j, dir) by {
            if 0 <= j < before.len() {
                assert(before[j] == entries[j]);
                assert(!binds_dpad(entries, j, dir));
            }
        }
        law_other_dpad_bindings_stay(m, before, dir);
        assert(!binds_dpad(entries, entries.len() - 1, dir));
    }
}

/// A trigger that no entry of a section binds keeps what it was bound to.
pub proof fn law_other_trigger_bindings_stay(m: Map<Trigger, Seq<char>>, entries: EntryList, trigger: Trigger)
    requires
        forall|j: int| !#[trigger] binds_trigger(entries, j, trigger),
    ensures
        config::triggers_filled(m, entries).contains_key(trigger) == m.contains_key(trigger),
        m.contains_key(trigger) ==> config::triggers_filled(m, entries)[trigger] == m[trigger],
    decreases entries.len(),
{
    if entries.len() > 0 {
        let before = entries.drop_last();
        assert forall|j: int| !#[trigger] binds_trigger(before, j, trigger) by {
            if 0 <= j < before.len() {
                assert(before[j] == entries[j]);
                assert(!binds_trigger(entries, j, trigger));
            }
        }
        law_other_trigger_bindings_stay(m, before, trigger);
        assert(!binds_trigger(entries, entries.len() - 1, trigger));
    }
}

proof fn lemma_bindings_grow(m: Map<u16, Seq<char>>, entries: EntryList, code: u16)
    requires
        m.contains_key(code),
    ensures
        config::keys_filled(m, entries).contains_key(code),
    decreases entries.len(),
{
    if entries.len() > 0 {
        lemma_bindings_grow(m, entries.drop_last(), code);
    }
}

proof fn lemma_bound(m: Map<u16, Seq<char>>, entries: EntryList, i: int, code: u16)
    requires
        binds(entries, i, code),
    ensures
        config::keys_filled(m, entries).contains_key(code),
    decreases entries.len(),
{
    let before = entries.drop_last();
    if i < before.len() {
        assert(before[i] == entries[i]);
        lemma_bound(m, before, i, code);
    }
}

/// One button that the file binds is bound in the device, whatever sections
/// follow, and so the device counts as mapped.
pub proof fn law_one_bound_button_counts_as_mapped(
    sections: SectionList,
    id: Seq<char>,
    s: int,
    i: int,
    code: u16,
)
    requires
        0 <= s < sections.len(),
        config::device_part(sections[s].0) == Some((id, Some("buttons"@))),
        binds(sections[s].1, i, code),
    ensures
        DeviceView::read(id, sections).mappings.contains_key(code),
        !DeviceView::read(id, sections).unmapped(),
    decreases sections.len(),
{
    let before = sections.drop_last();
    let last = sections.last();
    let m = DeviceView::read(id, before).mappings;
    if s < before.len() {
        assert(before[s] == sections[s]);
        law_one_bound_button_counts_as_mapped(before, id, s, i, code);
        lemma_bindings_grow(m, last.1, code);
    } else {
        assert(sections[s] == last);
        lemma_bound(m, last.1, i, code);
    }
    assert(DeviceView::read(id, sections).mappings.dom().contains(code));
}

/// An entry of a part of a device binds something that can be pressed.
pub open spec fn effective(
    part: Option<Seq<char>>,
    entry: (Seq<char>, Option<Seq<char>>),
) -> bool {
    &&& entry.1 is Some
    &&& part matches Some(p) && (if p == "buttons"@ || p == "longpress"@ {
        config::key_of(entry.0) is Some
    } else if p == "dpad"@ || p == "dpad_longpress"@ {
        config::direction_of(outside::lower_case(entry.0)) is Some
    } else if p == "triggers"@ || p == "triggers_longpress"@ {
        config::trigger_of(outside::lower_case(entry.0)) is Some
    } else {
        false
    })
}

/// No entry of a part of a device binds anything.
pub open spec fn binds_nothing(part: Option<Seq<char>>, entries: EntryList) -> bool {
    forall|i: int| 0 <= i < entries.len() ==> !effective(part, #[trigger] entries[i])
}

proof fn lemma_binds_nothing_step(part: Option<Seq<char>>, entries: EntryList)
    requires
        entries.len() > 0,
    ensures
        binds_nothing(part, entries) <==> binds_nothing(part, entries.drop_last()) && !effective(
            part,
            entries.last(),
        ),
{
    let before = entries.drop_last();
    if binds_nothing(part, entries) {
        assert(entries[entries.len() - 1] == entries.last());
        assert forall|i: int| 0 <= i < before.len() implies !effective(part, #[trigger] before[i]) by {
            assert(before[i] == entries[i]);
        }
    }
    if binds_nothing(part, before) && !effective(part, entries.last()) {
        assert forall|i: int| 0 <= i < entries.len() implies !effective(
            part,
            #[trigger] entries[i],
        ) by {
            if i < before.len() {
                assert(before[i] == entries[i]);
            }
        }
    }
}

proof fn lemma_keys_empty(m: Map<u16, Seq<char>>, entries: EntryList, p: Seq<char>)
    requires
        p == "buttons"@ || p == "longpress"@,
    ensures
        config::keys_filled(m, entries).is_empty() <==> m.is_empty() && binds_nothing(
            Some(p),
            entries,
        ),
    decreases entries.len(),
{
    if entries.len() > 0 {
        let before = config::keys_filled(m, entries.drop_last());
        lemma_keys_empty(m, entries.drop_last(), p);
        lemma_binds_nothing_step(Some(p), entries);
        if let (Some(key), Some(script)) = (config::key_of(entries.last().0), entries.last().1) {
            assert(before.insert(key.code, script).dom().contains(key.code));
        }
    }
}

proof fn lemma_dpad_empty(m: Map<DpadDirection, Seq<char>>, entries: EntryList, p: Seq<char>)
    requires
        p == "dpad"@ || p == "dpad_longpress"@,
        p != "buttons"@,
        p != "longpress"@,
    ensures
        config::dpad_filled(m, entries).is_empty() <==> m.is_empty() && binds_nothing(
            Some(p),
            entries,
        ),
    decreases entries.len(),
{
    if entries.len() > 0 {
        let before = config::dpad_filled(m, entries.drop_last());
        lemma_dpad_empty(m, entries.drop_last(), p);
        lemma_binds_nothing_step(Some(p), entries);
        if let (Some(dir), Some(script)) = (
            config::direction_of(outside::lower_case(entries.last().0)),
            entries.last().1,
        ) {
            assert(before.insert(dir, script).dom().contains(dir));
        }
    }
}

proof fn lemma_triggers_empty(m: Map<Trigger, Seq<char>>, entries: EntryList, p: Seq<char>)
    requires
        p == "triggers"@ || p == "triggers_longpress"@,
        p != "buttons"@,
        p != "longpress"@,
        p != "dpad"@,
        p != "dpad_longpress"@,
    ensures
        config::triggers_filled(m, entries).is_empty() <==> m.is_empty() && binds_nothing(
            Some(p),
            entries,
        ),
    decreases entries.len(),
{
    if entries.len() > 0 {
        let before = config::triggers_filled(m, entries.drop_last());
        lemma_triggers_empty(m, entries.drop_last(), p);
        lemma_binds_nothing_step(Some(p), entries);
        if let (Some(trigger), Some(script)) = (
            config::trigger_of(outside::lower_case(entries.last().0)),
            entries.last().1,
        ) {
            assert(before.insert(trigger, script).dom().contains(trigger));
        }
    }
}

proof fn lemma_updated_unmapped(dev: DeviceView, part: Option<Seq<char>>, entries: EntryList)
    ensures
        dev.updated(part, entries).unmapped() <==> dev.unmapped() && binds_nothing(part, entries),
{
    match part {
        None => {},
        Some(p) => {
            if p == "buttons"@ {
                lemma_keys_empty(dev.mappings, entries, p);
            } else if p == "longpress"@ {
                lemma_keys_empty(dev.long_press_mappings, entries, p);
            } else if p == "dpad"@ {
                lemma_dpad_empty(dev.dpad_mappings, entries, p);
            } else if p == "dpad_longpress"@ {
                lemma_dpad_empty(dev.dpad_longpress_mappings, entries, p);
            } else if p == "triggers"@ {
                lemma_triggers_empty(dev.trigger_mappings, entries, p);
            } else if p == "triggers_longpress"@ {
                lemma_triggers_empty(dev.trigger_longpress_mappings, entries, p);
            }
        },
    }
}

/// Section `s` is about a device and binds something of it.
pub open spec fn binding_section(sections: SectionList, s: int, id: Seq<char>) -> bool {
    &&& 0 <= s < sections.len()
    &&& config::device_part(sections[s].0) matches Some((d, part)) && d == id && !binds_nothing(
        part,
        sections[s].1,
    )
}

/// A device counts as unmapped exactly where no section of the file binds
/// anything of it: no button, no direction and no trigger, neither to a short
/// nor to a long press.
pub proof fn law_unmapped_where_the_file_binds_nothing(sections: SectionList, id: Seq<char>)
    ensures
        DeviceView::read(id, sections).unmapped() <==> forall|s: int| !#[trigger] binding_section(
            sections,
            s,
            id,
        ),
    decreases sections.len(),
{
    if sections.len() > 0 {
        let before = sections.drop_last();
        let n = sections.len() - 1;
        law_unmapped_where_the_file_binds_nothing(before, id);
        assert(sections[n] == sections.last());
        assert forall|s: int| s != n implies #[trigger] binding_section(sections, s, id)
            == binding_section(before, s, id) by {
            if 0 <= s < n {
                assert(sections[s] == before[s]);
            }
        }
        if let Some((d, part)) = config::device_part(sections.last().0) {
            lemma_updated_unmapped(DeviceView::read(id, before), part, sections.last().1);
        }
        if DeviceView::read(id, sections).unmapped() {
            assert(DeviceView::read(id, before).unmapped());
            assert forall|s: int| !#[trigger] binding_section(sections, s, id) by {
                assert(!binding_section(before, s, id));
            }
        } else if DeviceView::read(id, before).unmapped() {
            assert(binding_section(sections, n, id));
        } else {
            let s = choose|s: int| #[trigger] binding_section(before, s, id);
            assert(binding_section(sections, s, id));
        }
    }
}

/// The default layout binds all four directions of the D-pad, the two face
/// buttons and the two shoulder buttons, leaves every other binding and
/// setting alone, and applying it again changes nothing.
pub proof fn law_default_layout(dev: DeviceView, code: u16)
    ensures
        !dev.with_default_layout().unmapped(),
        forall|d: DpadDirection| #[trigger]
            dev.with_default_layout().dpad_mappings.contains_key(d),
        dev.with_default_layout().mappings.contains_key(code) == (dev.mappings.contains_key(code)
            || code == config::BTN_A || code == config::BTN_B || code == config::BTN_TL || code
            == config::BTN_TR),
        code != config::BTN_A && code != config::BTN_B && code != config::BTN_TL && code
            != config::BTN_TR && dev.mappings.contains_key(code)
            ==> dev.with_default_layout().mappings[code] == dev.mappings[code],
        dev.with_default_layout() == (DeviceView {
            mappings: dev.with_default_layout().mappings,
            dpad_mappings: dev.with_default_layout().dpad_mappings,
            ..dev
        }),
        dev.with_default_layout().with_default_layout() == dev.with_default_layout(),
{
    let once = dev.with_default_layout();
    let twice = once.with_default_layout();
    assert(once.mappings.dom().contains(config::BTN_A));
    assert(twice.mappings =~= once.mappings);
    assert(twice.dpad_mappings =~= once.dpad_mappings);
    assert forall|d: DpadDirection| #[trigger] once.dpad_mappings.contains_key(d) by {
        match d {
            DpadDirection::Up => {},
            DpadDirection::Down => {},
            DpadDirection::Left => {},
            DpadDirection::Right => {},
        }
    }
}

/// A key that this library names is read as itself.
proof fn lemma_own_key(name: Seq<char>)
    requires
        outside::own_key(name) is Some,
    ensures
        config::key_of(name) == Some(Key { code: outside::own_key(name)->0 }),
        name.len() > 0,
        forall|i: int| 0 <= i < name.len() ==> action::ascii_word(#[trigger] name[i]),
{
    reveal_strlit("KEY_ENTER");
    reveal_strlit("KEY_HOME");
    reveal_strlit("KEY_UP");
    reveal_strlit("KEY_LEFT");
    reveal_strlit("KEY_RIGHT");
    reveal_strlit("KEY_DOWN");
    reveal_strlit("KEY_BACK");
    assert forall|i: int| 0 <= i < name.len() implies 'A' <= #[trigger] name[i] <= 'Z' || name[i]
        == '_' by {}
    assert(is_ascii_chars(name));
    assert(text::upper(name) =~= name);
    assert(name[0] == 'K');
    text::lemma_not_a_number(name, 10, 0);
}

/// A character that means something to the shell is none of these.
proof fn lemma_shell_character(c: char)
    requires
        action::SHELL_SYNTAX@.contains(c),
    ensures
        !action::ascii_word(c),
        c != '/' && c != '-' && c != '.' && c != ' ',
{
    reveal_strlit("|&;<>()$`\\\"'*?[#~=%\n");
    let j = choose|j: int| 0 <= j < action::SHELL_SYNTAX@.len() && action::SHELL_SYNTAX@[j] == c;
    assert(action::SHELL_SYNTAX@[j] == c);
}

/// The command line that injects a key has two words, the script and the key,
/// and nothing in it that means something to the shell.
proof fn lemma_key_script(key: Seq<char>)
    requires
        key.len() > 0,
        forall|i: int| 0 <= i < key.len() ==> action::ascii_word(#[trigger] key[i]),
    ensures
        text::words(config::key_script(key)) == seq![config::KEY_SH@, key],
        action::base_name(config::KEY_SH@) == "key.sh"@,
        !action::shell_syntax(config::key_script(key)),
{
    reveal_strlit("/mnt/us/kindle-button-mapper/scripts/key.sh");
    reveal_strlit("key.sh");
    let path = config::KEY_SH@;
    let n = path.len() as int;
    let s = config::key_script(key);
    let rest = s.skip(n);
    assert forall|i: int| 0 <= i < n implies action::ascii_word(#[trigger] path[i]) || path[i]
        == '/' || path[i] == '-' || path[i] == '.' by {}
    assert forall|i: int| 0 <= i < n implies s[i] == #[trigger] path[i] by {}
    assert forall|i: int| 0 <= i < key.len() implies s[n + 1 + i] == #[trigger] key[i] by {}
    assert(s[n] == ' ');
    assert forall|i: int| 0 <= i < s.len() implies !action::SHELL_SYNTAX@.contains(
        #[trigger] s[i],
    ) by {
        if action::SHELL_SYNTAX@.contains(s[i]) {
            lemma_shell_character(s[i]);
            if i < n {
                assert(s[i] == path[i]);
            } else if i > n {
                assert(s[i] == key[i - n - 1]);
            }
        }
    }
    assert(text::lead(s, Run::White) == 0) by {
        assert(s[0] == path[0]);
    }
    assert(text::trim_start(s) =~= s);
    assert forall|i: int| 0 <= i < n implies text::in_run(Run::Word, #[trigger] s[i]) by {
        assert(s[i] == path[i]);
    }
    text::lemma_lead_unique(s, Run::Word, n);
    assert(s.take(n) =~= path);
    assert(rest =~= seq![' '] + key);
    text::lemma_lead_unique(rest, Run::White, 1);
    assert(text::trim_start(rest) =~= key);
    text::lemma_lead_unique(key, Run::Word, key.len() as int);
    assert(key.take(key.len() as int) =~= key);
    let none = key.skip(key.len() as int);
    assert(none =~= seq![]);
    assert(text::trim_start(none) =~= seq![]);
    assert(text::words(none) =~= seq![]);
    assert(text::words(rest) =~= seq![key]);
    assert(text::words(s) =~= seq![path, key]);
    text::lemma_last_piece(path, '/', n - 7);
    assert(path.skip(n - 6) =~= "key.sh"@);
}

/// A script is run in-process, as one injection of its last word.
pub open spec fn injected(script: Seq<char>) -> bool {
    action::plan_of(script) == Some(seq![StepView::Key(text::words(script).last())])
}

proof fn lemma_key_script_is_injected(key: Seq<char>)
    requires
        outside::own_key(key) is Some || key == "page_next"@ || key == "page_prev"@,
    ensures
        injected(config::key_script(key)),
        text::words(config::key_script(key)).last() == key,
{
    reveal_strlit("page_next");
    reveal_strlit("page_prev");
    reveal_strlit("koreader.sh");
    reveal_strlit("kindle.sh");
    reveal_strlit("key.sh");
    if outside::own_key(key) is Some {
        lemma_own_key(key);
    } else {
        assert forall|i: int| 0 <= i < key.len() implies action::ascii_word(#[trigger] key[i]) by {}
    }
    lemma_key_script(key);
    assert("key.sh"@.len() != "koreader.sh"@.len());
    assert("key.sh"@.len() != "kindle.sh"@.len());
}

/// Every script of the default layout is run in-process, as one injection of
/// its last word, and none goes to the shell. On a device that was unmapped
/// these are all its scripts.
pub proof fn law_default_layout_runs_in_process(dev: DeviceView, dir: DpadDirection, code: u16)
    ensures
        injected(dev.with_default_layout().dpad_mappings[dir]),
        code == config::BTN_A || code == config::BTN_B || code == config::BTN_TL || code
            == config::BTN_TR ==> injected(dev.with_default_layout().mappings[code]),
        dev.unmapped() && dev.with_default_layout().mappings.contains_key(code) ==> injected(
            dev.with_default_layout().mappings[code],
        ),
{
    lemma_key_script_is_injected("KEY_UP"@);
    lemma_key_script_is_injected("KEY_DOWN"@);
    lemma_key_script_is_injected("KEY_LEFT"@);
    lemma_key_script_is_injected("KEY_RIGHT"@);
    lemma_key_script_is_injected("KEY_ENTER"@);
    lemma_key_script_is_injected("KEY_BACK"@);
    lemma_key_script_is_injected("page_prev"@);
    lemma_key_script_is_injected("page_next"@);
    match dir {
        DpadDirection::Up => {},
        DpadDirection::Down => {},
        DpadDirection::Left => {},
        DpadDirection::Right => {},
    }
    assert(dev.unmapped() ==> !dev.mappings.dom().contains(code));
}

/// What the script injects, read as a key.
pub open spec fn typed(script: Seq<char>) -> Option<Key> {
    config::key_of(text::words(script).last())
}

/// The default layout has the arrow keys on the D-pad, Enter and Back on the
/// face buttons A and B, and page turns on the shoulder buttons.
pub proof fn law_default_layout_types_its_keys(dev: DeviceView)
    ensures
        ({
            let d = dev.with_default_layout().dpad_mappings;
            let m = dev.with_default_layout().mappings;
            &&& typed(d[DpadDirection::Up]) == Some(Key { code: input::KEY_UP })
            &&& typed(d[DpadDirection::Down]) == Some(Key { code: input::KEY_DOWN })
            &&& typed(d[DpadDirection::Left]) == Some(Key { code: 105 })
            &&& typed(d[DpadDirection::Right]) == Some(Key { code: 106 })
            &&& typed(m[config::BTN_A]) == Some(Key { code: 28 })
            &&& typed(m[config::BTN_B]) == Some(Key { code: 158 })
            &&& text::words(m[config::BTN_TL]).last() == "page_prev"@
            &&& text::words(m[config::BTN_TR]).last() == "page_next"@
        }),
{
    reveal_strlit("KEY_ENTER");
    reveal_strlit("KEY_HOME");
    reveal_strlit("KEY_UP");
    reveal_strlit("KEY_LEFT");
    reveal_strlit("KEY_RIGHT");
    reveal_strlit("KEY_DOWN");
    reveal_strlit("KEY_BACK");
    let up = "KEY_UP"@;
    let left = "KEY_LEFT"@;
    let right = "KEY_RIGHT"@;
    let down = "KEY_DOWN"@;
    let back = "KEY_BACK"@;
    assert(left[4] == 'L' && down[4] == 'D' && back[4] == 'B' && "KEY_HOME"@[4] == 'H');
    assert(right[4] == 'R' && "KEY_ENTER"@[4] == 'E');
    lemma_own_key(up);
    lemma_own_key(down);
    lemma_own_key(left);
    lemma_own_key(right);
    lemma_own_key("KEY_ENTER"@);
    lemma_own_key(back);
    lemma_key_script_is_injected(up);
    lemma_key_script_is_injected(down);
    lemma_key_script_is_injected(left);
    lemma_key_script_is_injected(right);
    lemma_key_script_is_injected("KEY_ENTER"@);
    lemma_key_script_is_injected(back);
    lemma_key_script_is_injected("page_prev"@);
    lemma_key_script_is_injected("page_next"@);
}

/// Without a section `settings` every setting has its default.
pub proof fn law_settings_have_defaults(sections: SectionList)
    requires
        config::section_named(sections, "settings"@) is None,
    ensures
        ConfigView::read(sections) == (ConfigView {
            devices: ConfigView::read(sections).devices,
            ..ConfigView::plain()
        }),
{
}

proof fn lemma_words_are_solid(s: Seq<char>)
    ensures
        forall|k: int|
            #![trigger text::words(s)[k]]
            0 <= k < text::words(s).len() ==> text::words(s)[k].len() > 0 && forall|i: int|
                0 <= i < text::words(s)[k].len() ==> !text::white_space(
                    #[trigger] text::words(s)[k][i],
                ),
    decreases s.len(),
{
    text::lemma_words_step(s);
    let t = text::trim_start(s);
    if t.len() > 0 {
        let n = text::lead(t, Run::Word) as int;
        text::lemma_lead(t, Run::Word);
        lemma_words_are_solid(t.skip(n));
        assert forall|k: int|
            #![trigger text::words(s)[k]]
            0 <= k < text::words(s).len() implies text::words(s)[k].len() > 0 && forall|i: int|
            0 <= i < text::words(s)[k].len() ==> !text::white_space(
                #[trigger] text::words(s)[k][i],
            ) by {
            if k == 0 {
                assert(text::words(s)[0] == t.take(n));
                assert forall|i: int| 0 <= i < n implies !text::white_space(
                    #[trigger] t.take(n)[i],
                ) by {
                    assert(text::in_run(Run::Word, t[i]));
                }
            } else {
                assert(text::words(s)[k] == text::words(t.skip(n))[k - 1]);
            }
        }
    }
}

proof fn lemma_solid_is_trimmed(s: Seq<char>)
    requires
        s.len() > 0,
        forall|i: int| 0 <= i < s.len() ==> !text::white_space(#[trigger] s[i]),
    ensures
        text::trimmed(s) == s,
{
    assert(!text::white_space(s[0]));
    assert(!text::white_space(s[s.len() - 1]));
    assert(text::lead(s, Run::White) == 0);
    assert(s.skip(0) =~= s);
}

/// Whatever is planned to be injected, the injector accepts: it comes to a
/// page turn or a key, never to nothing and never to an unknown key. What
/// `key.sh` is planned to inject is the request as it was written.
pub proof fn law_planned_keys_are_accepted(
    script: Seq<char>,
    k: int,
    injector: Injector,
    injection: Injection,
)
    requires
        action::plan_of(script) is Some,
        0 <= k < action::plan_of(script)->0.len(),
        action::plan_of(script)->0[k] is Key,
        injector.handles(text::trimmed(action::plan_of(script)->0[k]->Key_0), injection),
    ensures
        action::accepted(action::plan_of(script)->0[k]->Key_0),
        !(injection is UnknownKey),
        !(injection is Nothing),
        action::base_name(text::words(script)[0]) == "key.sh"@ ==> action::plan_of(script) == Some(
            seq![StepView::Key(text::words(script)[1])],
        ),
{
    reveal_strlit("koreader.sh");
    reveal_strlit("kindle.sh");
    reveal_strlit("key.sh");
    reveal_strlit("page_next");
    reveal_strlit("page_prev");
    assert("key.sh"@.len() != "koreader.sh"@.len());
    assert("key.sh"@.len() != "kindle.sh"@.len());
    let w = text::words(script);
    let request = action::plan_of(script)->0[k]->Key_0;
    lemma_words_are_solid(script);
    lemma_own_key("KEY_HOME"@);
    if request != w[1] {
        assert(action::native_of(w[1]) == Some(request));
        assert forall|i: int| 0 <= i < request.len() implies action::ascii_word(
            #[trigger] request[i],
        ) by {}
    }
    lemma_solid_is_trimmed(request);
}

/// An unknown name stays a shell call, so that `key.sh` itself can still try
/// it: a command that is neither a page turn nor a number, and does not begin
/// as the names of keys and buttons do.
pub proof fn law_unknown_names_stay_shell(script: Seq<char>)
    requires
        text::words(script).len() == 2,
        action::base_name(text::words(script)[0]) == "key.sh"@,
        !vkeyboard::page_request(text::words(script)[1]),
        text::unsigned(text::words(script)[1], 10, u16::MAX as int) is None,
        config::hex_code(text::words(script)[1]) is None,
        !outside::key_prefix(outside::upper_case(text::words(script)[1])),
    ensures
        action::plan_of(script) is None,
{
    reveal_strlit("koreader.sh");
    reveal_strlit("kindle.sh");
    reveal_strlit("key.sh");
    assert("key.sh"@.len() != "koreader.sh"@.len());
    assert("key.sh"@.len() != "kindle.sh"@.len());
    config::law_unknown_name_is_no_key(text::words(script)[1]);
}

/// `auto.sh` tries KOReader first, then the native reader, and where neither
/// takes it the script itself runs.
pub proof fn law_auto_picks_a_reader(script: Seq<char>)
    requires
        action::plan_of(script) is Some,
        action::base_name(text::words(script)[0]) == "auto.sh"@,
    ensures
        ({
            let steps = action::plan_of(script)->0;
            &&& steps.len() == 2
            &&& steps[0] is Koreader
            &&& steps[1] is Key
            &&& action::moves_from(script, steps, seq![true, true], 0) == seq![
                action::attempt(steps[0]),
                MoveView::Landed,
            ]
            &&& action::moves_from(script, steps, seq![false, true], 0) == seq![
                action::attempt(steps[0]),
                action::attempt(steps[1]),
                MoveView::Landed,
            ]
            &&& action::moves_from(script, steps, seq![false, false], 0) == seq![
                action::attempt(steps[0]),
                action::attempt(steps[1]),
                MoveView::Shell(script),
            ]
        }),
{
    reveal_strlit("koreader.sh");
    reveal_strlit("kindle.sh");
    reveal_strlit("key.sh");
    reveal_strlit("auto.sh");
    assert("auto.sh"@.len() != "koreader.sh"@.len());
    assert("auto.sh"@.len() != "kindle.sh"@.len());
    assert("auto.sh"@.len() != "key.sh"@.len());
    let steps = action::plan_of(script)->0;
    action::law_steps_run_until_one_lands(script, steps, seq![true, true], 0);
    action::law_steps_run_until_one_lands(script, steps, seq![false, true], 1);
    action::law_steps_run_until_one_lands(script, steps, seq![false, false], 1);
    assert(action::moves_from(script, steps, seq![true, true], 0) =~= seq![
        action::attempt(steps[0]),
        MoveView::Landed,
    ]);
    assert(action::moves_from(script, steps, seq![false, true], 0) =~= seq![
        action::attempt(steps[0]),
        action::attempt(steps[1]),
        MoveView::Landed,
    ]);
    assert(action::moves_from(script, steps, seq![false, false], 0) =~= seq![
        action::attempt(steps[0]),
        action::attempt(steps[1]),
        MoveView::Shell(script),
    ]);
}

/// A character that an event path may hold as it is.
pub open spec fn plain(c: char) -> bool {
    action::ascii_word(c) || c == '/' || c == '-'
}

/// The events that are sent in-process need no encoding: nothing but ASCII
/// letters, digits, underscores, slashes and hyphens is in them.
pub proof fn law_planned_events_are_plain(script: Seq<char>, k: int, i: int)
    requires
        action::plan_of(script) is Some,
        0 <= k < action::plan_of(script)->0.len(),
        action::plan_of(script)->0[k] is Koreader,
        0 <= i < (action::plan_of(script)->0[k]->Koreader_0).len(),
    ensures
        plain(action::plan_of(script)->0[k]->Koreader_0[i]),
{
    reveal_strlit("GotoViewRel/1");
    reveal_strlit("GotoViewRel/-1");
    reveal_strlit("ToggleFrontlight");
    reveal_strlit("ToggleNightMode");
    reveal_strlit("ShowMenu");
    reveal_strlit("ToggleFooterMode");
    reveal_strlit("IterateRotation");
    let w = text::words(script);
    let event = action::plan_of(script)->0[k]->Koreader_0;
    if w.len() == 3 {
        assert(event == w[2]);
        assert(action::ascii_word(w[2][i]));
    } else {
        assert(action::event_of(w[1]) == Some(event));
        assert(plain(event[i]));
    }
}

} // verus!
