//! What editing a configuration changes, and what it leaves alone.

use crate::agent::config::{PersistentConfigView, SourceView};
use crate::agent::config_edit::{
    agent_edited, edits_section, has_sensor, hba_edited, is_sensor_table, sensor_items,
    smartctl_edited, source_items, without_sensor, AgentSet, EditError, HbaSet, Section,
    SmartctlSet,
};
use crate::agent::toml_doc::{document_items, document_text, parsed_document, TomlItem};
use crate::protocol::SensorKind;
use crate::text::texts;
use vstd::prelude::*;

verus! {

// ── Sections ─────────────────────────────────────────────────────────────────

/// Whether a table holds an item under a key.
pub open spec fn holds(table: Map<Seq<char>, TomlItem>, key: Seq<char>, item: TomlItem) -> bool {
    table.contains_key(key) && table[key] == item
}

/// Whether two tables hold the same under a key, or nothing both.
pub open spec fn agree(
    a: Map<Seq<char>, TomlItem>,
    b: Map<Seq<char>, TomlItem>,
    key: Seq<char>,
) -> bool {
    a.contains_key(key) == b.contains_key(key) && (a.contains_key(key) ==> a[key] == b[key])
}

/// In the section of the agent, what is given stands under its key afterwards,
/// and every other key holds what it held.
pub proof fn law_agent_edit(items: Map<Seq<char>, TomlItem>, set: AgentSet, key: Seq<char>)
    ensures
        ({
            let edited = agent_edited(items, set);
            &&& match set.scan_root {
                Some(root) => holds(edited, "scan_root"@, TomlItem::Text(root@)),
                None => agree(edited, items, "scan_root"@),
            }
            &&& match set.sample_seconds {
                Some(n) => n <= i64::MAX ==> holds(
                    edited,
                    "sample_seconds"@,
                    TomlItem::Integer(n as int),
                ),
                None => agree(edited, items, "sample_seconds"@),
            }
            &&& match set.heartbeat_seconds {
                Some(n) => n <= i64::MAX ==> holds(
                    edited,
                    "heartbeat_seconds"@,
                    TomlItem::Integer(n as int),
                ),
                None => agree(edited, items, "heartbeat_seconds"@),
            }
            &&& match set.rescan_seconds {
                Some(n) => n <= i64::MAX ==> holds(
                    edited,
                    "rescan_seconds"@,
                    TomlItem::Integer(n as int),
                ),
                None => agree(edited, items, "rescan_seconds"@),
            }
            &&& key != "scan_root"@ && key != "sample_seconds"@ && key != "heartbeat_seconds"@
                && key != "rescan_seconds"@ ==> agree(edited, items, key)
        }),
{
    lemma_keys();
}

/// In the section of the controllers, what is given stands under its key
/// afterwards, and every other key holds what it held.
pub proof fn law_hba_edit(items: Map<Seq<char>, TomlItem>, set: HbaSet, key: Seq<char>)
    ensures
        ({
            let edited = hba_edited(items, set);
            &&& match set.enabled {
                Some(b) => holds(edited, "enabled"@, TomlItem::Boolean(b)),
                None => agree(edited, items, "enabled"@),
            }
            &&& match set.devices {
                Some(list) => holds(edited, "devices"@, TomlItem::Texts(texts(list@))),
                None => agree(edited, items, "devices"@),
            }
            &&& match set.max_ioc {
                Some(n) => holds(edited, "max_ioc"@, TomlItem::Integer(n as int)),
                None => agree(edited, items, "max_ioc"@),
            }
            &&& key != "enabled"@ && key != "devices"@ && key != "max_ioc"@ ==> agree(
                edited,
                items,
                key,
            )
        }),
{
    lemma_keys();
}

/// In the section of the disks, what is given stands under its key afterwards,
/// and every other key holds what it held.
pub proof fn law_smartctl_edit(items: Map<Seq<char>, TomlItem>, set: SmartctlSet, key: Seq<char>)
    ensures
        ({
            let edited = smartctl_edited(items, set);
            &&& match set.enabled {
                Some(b) => holds(edited, "enabled"@, TomlItem::Boolean(b)),
                None => agree(edited, items, "enabled"@),
            }
            &&& match set.device_globs {
                Some(list) => holds(edited, "device_globs"@, TomlItem::Texts(texts(list@))),
                None => agree(edited, items, "device_globs"@),
            }
            &&& match set.timeout_seconds {
                Some(n) => n <= i64::MAX ==> holds(
                    edited,
                    "timeout_seconds"@,
                    TomlItem::Integer(n as int),
                ),
                None => agree(edited, items, "timeout_seconds"@),
            }
            &&& match set.poll_seconds {
                Some(n) => n <= i64::MAX ==> holds(
                    edited,
                    "poll_seconds"@,
                    TomlItem::Integer(n as int),
                ),
                None => agree(edited, items, "poll_seconds"@),
            }
            &&& key != "enabled"@ && key != "device_globs"@ && key != "timeout_seconds"@ && key
                != "poll_seconds"@ ==> agree(edited, items, key)
        }),
{
    lemma_keys();
}

/// Where a text is a document and what stands under the key of a section is a
/// table or nothing, the section is edited: the outcome is the text of a document
/// that holds what the edit made of the table, and under every other key what was
/// there. In no other case is there an outcome.
pub proof fn law_section_is_edited(
    raw: Seq<char>,
    section: Section,
    edit: spec_fn(Map<Seq<char>, TomlItem>) -> Map<Seq<char>, TomlItem>,
    result: Result<String, EditError>,
)
    requires
        edits_section(raw, section, edit, result),
    ensures
        ({
            let key = match section {
                Section::Agent => "agent"@,
                Section::LsiHba => "lsi_hba"@,
                Section::Smartctl => "smartctl"@,
            };
            match parsed_document(raw) {
                None => result is Err,
                Some(items) => if items.contains_key(key) && items[key] !is Table {
                    result is Err
                } else {
                    let table = if items.contains_key(key) {
                        items[key]->Table_0
                    } else {
                        Map::empty()
                    };
                    result is Ok && exists|doc: toml_edit::DocumentMut|
                        #[trigger] document_text(doc) == result->Ok_0@ && holds(
                            document_items(doc),
                            key,
                            TomlItem::Table(edit(table)),
                        ) && forall|other: Seq<char>|
                            other != key ==> agree(document_items(doc), items, other)
                },
            }
        }),
{
    if let Some(items) = parsed_document(raw) {
        let key = section.key();
        if !(items.contains_key(key) && items[key] !is Table) {
            let table = if items.contains_key(key) {
                items[key]->Table_0
            } else {
                Map::empty()
            };
            let doc = choose|doc: toml_edit::DocumentMut|
                result->Ok_0@ == #[trigger] document_text(doc) && document_items(doc)
                    == items.insert(key, TomlItem::Table(edit(table)));
            assert(document_items(doc) == items.insert(key, TomlItem::Table(edit(table))));
        }
    }
}

// ── Persistent sensors ───────────────────────────────────────────────────────

/// Only the first table with the identifier goes, and the others stay, in order.
/// Where no table has it, nothing goes.
pub proof fn law_first_sensor_goes(tables: Seq<Map<Seq<char>, TomlItem>>, id: Seq<char>, i: int)
    ensures
        0 <= i < tables.len() && holds(tables[i], "id"@, TomlItem::Text(id)) && (forall|j: int|
            0 <= j < i ==> !holds(#[trigger] tables[j], "id"@, TomlItem::Text(id)))
            ==> without_sensor(tables, id) == tables.take(i) + tables.skip(i + 1) && has_sensor(
            tables,
            id,
        ),
        (forall|j: int|
            0 <= j < tables.len() ==> !holds(#[trigger] tables[j], "id"@, TomlItem::Text(id)))
            ==> without_sensor(tables, id) == tables && !has_sensor(tables, id),
    decreases tables.len(),
{
    if tables.len() > 0 {
        let rest = tables.skip(1);
        law_first_sensor_goes(rest, id, i - 1);
        if 0 <= i < tables.len() && holds(tables[i], "id"@, TomlItem::Text(id)) && (forall|j: int|
            0 <= j < i ==> !holds(#[trigger] tables[j], "id"@, TomlItem::Text(id))) {
            assert(is_sensor_table(tables[i], id));
            if i == 0 {
                assert(tables.take(0) + tables.skip(1) =~= rest);
            } else {
                assert(!holds(tables[0], "id"@, TomlItem::Text(id)));
                assert(rest[i - 1] == tables[i]);
                assert forall|j: int| 0 <= j < i - 1 implies !holds(
                    #[trigger] rest[j],
                    "id"@,
                    TomlItem::Text(id),
                ) by {
                    assert(rest[j] == tables[j + 1]);
                }
                assert(seq![tables[0]] + (rest.take(i - 1) + rest.skip(i)) =~= tables.take(i)
                    + tables.skip(i + 1));
            }
        }
        if forall|j: int|
            0 <= j < tables.len() ==> !holds(#[trigger] tables[j], "id"@, TomlItem::Text(id)) {
            assert(!holds(tables[0], "id"@, TomlItem::Text(id)));
            assert forall|j: int| 0 <= j < rest.len() implies !holds(
                #[trigger] rest[j],
                "id"@,
                TomlItem::Text(id),
            ) by {
                assert(rest[j] == tables[j + 1]);
            }
            assert(seq![tables[0]] + rest =~= tables);
            assert forall|j: int| 0 <= j < tables.len() implies !is_sensor_table(
                #[trigger] tables[j],
                id,
            ) by {
                assert(!holds(tables[j], "id"@, TomlItem::Text(id)));
            }
        }
    }
}

/// The table of a sensor says what the sensor is, and where its readings come
/// from.
pub proof fn law_sensor_is_written(sensor: PersistentConfigView, key: Seq<char>)
    ensures
        ({
            let table = sensor_items(sensor);
            &&& holds(table, "id"@, TomlItem::Text(sensor.id))
            &&& holds(table, "label"@, TomlItem::Text(sensor.label))
            &&& holds(table, "default_value"@, TomlItem::Integer(sensor.default_value as int))
            &&& holds(table, "source"@, TomlItem::Table(source_items(sensor.source)))
            &&& holds(
                table,
                "kind"@,
                TomlItem::Text(
                    match sensor.kind {
                        SensorKind::Temperature => "temperature"@,
                        SensorKind::Fan => "fan"@,
                        SensorKind::Voltage => "voltage"@,
                        SensorKind::Current => "current"@,
                        SensorKind::Power => "power"@,
                    },
                ),
            )
            &&& table.contains_key(key) ==> key == "id"@ || key == "label"@ || key
                == "default_value"@ || key == "source"@ || key == "kind"@
        }),
{
    lemma_keys();
}

/// The table of a source says of which sort it is and what tells it from others;
/// what is not asked for is not written.
pub proof fn law_source_is_written(source: SourceView)
    ensures
        ({
            let table = source_items(source);
            match source {
                SourceView::Hwmon { chip_name, input, source_label, device_path_contains } => {
                    &&& holds(table, "type"@, TomlItem::Text("hwmon"@))
                    &&& holds(table, "input"@, TomlItem::Text(input))
                    &&& match chip_name {
                        Some(name) => holds(table, "chip_name"@, TomlItem::Text(name)),
                        None => !table.contains_key("chip_name"@),
                    }
                    &&& match source_label {
                        Some(label) => holds(table, "source_label"@, TomlItem::Text(label)),
                        None => !table.contains_key("source_label"@),
                    }
                    &&& match device_path_contains {
                        Some(part) => holds(table, "device_path_contains"@, TomlItem::Text(part)),
                        None => !table.contains_key("device_path_contains"@),
                    }
                },
                SourceView::Smartctl { device } => {
                    &&& holds(table, "type"@, TomlItem::Text("smartctl"@))
                    &&& holds(table, "device"@, TomlItem::Text(device))
                },
                SourceView::LsiHba { device, ioc } => {
                    &&& holds(table, "type"@, TomlItem::Text("lsi_hba"@))
                    &&& holds(table, "device"@, TomlItem::Text(device))
                    &&& holds(table, "ioc"@, TomlItem::Integer(ioc as int))
                },
            }
        }),
{
    lemma_keys();
}

/// The keys of the tables are told apart by their lengths and letters.
proof fn lemma_keys()
    ensures
        "scan_root"@.len() == 9 && "scan_root"@[0] == 's' && "scan_root"@[1] == 'c',
        "sample_seconds"@.len() == 14 && "sample_seconds"@[0] == 's' && "sample_seconds"@[1] == 'a',
        "heartbeat_seconds"@.len() == 17 && "heartbeat_seconds"@[0] == 'h'
            && "heartbeat_seconds"@[1] == 'e',
        "rescan_seconds"@.len() == 14 && "rescan_seconds"@[0] == 'r' && "rescan_seconds"@[1] == 'e',
        "enabled"@.len() == 7 && "enabled"@[0] == 'e' && "enabled"@[1] == 'n',
        "devices"@.len() == 7 && "devices"@[0] == 'd' && "devices"@[1] == 'e',
        "max_ioc"@.len() == 7 && "max_ioc"@[0] == 'm' && "max_ioc"@[1] == 'a',
        "device_globs"@.len() == 12 && "device_globs"@[0] == 'd' && "device_globs"@[1] == 'e',
        "timeout_seconds"@.len() == 15 && "timeout_seconds"@[0] == 't'
            && "timeout_seconds"@[1] == 'i',
        "poll_seconds"@.len() == 12 && "poll_seconds"@[0] == 'p' && "poll_seconds"@[1] == 'o',
        "id"@.len() == 2 && "id"@[0] == 'i' && "id"@[1] == 'd',
        "label"@.len() == 5 && "label"@[0] == 'l' && "label"@[1] == 'a',
        "default_value"@.len() == 13 && "default_value"@[0] == 'd' && "default_value"@[1] == 'e',
        "source"@.len() == 6 && "source"@[0] == 's' && "source"@[1] == 'o',
        "kind"@.len() == 4 && "kind"@[0] == 'k' && "kind"@[1] == 'i',
        "type"@.len() == 4 && "type"@[0] == 't' && "type"@[1] == 'y',
        "input"@.len() == 5 && "input"@[0] == 'i' && "input"@[1] == 'n',
        "chip_name"@.len() == 9 && "chip_name"@[0] == 'c' && "chip_name"@[1] == 'h',
        "source_label"@.len() == 12 && "source_label"@[0] == 's' && "source_label"@[1] == 'o',
        "device_path_contains"@.len() == 20 && "device_path_contains"@[0] == 'd'
            && "device_path_contains"@[1] == 'e',
        "device"@.len() == 6 && "device"@[0] == 'd' && "device"@[1] == 'e',
        "ioc"@.len() == 3 && "ioc"@[0] == 'i' && "ioc"@[1] == 'o',
{
    reveal_strlit("scan_root");
    reveal_strlit("sample_seconds");
    reveal_strlit("heartbeat_seconds");
    reveal_strlit("rescan_seconds");
    reveal_strlit("enabled");
    reveal_strlit("devices");
    reveal_strlit("max_ioc");
    reveal_strlit("device_globs");
    reveal_strlit("timeout_seconds");
    reveal_strlit("poll_seconds");
    reveal_strlit("id");
    reveal_strlit("label");
    reveal_strlit("default_value");
    reveal_strlit("source");
    reveal_strlit("kind");
    reveal_strlit("type");
    reveal_strlit("input");
    reveal_strlit("chip_name");
    reveal_strlit("source_label");
    reveal_strlit("device_path_contains");
    reveal_strlit("device");
    reveal_strlit("ioc");
}

} // verus!
