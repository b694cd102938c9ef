//! Editing the configuration of the agent without losing its comments.

use crate::agent::config::{
    PersistentConfigView, PersistentSensorConfig, PersistentSensorSource, SourceView,
};
use crate::agent::toml_doc::{
    array_push, array_texts, document_has, document_items, document_put_table, document_put_tables,
    document_table_mut, document_tables_mut, document_text, new_array, new_table, no_items,
    parse_document, parsed_document, render_document, table_items, table_put_array,
    table_put_boolean, table_put_integer, table_put_table, table_put_text, table_text, tables_get,
    tables_items, tables_len, tables_push, tables_remove, TomlItem,
};
use crate::path::{file_name, file_name_of, join_path, parent, parent_of, path_join};
use crate::protocol::SensorKind;
use crate::text::{concat, concat3, optional_text, same, texts};
use vstd::prelude::*;

verus! {

/// The configuration that is written where there is none.
pub const DEFAULT_CONFIG_TEXT: &'static str = r#"[agent]
virtio_port = "/dev/virtio-ports/org.vfio_sensor_bridge.0"
scan_root = "/sys/class/hwmon"
# Optional hwmon name sent to the host. Supported placeholders:
# {hostname}, {agent_version}
# hwmon_name_template = "vsb_{hostname}"
rescan_seconds = 10
sample_seconds = 1
heartbeat_seconds = 5

[lsi_hba]
# LSI HBA IOC temperature polling is optional and disabled by default.
enabled = false
devices = ["/dev/mpt2ctl", "/dev/mpt3ctl"]
max_ioc = 16
# HBA temperature sensor label. Supported placeholders:
# {portname}, {chip}, {version}
label_template = "{chip}"

[smartctl]
# Disk temperature polling through smartctl is optional and disabled by default.
enabled = false
command = "/usr/sbin/smartctl"
# Device globs are expanded by the agent. Partitions are skipped when sysfs
# exposes them as partitions, so /dev/sata* can match Synology-style devices.
device_globs = ["/dev/sd*", "/dev/sata*"]
timeout_seconds = 10
poll_seconds = 30
# Disk temperature label. Supported placeholders:
# {device}, {path}, {model_family}, {model}, {serial}, {wwn}, {firmware},
# {capacity}, {sector_sizes}, {rotation_rate}, {form_factor}, {ata_version},
# {sata_version}, {vendor}, {product}, {revision}, {database},
# {smart_available}, {smart_enabled}
label_template = "{device} temperature"

# Persistent sensors can be added with:
# agent-linux config persistent discover
# agent-linux config persistent add --from 1 --default-value 65000
"#;

/// The configuration that is written where there is none.
pub fn default_config_text() -> (text: &'static str)
    ensures
        text@ == DEFAULT_CONFIG_TEXT@,
{
    DEFAULT_CONFIG_TEXT
}

/// Whether a configuration may be written afresh: there is none yet, or the
/// user insists.
pub fn init_allowed(present: bool, force: bool) -> (allowed: bool)
    ensures
        allowed == (!present || force),
{
    !present || force
}

/// The configuration in force, where `contents` is what its file says, if
/// there is one.
pub fn show_config(contents: Option<String>) -> (text: String)
    ensures
        text@ == (match contents {
            Some(contents) => contents@,
            None => DEFAULT_CONFIG_TEXT@,
        }),
{
    match contents {
        Some(contents) => contents,
        None => DEFAULT_CONFIG_TEXT.to_string(),
    }
}

/// The name under which a file is written before it takes its place.
pub open spec fn temporary_name(path: Seq<char>) -> Seq<char> {
    "."@ + (match file_name_of(path) {
        Some(name) => name,
        None => "agent.toml"@,
    }) + ".tmp"@
}

/// Where a file is written before it takes its place.
pub fn temporary_path(path: &str) -> (temporary: String)
    ensures
        temporary@ == (match (file_name_of(path@), parent_of(path@)) {
            (Some(_), Some(parent)) => path_join(parent, temporary_name(path@)),
            _ => path_join(path@, temporary_name(path@)),
        }),
{
    match file_name(path) {
        Some(name) => {
            let temporary = concat3(".", &name, ".tmp");
            match parent(path) {
                Some(parent) => join_path(&parent, &temporary),
                None => join_path(path, &temporary),
            }
        },
        None => join_path(path, &concat3(".", "agent.toml", ".tmp")),
    }
}

// ── Errors ───────────────────────────────────────────────────────────────────

/// Why a configuration cannot be edited.
#[derive(Debug)]
pub enum EditError {
    /// It is no TOML document.
    Parse(toml_edit::TomlError),
    /// A section is something else than a table.
    NotATable(Section),
    /// The persistent sensors are something else than an array of tables.
    NotTables,
}

/// The sections that are edited.
#[derive(Clone, Copy, Debug, PartialEq, Eq, Structural)]
pub enum Section {
    Agent,
    LsiHba,
    Smartctl,
}

impl Section {
    /// The key of a section.
    pub open spec fn key(self) -> Seq<char> {
        match self {
            Section::Agent => "agent"@,
            Section::LsiHba => "lsi_hba"@,
            Section::Smartctl => "smartctl"@,
        }
    }

    /// The key of a section.
    pub fn name(&self) -> (name: &'static str)
        ensures
            name@ == self.key(),
    {
        match self {
            Section::Agent => "agent",
            Section::LsiHba => "lsi_hba",
            Section::Smartctl => "smartctl",
        }
    }
}

impl EditError {
    /// What the error says to a reader; what is wrong with the document itself
    /// comes with `Parse`.
    pub fn message(&self) -> (message: String)
        ensures
            message@ == (match *self {
                EditError::Parse(_) => "the configuration is not valid TOML"@,
                EditError::NotATable(section) => section.key() + " must be a TOML table"@,
                EditError::NotTables => "persistent_sensor must be an array of tables"@,
            }),
    {
        match self {
            EditError::Parse(_) => "the configuration is not valid TOML".to_string(),
            EditError::NotATable(section) => concat(section.name(), " must be a TOML table"),
            EditError::NotTables => "persistent_sensor must be an array of tables".to_string(),
        }
    }
}

// ── Sections ─────────────────────────────────────────────────────────────────

/// What stands in a section: nothing where it is missing, and `None` where
/// something else than a table stands there.
pub open spec fn section_items(items: Map<Seq<char>, TomlItem>, key: Seq<char>) -> Option<
    Map<Seq<char>, TomlItem>,
> {
    if !items.contains_key(key) {
        Some(no_items())
    } else {
        match items[key] {
            TomlItem::Table(table) => Some(table),
            _ => None,
        }
    }
}

/// Whether `result` is the text of a document whose section `section` holds
/// `edited`, and that is otherwise as `items` says.
pub open spec fn holds_edit(
    result: Result<String, EditError>,
    items: Map<Seq<char>, TomlItem>,
    section: Section,
    edited: Map<Seq<char>, TomlItem>,
) -> bool {
    &&& result matches Ok(text)
    &&& exists|doc: toml_edit::DocumentMut|
        text@ == #[trigger] document_text(doc) && document_items(doc) == items.insert(
            section.key(),
            TomlItem::Table(edited),
        )
}

/// What editing a section comes to, where `edit` says what the section holds
/// afterwards: an error where the text is no document or the section no table.
pub open spec fn edits_section(
    raw: Seq<char>,
    section: Section,
    edit: spec_fn(Map<Seq<char>, TomlItem>) -> Map<Seq<char>, TomlItem>,
    result: Result<String, EditError>,
) -> bool {
    match parsed_document(raw) {
        None => result matches Err(EditError::Parse(_)),
        Some(items) => match section_items(items, section.key()) {
            None => result matches Err(EditError::NotATable(s)) && s == section,
            Some(table) => holds_edit(result, items, section, edit(table)),
        },
    }
}

/// The table of a section, which is made where it is missing.
fn ensure_table<'a>(doc: &'a mut toml_edit::DocumentMut, section: Section) -> (table: Option<
    &'a mut toml_edit::Table,
>)
    ensures
        match table {
            Some(table) => {
                &&& section_items(document_items(*old(doc)), section.key()) == Some(
                    table_items(*table),
                )
                &&& document_items(*final(doc)) == document_items(*old(doc)).insert(
                    section.key(),
                    TomlItem::Table(table_items(*final(table))),
                )
            },
            None => section_items(document_items(*old(doc)), section.key()) is None,
        },
{
    let ghost before = document_items(*doc);
    let name = section.name();
    if !document_has(doc, name) {
        document_put_table(doc, name, new_table());
    }
    let ghost middle = document_items(*doc);
    assert forall|item: TomlItem| #[trigger] middle.insert(section.key(), item) == before.insert(
        section.key(),
        item,
    ) by {
        assert(middle.insert(section.key(), item) =~= before.insert(section.key(), item));
    }
    document_table_mut(doc, name)
}

/// What to change in the section of the agent.
pub struct AgentSet {
    pub scan_root: Option<String>,
    pub sample_seconds: Option<u64>,
    pub heartbeat_seconds: Option<u64>,
    pub rescan_seconds: Option<u64>,
}

/// What to change in the section of the controllers.
pub struct HbaSet {
    pub enabled: Option<bool>,
    pub devices: Option<Vec<String>>,
    pub max_ioc: Option<u32>,
}

/// What to change in the section of the disks.
pub struct SmartctlSet {
    pub enabled: Option<bool>,
    pub device_globs: Option<Vec<String>>,
    pub timeout_seconds: Option<u64>,
    pub poll_seconds: Option<u64>,
}

/// A table with one more key, where there is anything to put under it.
pub open spec fn put(
    items: Map<Seq<char>, TomlItem>,
    key: Seq<char>,
    item: Option<TomlItem>,
) -> Map<Seq<char>, TomlItem> {
    match item {
        Some(item) => items.insert(key, item),
        None => items,
    }
}

/// A text to put under a key.
pub open spec fn text_item(text: Option<Seq<char>>) -> Option<TomlItem> {
    match text {
        Some(text) => Some(TomlItem::Text(text)),
        None => None,
    }
}

/// A number to put under a key.
pub open spec fn number_item(n: Option<u64>) -> Option<TomlItem> {
    match n {
        Some(n) => Some(TomlItem::Integer((n as i64) as int)),
        None => None,
    }
}

/// A truth value to put under a key.
pub open spec fn flag_item(b: Option<bool>) -> Option<TomlItem> {
    match b {
        Some(b) => Some(TomlItem::Boolean(b)),
        None => None,
    }
}

/// A list of texts to put under a key.
pub open spec fn texts_item(list: Option<Vec<String>>) -> Option<TomlItem> {
    match list {
        Some(list) => Some(TomlItem::Texts(texts(list@))),
        None => None,
    }
}

/// The section of the agent once it was edited.
pub open spec fn agent_edited(items: Map<Seq<char>, TomlItem>, set: AgentSet) -> Map<
    Seq<char>,
    TomlItem,
> {
    put(
        put(
            put(
                put(items, "scan_root"@, text_item(optional_text(set.scan_root))),
                "sample_seconds"@,
                number_item(set.sample_seconds),
            ),
            "heartbeat_seconds"@,
            number_item(set.heartbeat_seconds),
        ),
        "rescan_seconds"@,
        number_item(set.rescan_seconds),
    )
}

/// The section of the controllers once it was edited.
pub open spec fn hba_edited(items: Map<Seq<char>, TomlItem>, set: HbaSet) -> Map<
    Seq<char>,
    TomlItem,
> {
    put(
        put(
            put(items, "enabled"@, flag_item(set.enabled)),
            "devices"@,
            texts_item(set.devices),
        ),
        "max_ioc"@,
        match set.max_ioc {
            Some(n) => Some(TomlItem::Integer(n as int)),
            None => None,
        },
    )
}

/// The section of the disks once it was edited.
pub open spec fn smartctl_edited(items: Map<Seq<char>, TomlItem>, set: SmartctlSet) -> Map<
    Seq<char>,
    TomlItem,
> {
    put(
        put(
            put(
                put(items, "enabled"@, flag_item(set.enabled)),
                "device_globs"@,
                texts_item(set.device_globs),
            ),
            "timeout_seconds"@,
            number_item(set.timeout_seconds),
        ),
        "poll_seconds"@,
        number_item(set.poll_seconds),
    )
}

fn put_seconds(table: &mut toml_edit::Table, key: &str, seconds: Option<u64>)
    ensures
        table_items(*final(table)) == put(table_items(*old(table)), key@, number_item(seconds)),
{
    if let Some(seconds) = seconds {
        table_put_integer(
            table,
            key,
            #[verifier::truncate]
            (seconds as i64),
        );
    }
}

fn put_flag(table: &mut toml_edit::Table, key: &str, flag: Option<bool>)
    ensures
        table_items(*final(table)) == put(table_items(*old(table)), key@, flag_item(flag)),
{
    if let Some(flag) = flag {
        table_put_boolean(table, key, flag);
    }
}

/// An array of the given strings.
fn string_array(values: &[String]) -> (array: toml_edit::Array)
    ensures
        array_texts(array) == texts(values@),
{
    let mut array = new_array();
    assert(texts(values@).take(0) =~= Seq::<Seq<char>>::empty());
    for i in 0..values.len()
        invariant
            array_texts(array) == texts(values@).take(i as int),
    {
        array_push(&mut array, &values[i]);
        assert(texts(values@).take(i as int + 1) =~= texts(values@).take(i as int).push(
            values@[i as int]@,
        ));
    }
    assert(texts(values@).take(values@.len() as int) =~= texts(values@));
    array
}

fn put_texts(table: &mut toml_edit::Table, key: &str, values: &Option<Vec<String>>)
    ensures
        table_items(*final(table)) == put(table_items(*old(table)), key@, texts_item(*values)),
{
    if let Some(values) = values {
        table_put_array(table, key, string_array(values));
    }
}

fn put_optional_text(table: &mut toml_edit::Table, key: &str, text: &Option<String>)
    ensures
        table_items(*final(table)) == put(
            table_items(*old(table)),
            key@,
            text_item(optional_text(*text)),
        ),
{
    if let Some(text) = text {
        table_put_text(table, key, text);
    }
}

/// Edits the section of the agent.
pub fn set_agent(raw: &str, set: &AgentSet) -> (result: Result<String, EditError>)
    ensures
        edits_section(
            raw@,
            Section::Agent,
            |items: Map<Seq<char>, TomlItem>| agent_edited(items, *set),
            result,
        ),
{
    let mut doc = match parse_document(raw) {
        Ok(doc) => doc,
        Err(error) => {
            return Err(EditError::Parse(error));
        },
    };
    match ensure_table(&mut doc, Section::Agent) {
        Some(table) => {
            put_optional_text(table, "scan_root", &set.scan_root);
            put_seconds(table, "sample_seconds", set.sample_seconds);
            put_seconds(table, "heartbeat_seconds", set.heartbeat_seconds);
            put_seconds(table, "rescan_seconds", set.rescan_seconds);
        },
        None => {
            return Err(EditError::NotATable(Section::Agent));
        },
    }
    Ok(render_document(&doc))
}

/// Edits the section of the controllers.
pub fn set_hba(raw: &str, set: &HbaSet) -> (result: Result<String, EditError>)
    ensures
        edits_section(
            raw@,
            Section::LsiHba,
            |items: Map<Seq<char>, TomlItem>| hba_edited(items, *set),
            result,
        ),
{
    let mut doc = match parse_document(raw) {
        Ok(doc) => doc,
        Err(error) => {
            return Err(EditError::Parse(error));
        },
    };
    match ensure_table(&mut doc, Section::LsiHba) {
        Some(table) => {
            put_flag(table, "enabled", set.enabled);
            put_texts(table, "devices", &set.devices);
            if let Some(max_ioc) = set.max_ioc {
                table_put_integer(table, "max_ioc", max_ioc as i64);
            }
        },
        None => {
            return Err(EditError::NotATable(Section::LsiHba));
        },
    }
    Ok(render_document(&doc))
}

/// Edits the section of the disks.
pub fn set_smartctl(raw: &str, set: &SmartctlSet) -> (result: Result<String, EditError>)
    ensures
        edits_section(
            raw@,
            Section::Smartctl,
            |items: Map<Seq<char>, TomlItem>| smartctl_edited(items, *set),
            result,
        ),
{
    let mut doc = match parse_document(raw) {
        Ok(doc) => doc,
        Err(error) => {
            return Err(EditError::Parse(error));
        },
    };
    match ensure_table(&mut doc, Section::Smartctl) {
        Some(table) => {
            put_flag(table, "enabled", set.enabled);
            put_texts(table, "device_globs", &set.device_globs);
            put_seconds(table, "timeout_seconds", set.timeout_seconds);
            put_seconds(table, "poll_seconds", set.poll_seconds);
        },
        None => {
            return Err(EditError::NotATable(Section::Smartctl));
        },
    }
    Ok(render_document(&doc))
}

// ── Persistent sensors ───────────────────────────────────────────────────────

/// The key of the persistent sensors.
pub open spec fn persistent_key() -> Seq<char> {
    "persistent_sensor"@
}

/// The tables of the persistent sensors: none where the key is missing, and
/// `None` where something else than an array of tables stands there.
pub open spec fn persistent_items(items: Map<Seq<char>, TomlItem>) -> Option<
    Seq<Map<Seq<char>, TomlItem>>,
> {
    if !items.contains_key(persistent_key()) {
        Some(Seq::empty())
    } else {
        match items[persistent_key()] {
            TomlItem::Tables(tables) => Some(tables),
            _ => None,
        }
    }
}

/// Whether a table is that of the sensor `id`.
pub open spec fn is_sensor_table(table: Map<Seq<char>, TomlItem>, id: Seq<char>) -> bool {
    table.contains_key("id"@) && table["id"@] == TomlItem::Text(id)
}

/// Whether one of some tables is that of the sensor `id`.
pub open spec fn has_sensor(tables: Seq<Map<Seq<char>, TomlItem>>, id: Seq<char>) -> bool {
    exists|i: int| 0 <= i < tables.len() && is_sensor_table(#[trigger] tables[i], id)
}

/// Some tables without the first one of the sensor `id`.
pub open spec fn without_sensor(tables: Seq<Map<Seq<char>, TomlItem>>, id: Seq<char>) -> Seq<
    Map<Seq<char>, TomlItem>,
>
    decreases tables.len(),
{
    if tables.len() == 0 {
        tables
    } else if is_sensor_table(tables[0], id) {
        tables.skip(1)
    } else {
        seq![tables[0]] + without_sensor(tables.skip(1), id)
    }
}

/// The name of a kind in the configuration.
pub open spec fn kind_text(kind: SensorKind) -> Seq<char> {
    match kind {
        SensorKind::Temperature => "temperature"@,
        SensorKind::Fan => "fan"@,
        SensorKind::Voltage => "voltage"@,
        SensorKind::Current => "current"@,
        SensorKind::Power => "power"@,
    }
}

/// The name of a kind in the configuration.
pub fn sensor_kind_name(kind: SensorKind) -> (name: &'static str)
    ensures
        name@ == kind_text(kind),
{
    match kind {
        SensorKind::Temperature => "temperature",
        SensorKind::Fan => "fan",
        SensorKind::Voltage => "voltage",
        SensorKind::Current => "current",
        SensorKind::Power => "power",
    }
}

/// The table of a source.
pub open spec fn source_items(source: SourceView) -> Map<Seq<char>, TomlItem> {
    match source {
        SourceView::Hwmon { chip_name, input, source_label, device_path_contains } => put(
            put(
                put(
                    no_items().insert("type"@, TomlItem::Text("hwmon"@)),
                    "chip_name"@,
                    text_item(chip_name),
                ).insert("input"@, TomlItem::Text(input)),
                "source_label"@,
                text_item(source_label),
            ),
            "device_path_contains"@,
            text_item(device_path_contains),
        ),
        SourceView::Smartctl { device } => no_items().insert(
            "type"@,
            TomlItem::Text("smartctl"@),
        ).insert("device"@, TomlItem::Text(device)),
        SourceView::LsiHba { device, ioc } => no_items().insert(
            "type"@,
            TomlItem::Text("lsi_hba"@),
        ).insert("device"@, TomlItem::Text(device)).insert("ioc"@, TomlItem::Integer(ioc as int)),
    }
}

/// The table of a persistent sensor.
pub open spec fn sensor_items(sensor: PersistentConfigView) -> Map<Seq<char>, TomlItem> {
    no_items().insert("id"@, TomlItem::Text(sensor.id)).insert(
        "kind"@,
        TomlItem::Text(kind_text(sensor.kind)),
    ).insert("label"@, TomlItem::Text(sensor.label)).insert(
        "default_value"@,
        TomlItem::Integer(sensor.default_value as int),
    ).insert("source"@, TomlItem::Table(source_items(sensor.source)))
}

fn source_table(source: &PersistentSensorSource) -> (table: toml_edit::Table)
    ensures
        table_items(table) == source_items(source@),
{
    let mut table = new_table();
    match source {
        PersistentSensorSource::Hwmon {
            chip_name,
            input,
            source_label,
            device_path_contains,
        } => {
            table_put_text(&mut table, "type", "hwmon");
            put_optional_text(&mut table, "chip_name", chip_name);
            table_put_text(&mut table, "input", input);
            put_optional_text(&mut table, "source_label", source_label);
            put_optional_text(&mut table, "device_path_contains", device_path_contains);
        },
        PersistentSensorSource::Smartctl { device } => {
            table_put_text(&mut table, "type", "smartctl");
            table_put_text(&mut table, "device", device);
        },
        PersistentSensorSource::LsiHba { device, ioc } => {
            table_put_text(&mut table, "type", "lsi_hba");
            table_put_text(&mut table, "device", device);
            table_put_integer(&mut table, "ioc", *ioc as i64);
        },
    }
    table
}

fn persistent_table(sensor: &PersistentSensorConfig) -> (table: toml_edit::Table)
    ensures
        table_items(table) == sensor_items(sensor@),
{
    let mut table = new_table();
    table_put_text(&mut table, "id", &sensor.id);
    table_put_text(&mut table, "kind", sensor_kind_name(sensor.kind));
    table_put_text(&mut table, "label", &sensor.label);
    table_put_integer(&mut table, "default_value", sensor.default_value);
    table_put_table(&mut table, "source", source_table(&sensor.source));
    table
}

/// The array of the persistent sensors, which is made where it is missing.
fn ensure_persistent_array<'a>(doc: &'a mut toml_edit::DocumentMut) -> (tables: Option<
    &'a mut toml_edit::ArrayOfTables,
>)
    ensures
        match tables {
            Some(tables) => {
                &&& persistent_items(document_items(*old(doc))) == Some(tables_items(*tables))
                &&& document_items(*final(doc)) == document_items(*old(doc)).insert(
                    persistent_key(),
                    TomlItem::Tables(tables_items(*final(tables))),
                )
            },
            None => persistent_items(document_items(*old(doc))) is None,
        },
{
    let ghost before = document_items(*doc);
    if !document_has(doc, "persistent_sensor") {
        document_put_tables(doc, "persistent_sensor");
    }
    let ghost middle = document_items(*doc);
    assert forall|item: TomlItem| #[trigger] middle.insert(persistent_key(), item)
        == before.insert(persistent_key(), item) by {
        assert(middle.insert(persistent_key(), item) =~= before.insert(persistent_key(), item));
    }
    document_tables_mut(doc, "persistent_sensor")
}

/// Takes the first table of the sensor `id` out, if there is one.
fn drop_sensor(tables: &mut toml_edit::ArrayOfTables, id: &str) -> (dropped: bool)
    ensures
        dropped == has_sensor(tables_items(*old(tables)), id@),
        tables_items(*final(tables)) == without_sensor(tables_items(*old(tables)), id@),
{
    let ghost all = tables_items(*tables);
    let n = tables_len(tables);
    assert(all.take(0) + without_sensor(all.skip(0), id@) =~= without_sensor(all, id@)) by {
        assert(all.skip(0) =~= all);
    }
    for i in 0..n
        invariant
            n == all.len(),
            all == tables_items(*old(tables)),
            tables_items(*tables) == all,
            forall|j: int| 0 <= j < i ==> !is_sensor_table(#[trigger] all[j], id@),
            all.take(i as int) + without_sensor(all.skip(i as int), id@) == without_sensor(all, id@),
    {
        let ghost rest = all.skip(i as int);
        assert(rest[0] == all[i as int]);
        assert(rest.skip(1) =~= all.skip(i as int + 1));
        let found = match tables_get(tables, i) {
            Some(table) => match table_text(table, "id") {
                Some(text) => same(&text, id),
                None => false,
            },
            None => false,
        };
        assert(found == is_sensor_table(all[i as int], id@));
        if found {
            tables_remove(tables, i);
            assert(all.remove(i as int) =~= all.take(i as int) + rest.skip(1));
            return true;
        }
        assert(all.take(i as int) + (seq![rest[0]] + without_sensor(rest.skip(1), id@))
            =~= all.take(i as int + 1) + without_sensor(all.skip(i as int + 1), id@));
    }
    assert(all.take(n as int) + without_sensor(all.skip(n as int), id@) =~= all);
    false
}

/// Whether `text` is that of a document whose persistent sensors are `tables`,
/// and that is otherwise as `items` says.
pub open spec fn holds_sensors(
    text: Seq<char>,
    items: Map<Seq<char>, TomlItem>,
    tables: Seq<Map<Seq<char>, TomlItem>>,
) -> bool {
    exists|doc: toml_edit::DocumentMut|
        text == #[trigger] document_text(doc) && document_items(doc) == items.insert(
            persistent_key(),
            TomlItem::Tables(tables),
        )
}

/// Adds a persistent sensor, in place of one with the same identifier.
pub fn add_persistent_sensor(raw: &str, sensor: &PersistentSensorConfig) -> (result: Result<
    String,
    EditError,
>)
    ensures
        match parsed_document(raw@) {
            None => result matches Err(EditError::Parse(_)),
            Some(items) => match persistent_items(items) {
                None => result matches Err(EditError::NotTables),
                Some(tables) => {
                    &&& result matches Ok(text)
                    &&& holds_sensors(
                        text@,
                        items,
                        without_sensor(tables, sensor.id@).push(sensor_items(sensor@)),
                    )
                },
            },
        },
{
    let mut doc = match parse_document(raw) {
        Ok(doc) => doc,
        Err(error) => {
            return Err(EditError::Parse(error));
        },
    };
    match ensure_persistent_array(&mut doc) {
        Some(tables) => {
            drop_sensor(tables, &sensor.id);
            tables_push(tables, persistent_table(sensor));
        },
        None => {
            return Err(EditError::NotTables);
        },
    }
    Ok(render_document(&doc))
}

/// Removes a persistent sensor, and says whether it was there.
pub fn remove_persistent_sensor(raw: &str, id: &str) -> (result: Result<
    (String, bool),
    EditError,
>)
    ensures
        match parsed_document(raw@) {
            None => result matches Err(EditError::Parse(_)),
            Some(items) => match persistent_items(items) {
                None => result matches Err(EditError::NotTables),
                Some(tables) => {
                    &&& result matches Ok((text, removed))
                    &&& removed == has_sensor(tables, id@)
                    &&& holds_sensors(text@, items, without_sensor(tables, id@))
                },
            },
        },
{
    let mut doc = match parse_document(raw) {
        Ok(doc) => doc,
        Err(error) => {
            return Err(EditError::Parse(error));
        },
    };
    let removed = match ensure_persistent_array(&mut doc) {
        Some(tables) => drop_sensor(tables, id),
        None => {
            return Err(EditError::NotTables);
        },
    };
    Ok((render_document(&doc), removed))
}

/// A sensor that was added is there, and removing it leaves what adding it
/// found, without a sensor of that identifier.
pub proof fn law_remove_undoes_add(
    tables: Seq<Map<Seq<char>, TomlItem>>,
    sensor: PersistentConfigView,
)
    requires
        forall|i: int, j: int|
            0 <= i < j < tables.len() && is_sensor_table(#[trigger] tables[i], sensor.id)
                ==> !is_sensor_table(#[trigger] tables[j], sensor.id),
    ensures
        ({
            let added = without_sensor(tables, sensor.id).push(sensor_items(sensor));
            &&& has_sensor(added, sensor.id)
            &&& without_sensor(added, sensor.id) == without_sensor(tables, sensor.id)
            &&& !has_sensor(without_sensor(tables, sensor.id), sensor.id)
        }),
{
    let left = without_sensor(tables, sensor.id);
    let added = left.push(sensor_items(sensor));
    lemma_sensor_items_id(sensor);
    assert(added[left.len() as int] == sensor_items(sensor));
    lemma_without_sensor_gone(tables, sensor.id);
    lemma_without_sensor_last(left, sensor_items(sensor), sensor.id);
}

proof fn lemma_sensor_items_id(sensor: PersistentConfigView)
    ensures
        is_sensor_table(sensor_items(sensor), sensor.id),
{
    reveal_strlit("id");
    reveal_strlit("kind");
    reveal_strlit("label");
    reveal_strlit("default_value");
    reveal_strlit("source");
    assert("id"@.len() != "kind"@.len());
    assert("id"@.len() != "label"@.len());
    assert("id"@.len() != "default_value"@.len());
    assert("id"@.len() != "source"@.len());
}

proof fn lemma_without_sensor_gone(tables: Seq<Map<Seq<char>, TomlItem>>, id: Seq<char>)
    requires
        forall|i: int, j: int|
            0 <= i < j < tables.len() && is_sensor_table(#[trigger] tables[i], id)
                ==> !is_sensor_table(#[trigger] tables[j], id),
    ensures
        !has_sensor(without_sensor(tables, id), id),
    decreases tables.len(),
{
    if tables.len() > 0 {
        let rest = tables.skip(1);
        assert forall|i: int, j: int|
            0 <= i < j < rest.len() && is_sensor_table(
                #[trigger] rest[i],
                id,
            ) implies !is_sensor_table(#[trigger] rest[j], id) by {
            assert(rest[i] == tables[i + 1]);
            assert(rest[j] == tables[j + 1]);
        }
        lemma_without_sensor_gone(rest, id);
        let left = without_sensor(tables, id);
        assert forall|i: int| 0 <= i < left.len() implies !is_sensor_table(
            #[trigger] left[i],
            id,
        ) by {
            if is_sensor_table(tables[0], id) {
                assert(left[i] == tables[i + 1]);
            } else if i > 0 {
                assert(left[i] == without_sensor(rest, id)[i - 1]);
            }
        }
    }
}

proof fn lemma_without_sensor_last(
    left: Seq<Map<Seq<char>, TomlItem>>,
    table: Map<Seq<char>, TomlItem>,
    id: Seq<char>,
)
    requires
        !has_sensor(left, id),
        is_sensor_table(table, id),
    ensures
        without_sensor(left.push(table), id) == left,
    decreases left.len(),
{
    let all = left.push(table);
    if left.len() == 0 {
        assert(all[0] == table);
        assert(all.skip(1) =~= left);
    } else {
        let rest = left.skip(1);
        assert(all[0] == left[0]);
        assert(!is_sensor_table(left[0], id));
        assert(!has_sensor(rest, id)) by {
            if has_sensor(rest, id) {
                let i = choose|i: int| 0 <= i < rest.len() && is_sensor_table(#[trigger] rest[i], id);
                assert(rest[i] == left[i + 1]);
            }
        }
        lemma_without_sensor_last(rest, table, id);
        assert(all.skip(1) =~= rest.push(table));
        assert(seq![left[0]] + rest =~= left);
    }
}

} // verus!
