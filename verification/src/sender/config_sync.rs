//! Keeps the collector's configuration file in step with what is sent.
use vstd::prelude::*;

use crate::sender::format::OutputFormat;
use crate::text;
use crate::toml_doc;
use crate::toml_doc::{Document, DocumentData, Found, Item, TomlData};

verus! {

/// Why the configuration cannot be brought into step.
#[derive(Clone, Copy, Debug, PartialEq, Eq, Structural)]
pub enum SyncError {
    Parse,
    RootNotTable,
    CollectorNotTable,
    Serialize,
}

impl SyncError {
    pub open spec fn text(self) -> Seq<char> {
        match self {
            SyncError::Parse => "parse config.toml failed"@,
            SyncError::RootNotTable => "config.toml root must be a table"@,
            SyncError::CollectorNotTable => "config.toml [collector] must be a table"@,
            SyncError::Serialize => "serialize config.toml failed"@,
        }
    }

    pub fn as_str(&self) -> (r: &'static str)
        ensures
            r@ == self.text(),
    {
        match self {
            SyncError::Parse => "parse config.toml failed",
            SyncError::RootNotTable => "config.toml root must be a table",
            SyncError::CollectorNotTable => "config.toml [collector] must be a table",
            SyncError::Serialize => "serialize config.toml failed",
        }
    }
}

/// The document of a configuration file; a file that is missing is an empty document.
pub open spec fn existing_document(file: Option<Seq<char>>) -> DocumentData {
    match file {
        Some(s) => toml_doc::document(s),
        None => DocumentData::Table(toml_doc::no_entries()),
    }
}

/// The entries of the collector in a document; none where the document has no such table.
pub open spec fn collector_entries(document: DocumentData) -> Result<
    Map<Seq<char>, TomlData>,
    SyncError,
> {
    match document {
        DocumentData::Invalid => Err(SyncError::Parse),
        DocumentData::NotTable => Err(SyncError::RootNotTable),
        DocumentData::Table(root) => if root.contains_key("collector"@) {
            match root["collector"@] {
                TomlData::Table(collector) => Ok(collector),
                _ => Err(SyncError::CollectorNotTable),
            }
        } else {
            Ok(toml_doc::no_entries())
        },
    }
}

/// The entries of a document whose collector has other entries.
pub open spec fn with_collector(document: DocumentData, collector: Map<Seq<char>, TomlData>) -> Map<
    Seq<char>,
    TomlData,
> {
    document->Table_0.insert("collector"@, TomlData::Table(collector))
}

/// What is written back, and what is reported.
#[derive(Debug)]
pub struct Synced {
    pub file: String,
    pub message: String,
}

/// Whether the outcome is that the file is written with the given collector entries, and the
/// message reported; or, where there is no such text, that it cannot be written.
pub open spec fn written(
    r: Result<Synced, SyncError>,
    document: DocumentData,
    collector: Map<Seq<char>, TomlData>,
    message: Seq<char>,
) -> bool {
    match toml_doc::rendered(with_collector(document, collector)) {
        Some(s) => r is Ok && r->Ok_0.file@ == s && r->Ok_0.message@ == message,
        None => r == Err::<Synced, SyncError>(SyncError::Serialize),
    }
}

/// The document of a configuration file; a file that is missing is an empty document.
fn read_document(file: Option<&str>) -> (r: Document)
    ensures
        r.data() == existing_document(
            match file {
                Some(s) => Some(s@),
                None => None,
            },
        ),
{
    match file {
        Some(s) => toml_doc::parse_document(s),
        None => Document::Table(toml_doc::new_table()),
    }
}

fn open_collector(document: Document) -> (r: Result<
    (toml::map::Map<String, toml::Value>, toml::map::Map<String, toml::Value>),
    SyncError,
>)
    ensures
        match collector_entries(document.data()) {
            Ok(collector) => {
                &&& r is Ok
                &&& document is Table
                &&& toml_doc::entries((r->Ok_0).0) == document.data()->Table_0.remove(
                    "collector"@,
                )
                &&& toml_doc::entries((r->Ok_0).1) == collector
            },
            Err(error) => r is Err && r->Err_0 == error,
        },
{
    match document {
        Document::Invalid => Err(SyncError::Parse),
        Document::NotTable => Err(SyncError::RootNotTable),
        Document::Table(root) => {
            let mut root = root;
            match toml_doc::take_entry(&mut root, "collector") {
                Some(Found::Table(collector)) => Ok((root, collector)),
                Some(_) => Err(SyncError::CollectorNotTable),
                None => Ok((root, toml_doc::new_table())),
            }
        },
    }
}

fn close_collector(
    root: toml::map::Map<String, toml::Value>,
    collector: toml::map::Map<String, toml::Value>,
    message: String,
) -> (r: Result<Synced, SyncError>)
    ensures
        match toml_doc::rendered(
            toml_doc::entries(root).insert(
                "collector"@,
                TomlData::Table(toml_doc::entries(collector)),
            ),
        ) {
            Some(s) => r is Ok && r->Ok_0.file@ == s && r->Ok_0.message@ == message@,
            None => r == Err::<Synced, SyncError>(SyncError::Serialize),
        },
{
    let mut root = root;
    toml_doc::set_entry(&mut root, text::owned("collector"), Item::Table(collector));
    match toml_doc::render(root) {
        Some(file) => Ok(Synced { file, message }),
        None => Err(SyncError::Serialize),
    }
}

/// The collector's entries with the mode of a format.
pub open spec fn mode_entries(collector: Map<Seq<char>, TomlData>, mode: Seq<char>) -> Map<
    Seq<char>,
    TomlData,
> {
    collector.insert("serial_mode"@, TomlData::Text(mode))
}

/// What is reported about the mode.
pub open spec fn mode_message(collector: Map<Seq<char>, TomlData>, mode: Seq<char>) -> Seq<char> {
    if collector.contains_key("serial_mode"@) && collector["serial_mode"@] == TomlData::Text(mode) {
        "collector.serial_mode already '"@ + mode + "'"@
    } else {
        "updated collector.serial_mode -> '"@ + mode + "'"@
    }
}

/// Whether the outcome is that the serial mode of the document is set, with the message about
/// it; or the error that the document gives.
pub open spec fn mode_set(r: Result<Synced, SyncError>, document: DocumentData, mode: Seq<char>) -> bool {
    match collector_entries(document) {
        Ok(collector) => written(
            r,
            document,
            mode_entries(collector, mode),
            mode_message(collector, mode),
        ),
        Err(error) => r == Err::<Synced, SyncError>(error),
    }
}

/// Sets the collector's serial mode in the file to the one that reads the format. All other
/// entries of the file stay.
pub fn sync_collector_mode(file: Option<&str>, format: OutputFormat) -> (r: Result<
    Synced,
    SyncError,
>)
    ensures
        mode_set(
            r,
            existing_document(
                match file {
                    Some(s) => Some(s@),
                    None => None,
                },
            ),
            format.collector_mode(),
        ),
{
    set_collector_mode(read_document(file), format)
}

/// Sets the collector's serial mode in the document to the one that reads the format. All
/// other entries stay.
pub fn set_collector_mode(document: Document, format: OutputFormat) -> (r: Result<
    Synced,
    SyncError,
>)
    ensures
        mode_set(r, document.data(), format.collector_mode()),
{
    let ghost document_data = document.data();
    let (root, collector) = match open_collector(document) {
        Ok(tables) => tables,
        Err(error) => {
            return Err(error);
        },
    };
    let ghost before = toml_doc::entries(collector);
    let mut collector = collector;
    let mode: &str = format.collector_serial_mode();
    let already_same: bool = match toml_doc::take_entry(&mut collector, "serial_mode") {
        Some(Found::Text(current)) => text::same_text(current.as_str(), mode),
        _ => false,
    };
    toml_doc::set_entry(
        &mut collector,
        text::owned("serial_mode"),
        Item::Text(text::owned(mode)),
    );
    let mut message = if already_same {
        text::owned("collector.serial_mode already '")
    } else {
        text::owned("updated collector.serial_mode -> '")
    };
    text::push_text(&mut message, mode);
    text::push_text(&mut message, "'");
    proof {
        assert(toml_doc::entries(collector) =~= mode_entries(before, mode@));
        assert(document_data->Table_0.remove("collector"@).insert(
            "collector"@,
            TomlData::Table(toml_doc::entries(collector)),
        ) =~= with_collector(document_data, toml_doc::entries(collector)));
    }
    close_collector(root, collector, message)
}

/// The collector's entries with CAN on, on the usual channel.
pub open spec fn can_entries(collector: Map<Seq<char>, TomlData>) -> Map<Seq<char>, TomlData> {
    collector.insert("can_enabled"@, TomlData::Flag(true)).insert(
        "can_hardware_name"@,
        TomlData::Text("TC1012"@),
    ).insert("can_channel"@, TomlData::Integer(0)).insert(
        "can_baud_kbps"@,
        TomlData::Integer(500),
    ).insert("can_data_baud_kbps"@, TomlData::Integer(2000))
}

/// What is reported about CAN.
pub open spec fn can_message(collector: Map<Seq<char>, TomlData>) -> Seq<char> {
    if collector.contains_key("can_enabled"@) && collector["can_enabled"@] == TomlData::Flag(true) {
        "collector.can_enabled already true"@
    } else {
        "enabled collector CAN ingress (TC1012 ch0, 500/2000 kbps)"@
    }
}

/// Whether the outcome is that CAN is on in the document, with the message about it; or the
/// error that the document gives.
pub open spec fn can_set(r: Result<Synced, SyncError>, document: DocumentData) -> bool {
    match collector_entries(document) {
        Ok(collector) => written(r, document, can_entries(collector), can_message(collector)),
        Err(error) => r == Err::<Synced, SyncError>(error),
    }
}

/// Switches the collector's CAN channel on in the file. All other entries of the file stay.
pub fn sync_can_collector_config(file: Option<&str>) -> (r: Result<Synced, SyncError>)
    ensures
        can_set(
            r,
            existing_document(
                match file {
                    Some(s) => Some(s@),
                    None => None,
                },
            ),
        ),
{
    set_can_collector(read_document(file))
}

/// Switches the collector's CAN channel on in the document. All other entries stay.
pub fn set_can_collector(document: Document) -> (r: Result<Synced, SyncError>)
    ensures
        can_set(r, document.data()),
{
    let ghost document_data = document.data();
    let (root, collector) = match open_collector(document) {
        Ok(tables) => tables,
        Err(error) => {
            return Err(error);
        },
    };
    let ghost before = toml_doc::entries(collector);
    let mut collector = collector;
    let already_enabled: bool = match toml_doc::take_entry(&mut collector, "can_enabled") {
        Some(Found::Flag(flag)) => flag,
        _ => false,
    };
    toml_doc::set_entry(&mut collector, text::owned("can_enabled"), Item::Flag(true));
    toml_doc::set_entry(
        &mut collector,
        text::owned("can_hardware_name"),
        Item::Text(text::owned("TC1012")),
    );
    toml_doc::set_entry(&mut collector, text::owned("can_channel"), Item::Integer(0));
    toml_doc::set_entry(&mut collector, text::owned("can_baud_kbps"), Item::Integer(500));
    toml_doc::set_entry(&mut collector, text::owned("can_data_baud_kbps"), Item::Integer(2000));
    let message = if already_enabled {
        text::owned("collector.can_enabled already true")
    } else {
        text::owned("enabled collector CAN ingress (TC1012 ch0, 500/2000 kbps)")
    };
    proof {
        assert(before.remove("can_enabled"@).insert("can_enabled"@, TomlData::Flag(true))
            =~= before.insert("can_enabled"@, TomlData::Flag(true)));
        assert(toml_doc::entries(collector) == can_entries(before));
        assert(document_data->Table_0.remove("collector"@).insert(
            "collector"@,
            TomlData::Table(toml_doc::entries(collector)),
        ) =~= with_collector(document_data, toml_doc::entries(collector)));
    }
    close_collector(root, collector, message)
}

/// Doing it again reports that nothing had to be changed, and sets the same entries.
pub proof fn law_sync_settles(collector: Map<Seq<char>, TomlData>, mode: Seq<char>)
    ensures
        mode_message(mode_entries(collector, mode), mode) == "collector.serial_mode already '"@
            + mode + "'"@,
        mode_entries(mode_entries(collector, mode), mode) == mode_entries(collector, mode),
        can_message(can_entries(collector)) == "collector.can_enabled already true"@,
        can_entries(can_entries(collector)) == can_entries(collector),
{
    reveal_strlit("can_enabled");
    reveal_strlit("can_hardware_name");
    reveal_strlit("can_channel");
    reveal_strlit("can_baud_kbps");
    reveal_strlit("can_data_baud_kbps");
    assert("can_enabled"@.len() == 11 && "can_hardware_name"@.len() == 17
        && "can_channel"@.len() == 11 && "can_baud_kbps"@.len() == 13
        && "can_data_baud_kbps"@.len() == 18);
    assert("can_enabled"@[4] != "can_channel"@[4]);
    assert(mode_entries(mode_entries(collector, mode), mode) =~= mode_entries(collector, mode));
    assert(can_entries(can_entries(collector)) =~= can_entries(collector));
}

/// Setting the mode sets that one entry and leaves the others; turning the bus on sets its five
/// entries to TC1012, channel 0, 500 and 2000 kbps, and leaves the others.
pub proof fn law_entries_set(
    collector: Map<Seq<char>, TomlData>,
    mode: Seq<char>,
    key: Seq<char>,
)
    ensures
        mode_entries(collector, mode)["serial_mode"@] == TomlData::Text(mode),
        key != "serial_mode"@ ==> (mode_entries(collector, mode).contains_key(key)
            <==> collector.contains_key(key)) && (collector.contains_key(key) ==> mode_entries(
            collector,
            mode,
        )[key] == collector[key]),
        can_entries(collector)["can_enabled"@] == TomlData::Flag(true),
        can_entries(collector)["can_hardware_name"@] == TomlData::Text("TC1012"@),
        can_entries(collector)["can_channel"@] == TomlData::Integer(0),
        can_entries(collector)["can_baud_kbps"@] == TomlData::Integer(500),
        can_entries(collector)["can_data_baud_kbps"@] == TomlData::Integer(2000),
        key != "can_enabled"@ && key != "can_hardware_name"@ && key != "can_channel"@ && key
            != "can_baud_kbps"@ && key != "can_data_baud_kbps"@ ==> (can_entries(
            collector,
        ).contains_key(key) <==> collector.contains_key(key)) && (collector.contains_key(key)
            ==> can_entries(collector)[key] == collector[key]),
{
    reveal_strlit("can_enabled");
    reveal_strlit("can_hardware_name");
    reveal_strlit("can_channel");
    reveal_strlit("can_baud_kbps");
    reveal_strlit("can_data_baud_kbps");
    assert("can_enabled"@.len() == 11 && "can_hardware_name"@.len() == 17 && "can_channel"@.len()
        == 11 && "can_baud_kbps"@.len() == 13 && "can_data_baud_kbps"@.len() == 18);
    assert("can_enabled"@[4] != "can_channel"@[4]);
}

/// The collector's entries are those of the table of that name, or none where there is no such
/// table; a document that cannot be read, is no table, or has something else under that name is
/// refused, each with its own error. What stands beside them in the document stays.
pub proof fn law_collector_table(
    root: Map<Seq<char>, TomlData>,
    collector: Map<Seq<char>, TomlData>,
    key: Seq<char>,
)
    ensures
        collector_entries(DocumentData::Invalid) == Err::<Map<Seq<char>, TomlData>, SyncError>(
            SyncError::Parse,
        ),
        collector_entries(DocumentData::NotTable) == Err::<Map<Seq<char>, TomlData>, SyncError>(
            SyncError::RootNotTable,
        ),
        !root.contains_key("collector"@) ==> collector_entries(DocumentData::Table(root)) == Ok::<
            Map<Seq<char>, TomlData>,
            SyncError,
        >(toml_doc::no_entries()),
        root.contains_key("collector"@) && root["collector"@] == TomlData::Table(collector)
            ==> collector_entries(DocumentData::Table(root)) == Ok::<
            Map<Seq<char>, TomlData>,
            SyncError,
        >(collector),
        root.contains_key("collector"@) && !(root["collector"@] is Table) ==> collector_entries(
            DocumentData::Table(root),
        ) == Err::<Map<Seq<char>, TomlData>, SyncError>(SyncError::CollectorNotTable),
        with_collector(DocumentData::Table(root), collector)["collector"@] == TomlData::Table(
            collector,
        ),
        key != "collector"@ ==> (with_collector(DocumentData::Table(root), collector).contains_key(
            key,
        ) <==> root.contains_key(key)) && (root.contains_key(key) ==> with_collector(
            DocumentData::Table(root),
            collector,
        )[key] == root[key]),
{
}

/// Where nothing had to change, the message says so; otherwise it says what was set. The errors
/// have their own words.
pub proof fn law_sync_words(collector: Map<Seq<char>, TomlData>, mode: Seq<char>)
    ensures
        collector.contains_key("serial_mode"@) && collector["serial_mode"@] == TomlData::Text(mode)
            ==> mode_message(collector, mode) == "collector.serial_mode already '"@ + mode + "'"@,
        !collector.contains_key("serial_mode"@) || collector["serial_mode"@] != TomlData::Text(mode)
            ==> mode_message(collector, mode) == "updated collector.serial_mode -> '"@ + mode
            + "'"@,
        collector.contains_key("can_enabled"@) && collector["can_enabled"@] == TomlData::Flag(true)
            ==> can_message(collector) == "collector.can_enabled already true"@,
        !collector.contains_key("can_enabled"@) || collector["can_enabled"@] != TomlData::Flag(true)
            ==> can_message(collector)
            == "enabled collector CAN ingress (TC1012 ch0, 500/2000 kbps)"@,
        SyncError::Parse.text() == "parse config.toml failed"@,
        SyncError::RootNotTable.text() == "config.toml root must be a table"@,
        SyncError::CollectorNotTable.text() == "config.toml [collector] must be a table"@,
        SyncError::Serialize.text() == "serialize config.toml failed"@,
{
}

/// A file that is not there counts as an empty document. What cannot be read is refused with its
/// own error; otherwise the document is written with the entry set, all else kept, or the error
/// of writing it is told.
pub proof fn law_sync_outcomes(
    r: Result<Synced, SyncError>,
    document: DocumentData,
    mode: Seq<char>,
    file: Seq<char>,
)
    ensures
        existing_document(None) == DocumentData::Table(toml_doc::no_entries()),
        existing_document(Some(file)) == toml_doc::document(file),
        mode_set(r, document, mode) ==> match collector_entries(document) {
            Err(error) => r == Err::<Synced, SyncError>(error),
            Ok(collector) => match toml_doc::rendered(
                document->Table_0.insert(
                    "collector"@,
                    TomlData::Table(collector.insert("serial_mode"@, TomlData::Text(mode))),
                ),
            ) {
                Some(s) => r is Ok && r->Ok_0.file@ == s && r->Ok_0.message@ == mode_message(
                    collector,
                    mode,
                ),
                None => r == Err::<Synced, SyncError>(SyncError::Serialize),
            },
        },
        can_set(r, document) ==> match collector_entries(document) {
            Err(error) => r == Err::<Synced, SyncError>(error),
            Ok(collector) => match toml_doc::rendered(
                document->Table_0.insert("collector"@, TomlData::Table(can_entries(collector))),
            ) {
                Some(s) => r is Ok && r->Ok_0.file@ == s && r->Ok_0.message@ == can_message(
                    collector,
                ),
                None => r == Err::<Synced, SyncError>(SyncError::Serialize),
            },
        },
{
}

} // verus!
