//! The modal that imports a file into a table: its steps, its reads and its load.

use vstd::prelude::*;
use crate::columns::{DbNode, TableInfo};
use crate::import_read::{delimiter_of, delimiter_text, null_tokens, texts};
use crate::import_read::{delimiter_display, null_rule, read_delimiter};
use crate::import_read::{fills_any, has_insert_columns, Target};
use crate::import_read::{CsvDialect, ImportFormat, Issue, ReadConfig, Sample};
use crate::menu::{Act, Entry, EntryView};
use crate::plan::copy_value;
use crate::staged::{same_value, text_of};
use crate::text::{decimal, digits, join, joined, plural, plural_s};

verus! {

/// The steps of the modal.
#[derive(Clone, Copy, Debug, PartialEq, Eq, Structural)]
pub enum ImportStep {
    Source,
    Mapping,
    Done,
}

/// The table a file is imported into.
pub struct ImportTarget {
    pub conn_id: u64,
    pub database: String,
    pub schema: Option<String>,
    pub table: TableInfo,
    pub display: String,
}

/// Everything the modal knows.
///
/// `generation` counts how often it was opened and `probe_seq` how often a file was read; an answer
/// that belongs to an earlier count is dropped. `seen` holds the settings as they were last looked
/// at: those that the user changed since are told from it, and what the modal writes itself is seen
/// at once.
pub struct ImportState {
    pub step: ImportStep,
    pub path: Option<String>,
    pub format: ImportFormat,
    pub delimiter: String,
    pub has_header: bool,
    pub sheets: Vec<String>,
    pub sheet: Option<String>,
    pub empty_is_null: bool,
    pub null_tokens: String,
    pub trim: bool,
    pub file_bytes: u64,
    pub sample: Option<Sample>,
    pub mapping: Vec<Target>,
    pub issues: Vec<Issue>,
    pub more_issues: bool,
    pub error: Option<String>,
    pub imported: u64,
    pub reading: bool,
    pub loading: bool,
    pub seen: Option<Settings>,
    pub generation: u64,
    pub probe_seq: u64,
    pub target: Option<ImportTarget>,
}

/// Which opening of the modal, and which read, an answer belongs to.
#[derive(Clone, Copy, Debug, PartialEq, Eq, Structural)]
pub struct Stamp {
    pub generation: u64,
    pub probe_seq: u64,
}

/// A read of the file's first rows: where it is, how it is read, or `None` where that is to be found
/// out, and whether the columns are to be mapped to a table.
pub struct ProbeRequest {
    pub path: String,
    pub format: ImportFormat,
    pub cfg: Option<ReadConfig>,
    pub stamp: Stamp,
    pub maps: bool,
}

/// What a read of the file's first rows found, with the mapping that the names suggest.
pub struct Probe {
    pub cfg: ReadConfig,
    pub sheets: Vec<String>,
    pub sample: Sample,
    pub file_bytes: u64,
    pub mapping: Vec<Target>,
}

/// A load of the whole file, into the table that the modal is open on.
pub struct RunRequest {
    pub path: String,
    pub cfg: ReadConfig,
    pub format: ImportFormat,
    pub mapping: Vec<Target>,
    pub opened: u64,
}

/// How a load ended: with problems, so that nothing was written; with a number of rows; stopped; or
/// failed.
pub enum ImportOutcome {
    Invalid(Vec<Issue>, bool),
    Done(u64),
    Cancelled,
    Failed(String),
}

/// Whether this is how the modal's settings say the file is read.
pub open spec fn cfg_matches(i: ImportState, cfg: ReadConfig) -> bool {
    &&& cfg.dialect == (CsvDialect {
        delimiter: delimiter_of(i.delimiter@),
        quote: 34,
        has_header: i.has_header,
    })
    &&& texts(cfg.nulls@) == null_tokens(i.empty_is_null, i.null_tokens@)
    &&& cfg.trim == i.trim
    &&& cfg.sheet == i.sheet
}

/// Whether one of the texts is empty.
pub open spec fn has_empty(v: Seq<String>) -> bool {
    exists|k: int| 0 <= k < v.len() && (#[trigger] v[k])@.len() == 0
}

/// The texts that hold anything.
pub open spec fn not_empty(v: Seq<String>) -> Seq<String>
    decreases v.len(),
{
    if v.len() == 0 {
        v
    } else if v.last()@.len() == 0 {
        not_empty(v.drop_last())
    } else {
        not_empty(v.drop_last()).push(v.last())
    }
}

/// The settings that change how a file is divided: a change of one reads it again. What stands for
/// no value is not among them.
pub struct Settings {
    pub delimiter: String,
    pub has_header: bool,
    pub trim: bool,
    pub format: ImportFormat,
    pub sheet: Option<String>,
}

/// Whether two settings are the same.
pub open spec fn same_settings(a: Settings, b: Settings) -> bool {
    &&& a.delimiter@ == b.delimiter@
    &&& a.has_header == b.has_header
    &&& a.trim == b.trim
    &&& a.format == b.format
    &&& text_of(a.sheet) == text_of(b.sheet)
}

impl ImportState {
    /// The modal once everything it knew was forgotten, open on a table.
    pub fn open_import(&mut self, target: ImportTarget)
        requires
            old(self).generation < u64::MAX,
        ensures
            final(self).seen == Some(final(self).own_settings()),
            final(self).delimiter@ == ","@,
            final(self).null_tokens@.len() == 0,
            final(self).sheets@.len() == 0,
            final(self).mapping@.len() == 0,
            final(self).issues@.len() == 0,
            *final(self) == (ImportState {
                step: ImportStep::Source,
                path: None,
                format: ImportFormat::Csv,
                delimiter: final(self).delimiter,
                has_header: true,
                sheets: final(self).sheets,
                sheet: None,
                empty_is_null: true,
                null_tokens: final(self).null_tokens,
                trim: false,
                file_bytes: 0,
                sample: None,
                mapping: final(self).mapping,
                issues: final(self).issues,
                more_issues: false,
                error: None,
                imported: 0,
                reading: false,
                loading: false,
                seen: final(self).seen,
                generation: (old(self).generation + 1) as u64,
                probe_seq: old(self).probe_seq,
                target: Some(target),
            }),
    {
        self.step = ImportStep::Source;
        self.path = None;
        self.format = ImportFormat::Csv;
        self.delimiter = ",".to_owned();
        self.has_header = true;
        self.sheets = Vec::new();
        self.sheet = None;
        self.empty_is_null = true;
        self.null_tokens = String::new();
        self.trim = false;
        self.file_bytes = 0;
        self.sample = None;
        self.mapping = Vec::new();
        self.issues = Vec::new();
        self.more_issues = false;
        self.error = None;
        self.imported = 0;
        self.reading = false;
        self.loading = false;
        self.generation = self.generation + 1;
        self.target = Some(target);
        self.seen = Some(self.settings());
    }

    /// How the modal's settings say the file is read.
    pub fn read_config(&self) -> (r: ReadConfig)
        ensures
            cfg_matches(*self, r),
    {
        ReadConfig {
            dialect: CsvDialect {
                delimiter: read_delimiter(&self.delimiter),
                quote: 34,
                has_header: self.has_header,
            },
            nulls: null_rule(self.empty_is_null, self.null_tokens.as_str()),
            trim: self.trim,
            sheet: copy_value(&self.sheet),
        }
    }

    /// Which opening and which read the modal is at.
    pub open spec fn at(self) -> Stamp {
        Stamp { generation: self.generation, probe_seq: self.probe_seq }
    }

    /// Forget what the last read found wrong: the error and the list of problems are one answer.
    pub fn begin_probe(&mut self)
        ensures
            final(self).issues@.len() == 0,
            *final(self) == (ImportState {
                error: None,
                issues: final(self).issues,
                more_issues: false,
                ..*old(self)
            }),
    {
        self.error = None;
        self.issues = Vec::new();
        self.more_issues = false;
    }

    /// Read the first rows of the file that was chosen. `sniff` has its division found out, as at
    /// the first look; else the settings hold.
    pub fn probe(&mut self, sniff: bool) -> (r: Option<ProbeRequest>)
        requires
            old(self).probe_seq < u64::MAX,
        ensures
            r is Some <==> old(self).path is Some,
            r is None ==> *final(self) == *old(self),
            r matches Some(q) ==> {
                &&& q.path == old(self).path->0
                &&& q.format == old(self).format
                &&& q.cfg is None <==> sniff
                &&& q.cfg matches Some(cfg) ==> cfg_matches(*old(self), cfg)
                &&& q.stamp == final(self).at()
                &&& q.maps == (old(self).target is Some)
                &&& final(self).issues@.len() == 0
                &&& *final(self) == (ImportState {
                    reading: true,
                    error: None,
                    issues: final(self).issues,
                    more_issues: false,
                    probe_seq: (old(self).probe_seq + 1) as u64,
                    ..*old(self)
                })
            },
    {
        let path: String = match &self.path {
            Some(p) => p.clone(),
            None => return None,
        };
        let cfg: Option<ReadConfig> = if sniff {
            None
        } else {
            Some(self.read_config())
        };
        self.reading = true;
        self.begin_probe();
        self.probe_seq = self.probe_seq + 1;
        Some(
            ProbeRequest {
                path,
                format: self.format,
                cfg,
                stamp: Stamp { generation: self.generation, probe_seq: self.probe_seq },
                maps: self.target.is_some(),
            },
        )
    }

    /// Whether `after` is the modal once a read ended. It is dropped where a later one is under way,
    /// or the modal was opened anew. What it writes to the settings is seen at once.
    pub open spec fn probe_came(
        self,
        stamp: Stamp,
        sniff: bool,
        maps: bool,
        result: Result<Probe, String>,
        after: ImportState,
    ) -> bool {
        if stamp != self.at() {
            after == self
        } else {
            match result {
                Err(e) => {
                    &&& after.sheets@.len() == 0
                    &&& after.seen == Some(after.own_settings())
                    &&& after == (ImportState {
                        reading: false,
                        error: Some(e),
                        file_bytes: 0,
                        sample: None,
                        seen: after.seen,
                        sheets: after.sheets,
                        sheet: None,
                        ..self
                    })
                },
                Ok(p) => {
                    let read = ImportState {
                        reading: false,
                        sheets: p.sheets,
                        mapping: if maps {
                            p.mapping
                        } else {
                            self.mapping
                        },
                        file_bytes: p.file_bytes,
                        sample: Some(p.sample),
                        ..self
                    };
                    if !sniff {
                        after == read
                    } else {
                        &&& after.delimiter@ == delimiter_text(p.cfg.dialect.delimiter)
                        &&& after.null_tokens@ == joined(not_empty(p.cfg.nulls@), ","@)
                        &&& after.seen == Some(after.own_settings())
                        &&& after == (ImportState {
                            delimiter: after.delimiter,
                            has_header: p.cfg.dialect.has_header,
                            empty_is_null: has_empty(p.cfg.nulls@),
                            null_tokens: after.null_tokens,
                            sheet: None,
                            seen: after.seen,
                            ..read
                        })
                    }
                },
            }
        }
    }

    /// What a read found. It is dropped where a later one is under way, or the modal was opened
    /// anew; `sniff` and `maps` are those of the read.
    pub fn probe_done(&mut self, stamp: Stamp, sniff: bool, maps: bool, result: Result<Probe, String>)
        ensures
            old(self).probe_came(stamp, sniff, maps, result, *final(self)),
    {
        if stamp.generation != self.generation || stamp.probe_seq != self.probe_seq {
            return;
        }
        self.reading = false;
        match result {
            Err(e) => {
                self.error = Some(e);
                self.file_bytes = 0;
                self.sample = None;
                self.sheets = Vec::new();
                self.sheet = None;
                self.seen = Some(self.settings());
            },
            Ok(p) => {
                if sniff {
                    self.delimiter = delimiter_display(p.cfg.dialect.delimiter);
                    self.has_header = p.cfg.dialect.has_header;
                    let (listed, empty): (Vec<String>, bool) = split_empty(&p.cfg.nulls);
                    self.empty_is_null = empty;
                    self.null_tokens = join(&listed, ",");
                    self.sheet = None;
                    self.seen = Some(self.settings());
                }
                self.sheets = p.sheets;
                if maps {
                    self.mapping = p.mapping;
                }
                self.file_bytes = p.file_bytes;
                self.sample = Some(p.sample);
            },
        }
    }

    /// The modal once a file was chosen, whose name may tell its format. A format that it tells is
    /// seen at once.
    pub open spec fn with_file(self, path: String, inferred: Option<ImportFormat>) -> ImportState {
        match inferred {
            Some(f) => ImportState {
                path: Some(path),
                format: f,
                seen: Some(Settings { format: f, ..self.own_settings() }),
                ..self
            },
            None => ImportState { path: Some(path), ..self },
        }
    }

    /// A file was chosen: its name may tell its format; where it does not, the one that is set
    /// stays.
    pub fn file_chosen(&mut self, path: String, inferred: Option<ImportFormat>)
        ensures
            *final(self) == old(self).with_file(path, inferred),
    {
        if let Some(f) = inferred {
            self.format = f;
            self.seen = Some(self.settings());
        }
        self.path = Some(path);
    }

    /// The settings that a file is divided by.
    pub open spec fn own_settings(self) -> Settings {
        Settings {
            delimiter: self.delimiter,
            has_header: self.has_header,
            trim: self.trim,
            format: self.format,
            sheet: self.sheet,
        }
    }

    /// The settings that a file is divided by.
    pub fn settings(&self) -> (r: Settings)
        ensures
            r == self.own_settings(),
    {
        Settings {
            delimiter: self.delimiter.clone(),
            has_header: self.has_header,
            trim: self.trim,
            format: self.format,
            sheet: copy_value(&self.sheet),
        }
    }

    /// Whether the settings are as they were last looked at.
    pub open spec fn is_settled(self) -> bool {
        self.seen matches Some(p) && same_settings(p, self.own_settings())
    }

    /// Whether the file is read again: a setting was changed since the settings were last looked at,
    /// and there is a file and a table. The first look is no change.
    pub open spec fn reads_again(self) -> bool {
        self.seen is Some && !self.is_settled() && self.target is Some && self.path is Some
    }

    /// Whether the file is read again.
    pub fn rereads(&self) -> (r: bool)
        ensures
            r == self.reads_again(),
    {
        let changed: bool = match &self.seen {
            Some(p) => !(p.delimiter == self.delimiter && p.has_header == self.has_header && p.trim
                == self.trim && p.format == self.format && same_value(&p.sheet, &self.sheet)),
            None => false,
        };
        changed && self.target.is_some() && self.path.is_some()
    }

    /// Look at the settings, after the user may have changed one. Says whether the file is to be read
    /// again.
    pub fn settings_changed(&mut self) -> (r: bool)
        ensures
            r == old(self).reads_again(),
            *final(self) == (ImportState { seen: Some(old(self).own_settings()), ..*old(self) }),
    {
        let again: bool = self.rereads();
        self.seen = Some(self.settings());
        again
    }

    /// Load the file. Nothing is loaded while a load is under way, nor over a connection that is
    /// read-only: both are asked in the same step.
    pub fn run_import(&mut self, read_only: bool) -> (r: Option<RunRequest>)
        ensures
            r is Some <==> old(self).target is Some && old(self).path is Some && !old(self).loading
                && !read_only,
            r is None ==> *final(self) == *old(self),
            r matches Some(q) ==> {
                &&& q.path == old(self).path->0
                &&& cfg_matches(*old(self), q.cfg)
                &&& q.format == old(self).format
                &&& q.mapping@ == old(self).mapping@
                &&& q.opened == old(self).generation
                &&& final(self).issues@.len() == 0
                &&& *final(self) == (ImportState {
                    loading: true,
                    error: None,
                    issues: final(self).issues,
                    ..*old(self)
                })
            },
    {
        if self.target.is_none() || self.loading || read_only {
            return None;
        }
        let path: String = match &self.path {
            Some(p) => p.clone(),
            None => return None,
        };
        self.loading = true;
        self.error = None;
        self.issues = Vec::new();
        Some(
            RunRequest {
                path,
                cfg: self.read_config(),
                format: self.format,
                mapping: copy_mapping(&self.mapping),
                opened: self.generation,
            },
        )
    }

    /// How a load ended. It is dropped where the modal was opened anew.
    pub fn run_done(&mut self, opened: u64, outcome: ImportOutcome)
        ensures
            opened != old(self).generation ==> *final(self) == *old(self),
            opened == old(self).generation ==> {
                let idle = ImportState { loading: false, ..*old(self) };
                match outcome {
                    ImportOutcome::Invalid(issues, more) => *final(self) == (ImportState {
                        issues,
                        more_issues: more,
                        ..idle
                    }),
                    ImportOutcome::Done(n) => *final(self) == (ImportState {
                        imported: n,
                        step: ImportStep::Done,
                        ..idle
                    }),
                    ImportOutcome::Cancelled => {
                        &&& final(self).error is Some
                        &&& final(self).error->0@
                            == "Import cancelled — the transaction rolled back, so nothing was written."@
                        &&& *final(self) == (ImportState { error: final(self).error, ..idle })
                    },
                    ImportOutcome::Failed(e) => *final(self) == (ImportState {
                        error: Some(e),
                        ..idle
                    }),
                }
            },
    {
        if self.generation != opened {
            return;
        }
        self.loading = false;
        match outcome {
            ImportOutcome::Invalid(issues, more) => {
                self.issues = issues;
                self.more_issues = more;
            },
            ImportOutcome::Done(n) => {
                self.imported = n;
                self.step = ImportStep::Done;
            },
            ImportOutcome::Cancelled => {
                self.error = Some(
                    "Import cancelled — the transaction rolled back, so nothing was written.".to_owned(),
                );
            },
            ImportOutcome::Failed(e) => {
                self.error = Some(e);
            },
        }
    }

    /// Leave the modal, by whichever exit: a load that is under way is stopped first, and the modal
    /// stays to say so. Says whether there is a load to stop.
    pub fn exit(&mut self) -> (r: bool)
        ensures
            r == old(self).loading,
            *final(self) == if r {
                *old(self)
            } else {
                (ImportState { target: None, ..*old(self) })
            },
    {
        if self.loading {
            true
        } else {
            self.target = None;
            false
        }
    }

    /// The catalogue was read anew: a table that is gone, or whose database is, closes the modal, or
    /// stops its load. Says whether there is a load to stop.
    pub fn schema_changed(&mut self, nodes: &Vec<DbNode>, active_conn: u64) -> (r: bool)
        ensures
            ({
                let gone = target_gone(*old(self), nodes@, active_conn);
                &&& r == (gone && old(self).loading)
                &&& *final(self) == if gone && !old(self).loading {
                    (ImportState { target: None, ..*old(self) })
                } else {
                    *old(self)
                }
            }),
    {
        if self.step == ImportStep::Done {
            return false;
        }
        let gone: bool = match &self.target {
            None => false,
            Some(t) => t.conn_id == active_conn && table_is_gone(nodes, t),
        };
        if gone {
            self.exit()
        } else {
            false
        }
    }
}

/// Whether the tables of a node hold one of this name and schema.
pub open spec fn holds_table(tables: Seq<TableInfo>, name: Seq<char>, schema: Option<String>) -> bool {
    crate::columns::table_place(tables, text_of(schema), name, 0) is Some
}

/// Whether the catalogue shows that a table is gone: it lists databases and not the table's, or the
/// database is there, its tables were read, and the table is not among them. An empty catalogue is
/// one that is being read, and shows nothing; nor does a database whose tables were not read.
pub open spec fn shown_gone(nodes: Seq<DbNode>, t: ImportTarget) -> bool {
    match crate::columns::node_place(nodes, t.database@, 0) {
        None => nodes.len() > 0,
        Some(n) => match nodes[n as int].tables {
            None => false,
            Some(tables) => !holds_table(tables@, t.table.name@, t.schema),
        },
    }
}

/// Whether the modal's table is gone from the connection that is active.
pub open spec fn target_gone(i: ImportState, nodes: Seq<DbNode>, active_conn: u64) -> bool {
    &&& i.step != ImportStep::Done
    &&& i.target matches Some(t) && t.conn_id == active_conn && shown_gone(nodes, t)
}

/// Whether the catalogue shows that a table is gone.
fn table_is_gone(nodes: &Vec<DbNode>, t: &ImportTarget) -> (r: bool)
    ensures
        r == shown_gone(nodes@, *t),
{
    match crate::columns::find_node(nodes, &t.database) {
        None => nodes.len() > 0,
        Some(n) => match &nodes[n].tables {
            None => false,
            Some(tables) => crate::columns::find_table(
                tables,
                &t.schema,
                &t.table.name,
            ).is_none(),
        },
    }
}

/// A catalogue that is being read anew closes nothing: where it is empty, or the database's tables
/// were not read, the modal stays.
pub proof fn a_refresh_closes_nothing(i: ImportState, nodes: Seq<DbNode>, active_conn: u64)
    requires
        i.target is Some,
        ({
            let n = crate::columns::node_place(nodes, i.target->0.database@, 0);
            nodes.len() == 0 || (n is Some && nodes[n->0 as int].tables is None)
        }),
    ensures
        !target_gone(i, nodes, active_conn),
{
}

/// A database that has gone from the catalogue takes the modal with it: where the active connection
/// lists databases and none is the table's, nothing is imported into it any more.
pub proof fn a_database_that_is_gone_closes(i: ImportState, nodes: Seq<DbNode>, active_conn: u64)
    requires
        i.step != ImportStep::Done,
        i.target is Some,
        i.target->0.conn_id == active_conn,
        nodes.len() > 0,
        forall|n: int| 0 <= n < nodes.len() ==> (#[trigger] nodes[n]).database@ != i.target->0.database@,
    ensures
        target_gone(i, nodes, active_conn),
{
    lemma_no_node(nodes, i.target->0.database@, 0);
}

proof fn lemma_no_node(nodes: Seq<DbNode>, db: Seq<char>, i: int)
    requires
        0 <= i <= nodes.len(),
        forall|n: int| 0 <= n < nodes.len() ==> (#[trigger] nodes[n]).database@ != db,
    ensures
        crate::columns::node_place(nodes, db, i) is None,
    decreases nodes.len() - i,
{
    if i < nodes.len() {
        assert(nodes[i].database@ != db);
        lemma_no_node(nodes, db, i + 1);
    }
}

/// The texts that hold anything, and whether one does not.
fn split_empty(v: &Vec<String>) -> (r: (Vec<String>, bool))
    ensures
        r.0@ == not_empty(v@),
        r.1 == has_empty(v@),
{
    let mut out: Vec<String> = Vec::new();
    let mut empty: bool = false;
    let mut i: usize = 0;
    while i < v.len()
        invariant
            i <= v@.len(),
            out@ == not_empty(v@.take(i as int)),
            empty ==> exists|k: int| 0 <= k < i && (#[trigger] v@[k])@.len() == 0,
            !empty ==> forall|k: int| 0 <= k < i ==> (#[trigger] v@[k])@.len() > 0,
        decreases v@.len() - i,
    {
        proof {
            assert(v@.take(i + 1).drop_last() =~= v@.take(i as int));
            assert(v@.take(i + 1).last() == v@[i as int]);
        }
        if v[i].as_str().is_empty() {
            empty = true;
        } else {
            out.push(v[i].clone());
        }
        i = i + 1;
    }
    assert(v@.take(v@.len() as int) =~= v@);
    (out, empty)
}

/// A copy of a mapping.
fn copy_mapping(m: &Vec<Target>) -> (r: Vec<Target>)
    ensures
        r@ == m@,
{
    let mut out: Vec<Target> = Vec::new();
    let mut i: usize = 0;
    while i < m.len()
        invariant
            i <= m@.len(),
            out@ == m@.take(i as int),
        decreases m@.len() - i,
    {
        out.push(m[i]);
        i = i + 1;
        assert(out@ =~= m@.take(i as int));
    }
    assert(m@.take(m@.len() as int) =~= m@);
    out
}

/// Whether the columns of a file have names that a table's columns can be found by: those of a header,
/// or of the fields of its objects.
pub fn names_its_columns(has_header: bool, format: ImportFormat) -> (r: bool)
    ensures
        r == (has_header || format == ImportFormat::Json),
{
    has_header || format == ImportFormat::Json
}

/// What stands beside the button that chooses a file: the file's name, where one was chosen.
pub fn file_label(chosen: bool, name: &Option<String>) -> (r: String)
    ensures
        r@ == if !chosen {
            "No file chosen"@
        } else {
            match *name {
                Some(n) => n@,
                None => "(file)"@,
            }
        },
{
    if !chosen {
        return "No file chosen".to_owned();
    }
    match name {
        Some(n) => n.clone(),
        None => "(file)".to_owned(),
    }
}

/// Which settings a step shows: those of a divided text, those of a workbook, or none.
#[derive(Clone, Copy, Debug, PartialEq, Eq, Structural)]
pub struct SourceSettings {
    pub csv: bool,
    pub xlsx: bool,
    pub sheet_picker: bool,
}

impl ImportState {
    /// Which settings the first step shows. A workbook of one sheet leaves nothing to pick.
    pub fn source_step(&self) -> (r: SourceSettings)
        ensures
            r.csv == (self.format == ImportFormat::Csv),
            r.xlsx == (self.format == ImportFormat::Xlsx),
            r.sheet_picker == (r.xlsx && self.sheets@.len() >= 2),
    {
        let xlsx: bool = self.format == ImportFormat::Xlsx;
        SourceSettings {
            csv: self.format == ImportFormat::Csv,
            xlsx,
            sheet_picker: xlsx && self.sheets.len() >= 2,
        }
    }

    /// The sheet that is read: the one that was picked, else the first.
    pub open spec fn sheet_read(self) -> Seq<char> {
        match self.sheet {
            Some(s) => s@,
            None => if self.sheets@.len() > 0 {
                self.sheets@[0]@
            } else {
                Seq::empty()
            },
        }
    }

    /// The sheet that is read.
    pub fn current_sheet(&self) -> (r: String)
        ensures
            r@ == self.sheet_read(),
    {
        match &self.sheet {
            Some(s) => s.clone(),
            None => if self.sheets.len() > 0 {
                self.sheets[0].clone()
            } else {
                String::new()
            },
        }
    }

    /// An entry of the menu of sheets: the one that is read is marked.
    pub open spec fn sheet_entry(self, n: int) -> EntryView {
        let name = self.sheets@[n]@;
        let holding = match self.sheet {
            Some(c) => c@ == name,
            None => n == 0,
        };
        if holding {
            EntryView::Marked(Act::Pick(n as usize), name)
        } else {
            EntryView::Item(Act::Pick(n as usize), name)
        }
    }

    /// The menu of sheets.
    pub fn sheet_menu(&self) -> (r: Vec<Entry>)
        ensures
            r@.len() == self.sheets@.len(),
            forall|n: int| 0 <= n < r@.len() ==> (#[trigger] r@[n])@ == self.sheet_entry(n),
    {
        let mut out: Vec<Entry> = Vec::new();
        let mut n: usize = 0;
        while n < self.sheets.len()
            invariant
                n <= self.sheets@.len(),
                out@.len() == n,
                forall|k: int| 0 <= k < n ==> (#[trigger] out@[k])@ == self.sheet_entry(k),
            decreases self.sheets@.len() - n,
        {
            let name: String = self.sheets[n].clone();
            let holding: bool = match &self.sheet {
                Some(c) => *c == name,
                None => n == 0,
            };
            out.push(
                if holding {
                    Entry::Marked(Act::Pick(n), name)
                } else {
                    Entry::Item(Act::Pick(n), name)
                },
            );
            n = n + 1;
        }
        out
    }

    /// What the first step's second button reads, and whether it is live: once the file was read.
    pub fn source_footer(&self) -> (r: (&'static str, bool))
        ensures
            r.0@ == if self.reading {
                "Reading…"@
            } else {
                "Next"@
            },
            r.1 == (self.sample is Some && !self.reading),
    {
        (
            if self.reading {
                "Reading…"
            } else {
                "Next"
            },
            self.sample.is_some() && !self.reading,
        )
    }

    /// Whether the file can be loaded: something is mapped, no load is under way, and the
    /// connection is not read-only.
    pub open spec fn can_import(self, read_only: bool) -> bool {
        &&& self.target matches Some(t) && fills_any(self.mapping@, t.table.columns@.len() as int)
        &&& !self.loading
        &&& !read_only
    }

    /// The second step's buttons: what Import reads, whether it is live, whether Back is, and what is
    /// said of a read-only connection.
    pub fn mapping_footer(&self, read_only: bool) -> (r: MappingFooter)
        ensures
            r.import_label@ == if self.loading {
                "Importing…"@
            } else {
                "Import"@
            },
            r.can_import == self.can_import(read_only),
            r.can_go_back == !self.loading,
            r.note is Some <==> read_only,
            r.note matches Some(s) ==> s@ == "This connection is read-only."@,
    {
        let ready: bool = match &self.target {
            Some(t) => has_insert_columns(&self.mapping, &t.table),
            None => false,
        };
        MappingFooter {
            import_label: if self.loading {
                "Importing…"
            } else {
                "Import"
            },
            can_import: ready && !self.loading && !read_only,
            can_go_back: !self.loading,
            note: if read_only {
                Some("This connection is read-only.")
            } else {
                None
            },
        }
    }

    /// What the last step says.
    pub fn done_text(&self) -> (r: String)
        ensures
            r@ == "Imported "@ + digits(self.imported as nat) + " row"@ + plural_s(
                self.imported as nat,
            ) + " into "@ + (match self.target {
                Some(t) => t.display@,
                None => Seq::empty(),
            }) + "."@,
    {
        let mut out: String = "Imported ".to_owned();
        out.append(decimal(self.imported as u128).as_str());
        out.append(" row");
        out.append(plural(self.imported, "", "s"));
        out.append(" into ");
        let title: String = self.title();
        out.append(title.as_str());
        out.append(".");
        out
    }

    /// What the modal is headed by.
    pub fn heading(&self) -> (r: String)
        ensures
            r@ == "Import into "@ + match self.target {
                Some(t) => t.display@,
                None => Seq::empty(),
            },
    {
        let mut out: String = "Import into ".to_owned();
        out.append(self.title().as_str());
        out
    }

    /// The table's name as the modal shows it.
    pub fn title(&self) -> (r: String)
        ensures
            r@ == match self.target {
                Some(t) => t.display@,
                None => Seq::empty(),
            },
    {
        match &self.target {
            Some(t) => t.display.clone(),
            None => String::new(),
        }
    }
}

/// The second step's buttons.
pub struct MappingFooter {
    pub import_label: &'static str,
    pub can_import: bool,
    pub can_go_back: bool,
    pub note: Option<&'static str>,
}

/// Where Import is live and a file was chosen, a click on it loads the file: nothing that refuses a
/// load holds there.
pub proof fn import_is_offered_where_it_loads(i: ImportState, read_only: bool)
    requires
        i.can_import(read_only),
        i.path is Some,
    ensures
        i.target is Some && i.path is Some && !i.loading && !read_only,
{
}

/// What the second step warns of columns that are not mapped and have to hold a value.
pub fn missing_note(cols: &Vec<String>) -> (r: Option<String>)
    ensures
        r is Some <==> cols@.len() > 0,
        r matches Some(s) ==> s@ == "Not mapped, and can't be empty: "@ + joined(cols@, ", "@)
            + ". The import will fail unless the database fills them in."@,
{
    if cols.len() == 0 {
        return None;
    }
    let mut out: String = "Not mapped, and can't be empty: ".to_owned();
    out.append(join(cols, ", ").as_str());
    out.append(". The import will fail unless the database fills them in.");
    Some(out)
}

/// What the second step warns of a storage engine that cannot take a write back.
pub fn engine_note(engine: &Option<String>, transactional: bool) -> (r: Option<String>)
    ensures
        r is Some <==> engine is Some && !transactional,
        r matches Some(s) ==> s@ == "This table's storage engine ("@ + engine->0@
            + ") is not transactional, so a failed import can't be undone — the rows loaded before the failure will remain."@,
{
    match engine {
        Some(e) => if transactional {
            None
        } else {
            let mut out: String = "This table's storage engine (".to_owned();
            out.append(e.as_str());
            out.append(
                ") is not transactional, so a failed import can't be undone — the rows loaded before the failure will remain.",
            );
            Some(out)
        },
        None => None,
    }
}

/// The first stop of the columns' menus, and how far apart they stand.
pub open spec fn mapping_stop(value_tab: u32, stride: u32, fi: int) -> int {
    value_tab + fi * stride
}

/// The stop of a column's menu: one for each column of the file, in order.
pub fn mapping_tab(value_tab: u32, stride: u32, fi: u32) -> (r: u32)
    requires
        mapping_stop(value_tab, stride, fi as int) <= u32::MAX,
    ensures
        r == mapping_stop(value_tab, stride, fi as int),
{
    assert(0 <= fi * stride <= u32::MAX) by (nonlinear_arith)
        requires
            value_tab + fi * stride <= u32::MAX,
            0 <= value_tab,
            0 <= fi,
            0 <= stride,
    ;
    value_tab + fi * stride
}

/// No two columns of the file share a stop, and they are walked in order.
pub proof fn mapping_stops_are_apart(value_tab: u32, stride: u32, a: int, b: int)
    requires
        stride > 0,
        0 <= a < b,
    ensures
        mapping_stop(value_tab, stride, a) < mapping_stop(value_tab, stride, b),
{
    assert(a * stride < b * stride) by (nonlinear_arith)
        requires
            stride > 0,
            a < b,
    ;
}

/// What stands for no value is not a setting that reads the file again: a change of it leaves it as it
/// was whether the file is read.
pub proof fn nulls_do_not_reread(i: ImportState, empty_is_null: bool, tokens: String)
    ensures
        (ImportState { empty_is_null, null_tokens: tokens, ..i }).reads_again() == i.reads_again(),
{
}

/// What a read writes to the settings does not read the file again: neither the division that it
/// found out, nor the sheet that it let go.
pub proof fn what_a_read_writes_is_not_read_again(
    before: ImportState,
    stamp: Stamp,
    sniff: bool,
    maps: bool,
    result: Result<Probe, String>,
    after: ImportState,
)
    requires
        before.probe_came(stamp, sniff, maps, result, after),
        before.is_settled() || (stamp == before.at() && (sniff || result is Err)),
    ensures
        after.is_settled(),
        !after.reads_again(),
{
}

/// A format that a file's name tells does not read the file a second time.
pub proof fn an_inferred_format_is_not_read_again(
    before: ImportState,
    path: String,
    inferred: Option<ImportFormat>,
)
    requires
        before.is_settled() || inferred is Some,
    ensures
        before.with_file(path, inferred).is_settled(),
        !before.with_file(path, inferred).reads_again(),
{
}

/// A setting that the user changes reads the file again, where there is a file and a table.
pub proof fn a_changed_setting_reads_again(before: ImportState, after: ImportState)
    requires
        before.is_settled(),
        after.seen == before.seen,
        !same_settings(before.own_settings(), after.own_settings()),
        after.target is Some,
        after.path is Some,
    ensures
        after.reads_again(),
{
}

/// The texts that are listed are those that hold anything, in their order; the empty one has its toggle.
pub proof fn the_empty_text_has_its_toggle(v: Seq<String>, s: String)
    ensures
        not_empty(v).contains(s) <==> v.contains(s) && s@.len() > 0,
        has_empty(v) <==> exists|k: int| 0 <= k < v.len() && (#[trigger] v[k])@.len() == 0,
    decreases v.len(),
{
    if v.len() > 0 {
        let front = v.drop_last();
        the_empty_text_has_its_toggle(front, s);
        let before = not_empty(front);
        let now = not_empty(v);
        if before.contains(s) {
            let i = before.index_of(s);
            assert(now[i] == s);
            let k = front.index_of(s);
            assert(v[k] == s);
        }
        if now.contains(s) {
            let i = now.index_of(s);
            if i < before.len() {
                assert(before[i] == s);
            } else {
                assert(v[v.len() - 1] == s);
            }
        }
        if v.contains(s) && s@.len() > 0 {
            let k = v.index_of(s);
            if k < front.len() {
                assert(front[k] == s);
            } else {
                assert(now[now.len() - 1] == s);
            }
        }
    }
}

/// An answer to an earlier read, or of an earlier opening, is dropped whole; one that comes in time ends
/// the wait.
pub proof fn a_late_answer_is_dropped(
    before: ImportState,
    stamp: Stamp,
    sniff: bool,
    maps: bool,
    result: Result<Probe, String>,
    after: ImportState,
)
    requires
        before.probe_came(stamp, sniff, maps, result, after),
    ensures
        stamp.generation != before.generation || stamp.probe_seq != before.probe_seq ==> after == before,
        stamp.generation == before.generation && stamp.probe_seq == before.probe_seq ==> {
            &&& !after.reading
            &&& result is Err ==> after.error == Some(result->Err_0) && after.sample is None
                && after.file_bytes == 0 && after.sheets@.len() == 0 && after.sheet is None
            &&& result is Ok ==> after.error == before.error && after.sample == Some(result->Ok_0.sample)
                && after.file_bytes == result->Ok_0.file_bytes && after.sheets == result->Ok_0.sheets
            &&& result is Ok && maps ==> after.mapping == result->Ok_0.mapping
            &&& result is Ok && !maps ==> after.mapping == before.mapping
            &&& result is Ok && sniff ==> after.has_header == result->Ok_0.cfg.dialect.has_header
            &&& result is Ok && !sniff ==> after.has_header == before.has_header && after.delimiter
                == before.delimiter && after.null_tokens == before.null_tokens && after.sheet
                == before.sheet
        },
        after.target == before.target,
        after.path == before.path,
        after.step == before.step,
{
}

/// A table that the catalogue still lists keeps the modal open, as does any catalogue of another
/// connection and a load that is done.
pub proof fn a_table_that_is_there_keeps_the_modal(
    i: ImportState,
    nodes: Seq<DbNode>,
    active_conn: u64,
    n: int,
    k: int,
)
    requires
        i.target is Some,
        0 <= n < nodes.len() <= usize::MAX,
        nodes[n].database@ == i.target->0.database@,
        forall|m: int| 0 <= m < n ==> (#[trigger] nodes[m]).database@ != i.target->0.database@,
        nodes[n].tables is Some,
        0 <= k < nodes[n].tables->0@.len() <= usize::MAX,
        nodes[n].tables->0@[k].name@ == i.target->0.table.name@,
        text_of(nodes[n].tables->0@[k].schema) == text_of(i.target->0.schema),
    ensures
        !target_gone(i, nodes, active_conn),
{
    let t = i.target->0;
    let tables = nodes[n].tables->0@;
    crate::columns::what_is_looked_up_is_the_first_of_its_name(
        nodes,
        Seq::empty(),
        Seq::empty(),
        None,
        t.database@,
        0,
        n,
    );
    lemma_table_is_found(tables, text_of(t.schema), t.table.name@, 0, k);
}

proof fn lemma_table_is_found(
    tables: Seq<TableInfo>,
    schema: Option<Seq<char>>,
    name: Seq<char>,
    i: int,
    k: int,
)
    requires
        0 <= i <= k < tables.len(),
        tables[k].name@ == name,
        text_of(tables[k].schema) == schema,
    ensures
        crate::columns::table_place(tables, schema, name, i) is Some,
    decreases k - i,
{
    if i < k {
        lemma_table_is_found(tables, schema, name, i + 1, k);
    }
}

/// A table that the catalogue no longer lists, in its own schema, closes the modal, where its database's
/// tables were read over the active connection.
pub proof fn a_table_that_is_gone_closes(
    i: ImportState,
    nodes: Seq<DbNode>,
    active_conn: u64,
    n: int,
)
    requires
        i.step != ImportStep::Done,
        i.target is Some,
        i.target->0.conn_id == active_conn,
        0 <= n < nodes.len() <= usize::MAX,
        nodes[n].database@ == i.target->0.database@,
        forall|m: int| 0 <= m < n ==> (#[trigger] nodes[m]).database@ != i.target->0.database@,
        nodes[n].tables is Some,
        nodes[n].tables->0@.len() <= usize::MAX,
        forall|k: int|
            0 <= k < nodes[n].tables->0@.len() ==> (#[trigger] nodes[n].tables->0@[k]).name@
                != i.target->0.table.name@ || text_of(nodes[n].tables->0@[k].schema) != text_of(
                i.target->0.schema,
            ),
    ensures
        target_gone(i, nodes, active_conn),
{
    let t = i.target->0;
    let tables = nodes[n].tables->0@;
    crate::columns::what_is_looked_up_is_the_first_of_its_name(
        nodes,
        Seq::empty(),
        Seq::empty(),
        None,
        t.database@,
        0,
        n,
    );
    crate::columns::what_is_looked_up_is_the_first_of_its_name(
        Seq::empty(),
        tables,
        Seq::empty(),
        text_of(t.schema),
        t.table.name@,
        0,
        tables.len() as int,
    );
}

/// A load that is done, and a catalogue of another connection, close nothing.
pub proof fn another_connection_closes_nothing(i: ImportState, nodes: Seq<DbNode>, active_conn: u64)
    requires
        i.step == ImportStep::Done || i.target is None || i.target->0.conn_id != active_conn,
    ensures
        !target_gone(i, nodes, active_conn),
{
}

/// The sheet that is read is the one that was picked, else the first, and it is the one that is marked.
pub proof fn the_sheet_that_is_read_is_marked(i: ImportState, n: int)
    requires
        0 <= n < i.sheets@.len(),
    ensures
        i.sheet is Some ==> i.sheet_read() == i.sheet->0@,
        i.sheet is None ==> i.sheet_read() == i.sheets@[0]@,
        i.sheet is Some ==> (i.sheet_entry(n) is Marked <==> i.sheets@[n]@ == i.sheet->0@),
        i.sheet is None ==> (i.sheet_entry(n) is Marked <==> n == 0),
{
}

/// Import is live where a column is mapped into one that the table has, nothing is loading, and the
/// connection can be written to; not where any of these fails.
pub proof fn import_is_live_where_it_can_load(i: ImportState, read_only: bool, k: int, ci: usize)
    ensures
        read_only ==> !i.can_import(read_only),
        i.loading ==> !i.can_import(read_only),
        i.target is None ==> !i.can_import(read_only),
        !read_only && !i.loading && i.target is Some && 0 <= k < i.mapping@.len() && i.mapping@[k]
            == Target::Column(ci) && ci < i.target->0.table.columns@.len() ==> i.can_import(read_only),
{
}

/// The settings that divide a file are told apart by each of them: its delimiter, its header, its
/// trimming, its format and its sheet.
pub proof fn every_setting_counts(a: Settings, b: Settings)
    ensures
        same_settings(a, a),
        a.delimiter@ != b.delimiter@ ==> !same_settings(a, b),
        a.has_header != b.has_header ==> !same_settings(a, b),
        a.trim != b.trim ==> !same_settings(a, b),
        a.format != b.format ==> !same_settings(a, b),
        text_of(a.sheet) != text_of(b.sheet) ==> !same_settings(a, b),
{
}

/// A file is read as the modal says: by its delimiter, its header, its trimming and its sheet, with the
/// texts that stand for no value.
pub proof fn a_file_is_read_as_it_is_set(i: ImportState, cfg: ReadConfig, t: Seq<char>)
    requires
        cfg_matches(i, cfg),
    ensures
        cfg.dialect.has_header == i.has_header,
        cfg.dialect.quote == 34,
        cfg.dialect.delimiter == delimiter_of(i.delimiter@),
        cfg.trim == i.trim,
        cfg.sheet == i.sheet,
        texts(cfg.nulls@).contains(t) <==> null_tokens(i.empty_is_null, i.null_tokens@).contains(t),
{
}

/// A sniffed file sets the form to what was found: its delimiter, its header, whether an empty field
/// stands for no value, and what else does.
pub proof fn a_sniffed_file_sets_the_form(
    before: ImportState,
    stamp: Stamp,
    maps: bool,
    p: Probe,
    after: ImportState,
)
    requires
        before.probe_came(stamp, true, maps, Ok(p), after),
        stamp == before.at(),
    ensures
        after.has_header == p.cfg.dialect.has_header,
        p.cfg.dialect.delimiter < 128 ==> delimiter_of(after.delimiter@) == p.cfg.dialect.delimiter,
        after.empty_is_null <==> exists|k: int|
            0 <= k < p.cfg.nulls@.len() && (#[trigger] p.cfg.nulls@[k])@.len() == 0,
        (forall|k: int| 0 <= k < p.cfg.nulls@.len() ==> (#[trigger] p.cfg.nulls@[k])@.len() > 0)
            ==> after.null_tokens@ == joined(p.cfg.nulls@, ","@),
        after.sheet is None,
        after.trim == before.trim && after.format == before.format,
{
    if p.cfg.dialect.delimiter < 128 {
        crate::import_read::a_shown_delimiter_is_read_back(p.cfg.dialect.delimiter);
    }
    if forall|k: int| 0 <= k < p.cfg.nulls@.len() ==> (#[trigger] p.cfg.nulls@[k])@.len() > 0 {
        texts_with_something_stay(p.cfg.nulls@);
    }
}

/// Texts none of which is empty all stay, in their order.
pub proof fn texts_with_something_stay(v: Seq<String>)
    requires
        forall|k: int| 0 <= k < v.len() ==> (#[trigger] v[k])@.len() > 0,
    ensures
        not_empty(v) == v,
    decreases v.len(),
{
    if v.len() > 0 {
        texts_with_something_stay(v.drop_last());
        assert(v.drop_last().push(v.last()) =~= v);
    }
}

/// A chosen file sets the path, and the format where its name tells it; the rest of the form stays.
pub proof fn a_chosen_file_sets_the_path(i: ImportState, path: String, f: ImportFormat)
    ensures
        i.with_file(path, None).path == Some(path),
        i.with_file(path, None).format == i.format,
        i.with_file(path, Some(f)).path == Some(path),
        i.with_file(path, Some(f)).format == f,
        i.with_file(path, Some(f)).delimiter == i.delimiter,
        i.with_file(path, Some(f)).has_header == i.has_header,
        i.with_file(path, Some(f)).trim == i.trim,
        i.with_file(path, Some(f)).sheet == i.sheet,
        i.with_file(path, Some(f)).mapping == i.mapping,
        i.with_file(path, Some(f)).target == i.target,
        i.with_file(path, None).target == i.target,
{
}

/// The file is read again where a setting differs from the ones it was read with.
pub proof fn a_file_is_read_again_where_a_setting_differs(i: ImportState, seen: Settings)
    requires
        i.seen == Some(seen),
    ensures
        i.reads_again() <==> i.target is Some && i.path is Some && !(seen.delimiter@ == i.delimiter@
            && seen.has_header == i.has_header && seen.trim == i.trim && seen.format == i.format
            && text_of(seen.sheet) == text_of(i.sheet)),
{
}

/// A sheet is listed under its own name and picks itself.
pub proof fn a_sheet_picks_itself(i: ImportState, n: int)
    requires
        0 <= n < i.sheets@.len(),
    ensures
        i.sheet_entry(n) == EntryView::Marked(Act::Pick(n as usize), i.sheets@[n]@) || i.sheet_entry(n)
            == EntryView::Item(Act::Pick(n as usize), i.sheets@[n]@),
{
}

/// The stops of the mapping follow each other by the stride, behind those of the form.
pub proof fn mapping_stops_follow_each_other(value_tab: u32, stride: u32, fi: int)
    ensures
        mapping_stop(value_tab, stride, 0) == value_tab,
        mapping_stop(value_tab, stride, fi + 1) == mapping_stop(value_tab, stride, fi) + stride,
{
    assert((fi + 1) * stride == fi * stride + stride) by (nonlinear_arith);
}

} // verus!
