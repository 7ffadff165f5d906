//! Export of the ledger as an Avro object container file.

use vstd::prelude::*;
use vstd::string::*;
use crate::error::RalphError;
use crate::ledger::{
    opt_text, rfc3339_time, EventStatus, Ledger, LedgerEvent, LedgerEventView,
};
use crate::text::{push_str, string_of};

verus! {

/// Trusted: declares apache_avro's `Schema`, a parsed Avro schema. Its
/// values are carried through and never looked into.
#[verifier::external_type_specification]
#[verifier::external_body]
pub struct ExSchema(apache_avro::Schema);

/// Trusted: declares apache_avro's `Error`. Its values are only turned into
/// text.
#[verifier::external_type_specification]
#[verifier::external_body]
pub struct ExAvroError(apache_avro::Error);

/// Trusted: declares apache_avro's `Writer`, which collects records into a
/// container file. Its values are carried through and never looked into.
#[verifier::external_type_specification]
#[verifier::external_body]
#[verifier::reject_recursive_types(W)]
pub struct ExWriter<'a, W>(apache_avro::Writer<'a, W>);

/// The value of one field of a record.
#[derive(Debug, Clone, PartialEq, Eq)]
pub enum AvroField {
    /// A string.
    Text(String),
    /// A long.
    Long(i64),
    /// A boolean, or null.
    OptionalBool(Option<bool>),
    /// A string, or null.
    OptionalText(Option<String>),
}

/// The mathematical value of an [`AvroField`].
pub enum AvroFieldView {
    Text(Seq<char>),
    Long(i64),
    OptionalBool(Option<bool>),
    OptionalText(Option<Seq<char>>),
}

impl View for AvroField {
    type V = AvroFieldView;

    open spec fn view(&self) -> AvroFieldView {
        match self {
            AvroField::Text(t) => AvroFieldView::Text(t@),
            AvroField::Long(n) => AvroFieldView::Long(*n),
            AvroField::OptionalBool(b) => AvroFieldView::OptionalBool(*b),
            AvroField::OptionalText(t) => AvroFieldView::OptionalText(opt_text(*t)),
        }
    }
}

/// The mathematical value of a row: the names and values of its fields.
pub open spec fn row_view(row: Seq<(String, AvroField)>) -> Seq<(Seq<char>, AvroFieldView)> {
    Seq::new(row.len(), |i: int| (row[i].0@, row[i].1@))
}

/// Reads the Avro schema of a ledger event.
///
/// Trusted: wraps apache_avro's `Schema::parse_str`. The only text that it
/// takes is the schema of a ledger event, whose names are ones that
/// apache_avro accepts: on other texts `parse_str` may not return. Nothing
/// is claimed of the result.
#[verifier::external_body]
fn parse_schema(text: &str) -> Result<apache_avro::Schema, apache_avro::Error>
    requires
        text@ == LEDGER_AVRO_SCHEMA@,
{
    apache_avro::Schema::parse_str(text)
}

/// Starts a container file in memory.
///
/// Trusted: wraps apache_avro's `Writer::new` on an empty `Vec<u8>`. Nothing
/// is claimed of the result.
#[verifier::external_body]
fn new_writer<'a>(schema: &'a apache_avro::Schema) -> apache_avro::Writer<'a, Vec<u8>> {
    apache_avro::Writer::new(schema, Vec::new())
}

/// Ends a container file and gives its bytes.
///
/// Trusted: wraps apache_avro's `Writer::into_inner`. Nothing is claimed of
/// the result: the file holds a marker that is drawn at random.
#[verifier::external_body]
fn finish<'a>(writer: apache_avro::Writer<'a, Vec<u8>>) -> Result<Vec<u8>, apache_avro::Error> {
    writer.into_inner()
}

/// Adds one record to a container file.
///
/// Trusted: wraps apache_avro's `Record::new`, `Record::put` for each field
/// of the row, and `Writer::append`. `None` means that `Record::new` gave no
/// record for the schema. Nothing is claimed of the result.
#[verifier::external_body]
fn append_row<'a>(
    writer: &mut apache_avro::Writer<'a, Vec<u8>>,
    schema: &'a apache_avro::Schema,
    row: &Vec<(String, AvroField)>,
) -> Option<Result<usize, apache_avro::Error>> {
    let mut record = apache_avro::types::Record::new(schema)?;
    for (name, field) in row {
        match field {
            AvroField::Text(v) => record.put(name, v.clone()),
            AvroField::Long(v) => record.put(name, *v),
            AvroField::OptionalBool(v) => record.put(name, *v),
            AvroField::OptionalText(v) => record.put(name, v.clone()),
        }
    }
    Some(writer.append(record))
}

/// The text of an Avro error.
///
/// Trusted: wraps the `Display` of `apache_avro::Error`. Nothing is claimed
/// of the result.
#[verifier::external_body]
fn describe(error: &apache_avro::Error) -> String {
    format!("{error}")
}

/// The Avro schema of a ledger event.
pub const LEDGER_AVRO_SCHEMA: &'static str =
    "{\n    \"type\": \"record\",\n    \"name\": \"LedgerEvent\",\n    \"namespace\": \"com.ralph\",\n    \"fields\": [\n        {\"name\": \"timestamp\", \"type\": \"string\"},\n        {\"name\": \"iteration\", \"type\": \"long\"},\n        {\"name\": \"requirement\", \"type\": \"string\"},\n        {\"name\": \"status\", \"type\": {\"type\": \"enum\", \"name\": \"EventStatus\", \"symbols\": [\"started\", \"in_progress\", \"done\", \"failed\"]}},\n        {\"name\": \"validationPassed\", \"type\": [\"null\", \"boolean\"], \"default\": null},\n        {\"name\": \"message\", \"type\": [\"null\", \"string\"], \"default\": null}\n    ]\n}";

/// The name of an event status in stored files.
pub open spec fn status_text(status: EventStatus) -> Seq<char> {
    match status {
        EventStatus::Started => "started"@,
        EventStatus::InProgress => "in_progress"@,
        EventStatus::Done => "done"@,
        EventStatus::Failed => "failed"@,
    }
}

/// The name of an event status in stored files.
pub fn status_name(status: EventStatus) -> (s: &'static str)
    ensures
        s@ == status_text(status),
{
    match status {
        EventStatus::Started => "started",
        EventStatus::InProgress => "in_progress",
        EventStatus::Done => "done",
        EventStatus::Failed => "failed",
    }
}

/// The row of an event: its six fields by name, the time stamp as the text
/// `timestamp`, and the optional fields null where the event has none.
pub open spec fn event_row_view(e: LedgerEventView, timestamp: Seq<char>) -> Seq<
    (Seq<char>, AvroFieldView),
> {
    seq![
        ("timestamp"@, AvroFieldView::Text(timestamp)),
        ("iteration"@, AvroFieldView::Long(e.iteration as i64)),
        ("requirement"@, AvroFieldView::Text(e.requirement)),
        ("status"@, AvroFieldView::Text(status_text(e.status))),
        ("validationPassed"@, AvroFieldView::OptionalBool(e.validation_passed)),
        ("message"@, AvroFieldView::OptionalText(e.message)),
    ]
}

/// The row of an event, with the time stamp written as `timestamp`.
pub fn event_row(event: &LedgerEvent, timestamp: String) -> (row: Vec<(String, AvroField)>)
    ensures
        row_view(row@) == event_row_view(event@, timestamp@),
{
    let message = match &event.message {
        Some(m) => Some(m.clone()),
        None => None,
    };
    let mut row: Vec<(String, AvroField)> = Vec::new();
    row.push(("timestamp".to_owned(), AvroField::Text(timestamp)));
    row.push(("iteration".to_owned(), AvroField::Long(event.iteration as i64)));
    row.push(("requirement".to_owned(), AvroField::Text(event.requirement.clone())));
    row.push(("status".to_owned(), AvroField::Text(status_name(event.status).to_owned())));
    row.push(("validationPassed".to_owned(), AvroField::OptionalBool(event.validation_passed)));
    row.push(("message".to_owned(), AvroField::OptionalText(message)));
    assert(row_view(row@) =~= event_row_view(event@, timestamp@));
    row
}

/// The error for a failed export: a ledger error whose text is `prefix`
/// followed by some detail.
pub open spec fn is_export_error(e: RalphError, prefix: Seq<char>) -> bool {
    e matches RalphError::Ledger(text) && exists|detail: Seq<char>| text@ == prefix + detail
}

fn export_error(prefix: &str, detail: &str) -> (e: RalphError)
    ensures
        e matches RalphError::Ledger(text) && text@ == prefix@ + detail@,
        is_export_error(e, prefix@),
{
    let mut out: Vec<char> = Vec::new();
    push_str(&mut out, prefix);
    push_str(&mut out, detail);
    assert(out@ =~= prefix@ + detail@);
    RalphError::Ledger(string_of(&out))
}

/// Every event of the sequence has a time that can be written as RFC 3339
/// text.
pub open spec fn all_times_written(events: Seq<LedgerEventView>) -> bool {
    forall|i: int|
        0 <= i < events.len() ==> rfc3339_time(
            (#[trigger] events[i]).timestamp.secs,
            events[i].timestamp.nanos,
        ) is Some
}

impl Ledger {
    /// Exports the ledger as an Avro object container file, one record per
    /// event, oldest first. The bytes are not described: the file holds a
    /// marker that is drawn at random. An export cannot succeed if the time of
    /// an event cannot be written as text; every failure is a ledger error
    /// that says which step failed.
    pub fn to_avro(&self) -> (r: Result<Vec<u8>, RalphError>)
        ensures
            r is Ok ==> all_times_written(self@),
            r matches Err(e) ==> {
                ||| is_export_error(e, "Invalid AVRO schema: "@)
                ||| is_export_error(e, "Failed to create AVRO record"@)
                ||| is_export_error(e, "Failed to write AVRO record: "@)
                ||| is_export_error(e, "Failed to finalize AVRO: "@)
            },
    {
        let schema = match parse_schema(LEDGER_AVRO_SCHEMA) {
            Ok(schema) => schema,
            Err(e) => {
                let detail = describe(&e);
                return Err(export_error("Invalid AVRO schema: ", detail.as_str()));
            },
        };
        let mut writer = new_writer(&schema);
        let events = self.events();
        let mut i: usize = 0;
        while i < events.len()
            invariant
                i <= events.len(),
                crate::ledger::event_views(events@) == self@,
                all_times_written(self@.take(i as int)),
            decreases events.len() - i,
        {
            let timestamp = match events[i].timestamp.to_rfc3339() {
                Some(text) => text,
                None => {
                    return Err(
                        export_error("Failed to write AVRO record: ", "time stamp out of range"),
                    );
                },
            };
            let row = event_row(&events[i], timestamp);
            match append_row(&mut writer, &schema, &row) {
                Some(Ok(_)) => {},
                Some(Err(e)) => {
                    let detail = describe(&e);
                    return Err(export_error("Failed to write AVRO record: ", detail.as_str()));
                },
                None => {
                    return Err(export_error("Failed to create AVRO record", ""));
                },
            }
            assert(self@.take(i + 1)[i as int] == self@[i as int]);
            assert forall|k: int| 0 <= k < i + 1 implies rfc3339_time(
                (#[trigger] self@.take(i + 1)[k]).timestamp.secs,
                self@.take(i + 1)[k].timestamp.nanos,
            ) is Some by {
                if k < i {
                    assert(self@.take(i + 1)[k] == self@.take(i as int)[k]);
                }
            }
            i += 1;
        }
        assert(self@.take(i as int) =~= self@);
        match finish(writer) {
            Ok(bytes) => Ok(bytes),
            Err(e) => {
                let detail = describe(&e);
                Err(export_error("Failed to finalize AVRO: ", detail.as_str()))
            },
        }
    }
}

} // verus!
