//! The presentation formatter: from a span to the texts of its cell.

use vstd::prelude::*;
use vstd::string::StringExecFns;
use crate::layout::layout;
use crate::span::{layout_of, BitSpan};
use crate::model::{AccessMode, FieldDescriptor, RegisterDescriptor};
use crate::text::{decimal_digits, decimal_text};

verus! {

/// What a cell of a register's diagram shows.
#[derive(Clone, Debug, PartialEq, Eq)]
pub struct RenderRecord {
    /// The field's name; empty in a reserved cell.
    pub label: String,
    /// The bits of the cell: `7` or `7 - 4`.
    pub range_text: String,
    /// How many columns the cell spans: one for each bit.
    pub width: u32,
    /// The field's description; empty where there is none.
    pub description: String,
    /// The abbreviation of the field's access mode.
    pub access_text: String,
}

/// A `RenderRecord` as plain values.
#[verifier::ext_equal]
pub struct RenderRecordView {
    pub label: Seq<char>,
    pub range_text: Seq<char>,
    pub width: int,
    pub description: Seq<char>,
    pub access_text: Seq<char>,
}

impl View for RenderRecord {
    type V = RenderRecordView;

    open spec fn view(&self) -> RenderRecordView {
        RenderRecordView {
            label: self.label@,
            range_text: self.range_text@,
            width: self.width as int,
            description: self.description@,
            access_text: self.access_text@,
        }
    }
}

/// The abbreviation of an access mode.
pub open spec fn access_abbreviation(mode: AccessMode) -> Seq<char> {
    match mode {
        AccessMode::ReadOnly => seq!['R'],
        AccessMode::ReadWrite => seq!['R', 'W'],
        AccessMode::ReadWriteOnce => seq!['R', 'W', 'O'],
        AccessMode::WriteOnce => seq!['W', 'O'],
        AccessMode::WriteOnly => seq!['W'],
        AccessMode::Unspecified => seq!['-'],
    }
}

/// The bits `low..=high` as text: one number for a single bit, else the
/// high bit, ` - ` and the low bit.
pub open spec fn bit_range(high: nat, low: nat) -> Seq<char> {
    if high == low {
        decimal_digits(high)
    } else {
        decimal_digits(high) + seq![' ', '-', ' '] + decimal_digits(low)
    }
}

/// The text of an optional string: empty where there is none.
pub open spec fn text_of(text: Option<String>) -> Seq<char> {
    match text {
        Some(t) => t@,
        None => Seq::empty(),
    }
}

/// The name that a cell shows.
pub open spec fn label_name(label: Option<&FieldDescriptor>) -> Seq<char> {
    match label {
        Some(f) => f.name@,
        None => Seq::empty(),
    }
}

/// The description that a cell shows.
pub open spec fn label_description(label: Option<&FieldDescriptor>) -> Seq<char> {
    match label {
        Some(f) => text_of(f.description),
        None => Seq::empty(),
    }
}

/// The access abbreviation that a cell shows: that of its field, `-` in a
/// reserved cell.
pub open spec fn label_access(label: Option<&FieldDescriptor>) -> Seq<char> {
    match label {
        Some(f) => access_abbreviation(f.access),
        None => seq!['-'],
    }
}

/// What the cell of `span` shows.
pub open spec fn record_of(span: BitSpan) -> RenderRecordView {
    RenderRecordView {
        label: label_name(span.label),
        range_text: bit_range(span.high as nat, span.low as nat),
        width: span.bits(),
        description: label_description(span.label),
        access_text: label_access(span.label),
    }
}

/// The cells of the diagram of a register with these fields, from bit 31
/// down to bit 0.
pub open spec fn cells_of(fields: Seq<FieldDescriptor>) -> Seq<RenderRecordView> {
    layout_of(fields).map_values(|span| record_of(span))
}

/// Writes the abbreviation of an access mode.
pub fn access_text(mode: AccessMode) -> (s: &'static str)
    ensures
        s@ == access_abbreviation(mode),
{
    proof {
        reveal_strlit("R");
        reveal_strlit("RW");
        reveal_strlit("RWO");
        reveal_strlit("WO");
        reveal_strlit("W");
        reveal_strlit("-");
    }
    match mode {
        AccessMode::ReadOnly => "R",
        AccessMode::ReadWrite => "RW",
        AccessMode::ReadWriteOnce => "RWO",
        AccessMode::WriteOnce => "WO",
        AccessMode::WriteOnly => "W",
        AccessMode::Unspecified => "-",
    }
}

/// Writes the bits `low..=high`.
pub fn range_text(high: u32, low: u32) -> (s: String)
    ensures
        s@ == bit_range(high as nat, low as nat),
{
    let mut s = decimal_text(high as u64);
    if high != low {
        s.push(' ');
        s.push('-');
        s.push(' ');
        let low_text = decimal_text(low as u64);
        s.append(low_text.as_str());
    }
    s
}

/// Copies an optional text, or gives the empty text where there is none.
pub fn text_or_empty(text: &Option<String>) -> (s: String)
    ensures
        s@ == text_of(*text),
{
    match text {
        Some(t) => t.clone(),
        None => String::new(),
    }
}

/// The name, the description and the access abbreviation that the cell of
/// a span with this label shows.
pub fn field_info(label: Option<&FieldDescriptor>) -> (info: (String, String, String))
    ensures
        info.0@ == label_name(label),
        info.1@ == label_description(label),
        info.2@ == label_access(label),
{
    match label {
        Some(f) => (
            f.name.clone(),
            text_or_empty(&f.description),
            String::from_str(access_text(f.access)),
        ),
        None => (
            String::new(),
            String::new(),
            String::from_str(access_text(AccessMode::Unspecified)),
        ),
    }
}

/// Formats a span: what its cell shows.
pub fn format_span(span: &BitSpan) -> (record: RenderRecord)
    requires
        span.well_formed(),
    ensures
        record@ == record_of(*span),
{
    let (label, description, access_text) = field_info(span.label);
    RenderRecord {
        label,
        range_text: range_text(span.high, span.low),
        width: span.width(),
        description,
        access_text,
    }
}

/// The cells of a register's diagram, from bit 31 down to bit 0.
pub fn fields(register: &RegisterDescriptor) -> (records: Vec<RenderRecord>)
    requires
        register.well_formed(),
    ensures
        records@.map_values(|r: RenderRecord| r@) == cells_of(register.fields@),
{
    let spans = layout(register.fields.as_slice());
    let mut records: Vec<RenderRecord> = Vec::new();
    let mut i: usize = 0;
    while i < spans.len()
        invariant
            i <= spans@.len(),
            forall|k: int| 0 <= k < spans@.len() ==> (#[trigger] spans@[k]).well_formed(),
            records@.len() == i,
            forall|k: int| 0 <= k < i ==> (#[trigger] records@[k])@ == record_of(spans@[k]),
        decreases spans@.len() - i,
    {
        records.push(format_span(&spans[i]));
        i += 1;
    }
    records
}

} // verus!
