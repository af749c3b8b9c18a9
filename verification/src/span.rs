//! Spans of bits, and what makes a sequence of spans the layout of a
//! register's fields.

use vstd::prelude::*;
use crate::model::{claimed, fields_valid, FieldDescriptor};

verus! {

/// A run of bits `low..=high` of the word, with the field that owns it.
/// A span without a field is reserved: no field claims any of its bits.
#[derive(Clone, Copy, Debug, PartialEq, Eq)]
pub struct BitSpan<'a> {
    pub high: u32,
    pub low: u32,
    pub label: Option<&'a FieldDescriptor>,
}

impl<'a> BitSpan<'a> {
    /// The span holds at least one bit and lies inside the word.
    pub open spec fn well_formed(&self) -> bool {
        self.low <= self.high <= 31
    }

    /// `bit` is one of the span's bits.
    pub open spec fn contains(&self, bit: int) -> bool {
        self.low <= bit <= self.high
    }

    /// How many bits the span holds.
    pub open spec fn bits(&self) -> int {
        self.high - self.low + 1
    }

    /// How many bits the span holds: the number of columns of its cell.
    pub fn width(&self) -> (w: u32)
        requires
            self.well_formed(),
        ensures
            w == self.bits(),
    {
        self.high - self.low + 1
    }
}

/// The span that shows the field `f`.
pub open spec fn field_span<'a>(f: &'a FieldDescriptor) -> BitSpan<'a> {
    BitSpan { high: f.high() as u32, low: f.low() as u32, label: Some(f) }
}

/// The spans split the bits 31 down to 0 among them: the first starts at
/// bit 31, each next one right below its predecessor, the last ends at bit 0.
pub open spec fn tiles_word(spans: Seq<BitSpan>) -> bool {
    &&& spans.len() > 0
    &&& spans[0].high == 31
    &&& spans[spans.len() - 1].low == 0
    &&& forall|i: int| 0 <= i < spans.len() ==> (#[trigger] spans[i]).low <= spans[i].high
    &&& forall|i: int, j: int|
        #![trigger spans[i], spans[j]]
        0 <= i && j == i + 1 && j < spans.len() ==> spans[i].low == spans[j].high + 1
}

/// No two neighbours are both reserved.
pub open spec fn coalesced(spans: Seq<BitSpan>) -> bool {
    forall|i: int, j: int|
        #![trigger spans[i], spans[j]]
        0 <= i && j == i + 1 && j < spans.len() ==> !(spans[i].label is None && spans[j].label
            is None)
}

/// Every labelled span is one of the fields, with that field's bits.
pub open spec fn labels_are_fields(spans: Seq<BitSpan>, fields: Seq<FieldDescriptor>) -> bool {
    forall|i: int|
        0 <= i < spans.len() && (#[trigger] spans[i]).label is Some ==> exists|j: int|
            #![trigger fields[j]]
            0 <= j < fields.len() && spans[i] == field_span(&fields[j])
}

/// Every field has its span.
pub open spec fn shows_every_field(spans: Seq<BitSpan>, fields: Seq<FieldDescriptor>) -> bool {
    forall|j: int| 0 <= j < fields.len() ==> spans.contains(field_span(&#[trigger] fields[j]))
}

/// The reserved spans hold only bits that no field claims.
pub open spec fn reserved_are_unclaimed(spans: Seq<BitSpan>, fields: Seq<FieldDescriptor>) -> bool {
    forall|i: int, bit: int|
        #![trigger spans[i].contains(bit)]
        0 <= i < spans.len() && spans[i].label is None && spans[i].contains(bit) ==> !claimed(
            fields,
            bit,
        )
}

/// The labelled spans are the fields, each with its own bits, and the
/// reserved spans hold only bits that no field claims.
pub open spec fn shows_fields(spans: Seq<BitSpan>, fields: Seq<FieldDescriptor>) -> bool {
    &&& labels_are_fields(spans, fields)
    &&& shows_every_field(spans, fields)
    &&& reserved_are_unclaimed(spans, fields)
}

/// `spans` is a layout of `fields`: it splits the word, shows the fields
/// and merges every run of unclaimed bits into one reserved span.
pub open spec fn is_layout_of(spans: Seq<BitSpan>, fields: Seq<FieldDescriptor>) -> bool {
    &&& tiles_word(spans)
    &&& coalesced(spans)
    &&& shows_fields(spans, fields)
}

/// The high bits fall strictly from each span to the next.
pub open spec fn strictly_descending(spans: Seq<BitSpan>) -> bool {
    forall|i: int, j: int|
        #![trigger spans[i], spans[j]]
        0 <= i < j < spans.len() ==> spans[i].high > spans[j].high
}

/// The number of bits in all the spans together.
pub open spec fn total_width(spans: Seq<BitSpan>) -> int
    decreases spans.len(),
{
    if spans.len() == 0 {
        0
    } else {
        total_width(spans.drop_last()) + spans.last().bits()
    }
}

/// Some span holds `bit`.
pub open spec fn covered(spans: Seq<BitSpan>, bit: int) -> bool {
    exists|i: int| 0 <= i < spans.len() && (#[trigger] spans[i]).contains(bit)
}

/// Every bit of the word lies in one span and in no other, and the spans
/// hold no other bits.
pub open spec fn each_bit_in_one_span(spans: Seq<BitSpan>) -> bool {
    &&& forall|bit: int| 0 <= bit <= 31 ==> #[trigger] covered(spans, bit)
    &&& forall|i: int, j: int, bit: int|
        #![trigger spans[i].contains(bit), spans[j].contains(bit)]
        0 <= i < spans.len() && 0 <= j < spans.len() && spans[i].contains(bit)
            && spans[j].contains(bit) ==> i == j
    &&& forall|i: int, bit: int|
        #![trigger spans[i].contains(bit)]
        0 <= i < spans.len() && spans[i].contains(bit) ==> 0 <= bit <= 31
}

/// The layout of a valid set of fields: the one sequence of spans that is
/// a layout of them (`lemma_layout_unique`).
pub open spec fn layout_of<'a>(fields: Seq<FieldDescriptor>) -> Seq<BitSpan<'a>> {
    choose|spans: Seq<BitSpan<'a>>| is_layout_of(spans, fields)
}

/// In a tiling, a later span lies wholly below an earlier one.
pub proof fn lemma_tiling_descends(spans: Seq<BitSpan>, i: int, j: int)
    requires
        tiles_word(spans),
        0 <= i < j < spans.len(),
    ensures
        spans[i].low > spans[j].high,
    decreases j - i,
{
    if i + 1 < j {
        lemma_tiling_descends(spans, i + 1, j);
    }
}

/// In a tiling, the first `k` spans hold the bits from 31 down to the low
/// bit of the last of them.
pub proof fn lemma_tiling_prefix_width(spans: Seq<BitSpan>, k: int)
    requires
        tiles_word(spans),
        0 <= k <= spans.len(),
    ensures
        total_width(spans.take(k)) == if k == 0 {
            0
        } else {
            32 - spans[k - 1].low
        },
    decreases k,
{
    if k > 0 {
        lemma_tiling_prefix_width(spans, k - 1);
        assert(spans.take(k).drop_last() == spans.take(k - 1));
    }
}

/// In a tiling, a bit at or below the high bit of span `k` lies in that
/// span or in a later one.
proof fn lemma_tiling_reaches(spans: Seq<BitSpan>, bit: int, k: int)
    requires
        tiles_word(spans),
        0 <= k < spans.len(),
        0 <= bit <= spans[k].high,
    ensures
        covered(spans, bit),
    decreases spans.len() - k,
{
    if bit < spans[k].low {
        lemma_tiling_reaches(spans, bit, k + 1);
    }
}

/// A tiling of the word holds 32 bits in all, each bit in exactly one span,
/// and its spans come in strictly descending order.
pub proof fn lemma_tiling_partitions_word(spans: Seq<BitSpan>)
    requires
        tiles_word(spans),
    ensures
        forall|i: int| 0 <= i < spans.len() ==> (#[trigger] spans[i]).well_formed(),
        total_width(spans) == 32,
        each_bit_in_one_span(spans),
        strictly_descending(spans),
{
    lemma_tiling_prefix_width(spans, spans.len() as int);
    assert(spans.take(spans.len() as int) == spans);
    assert forall|i: int, j: int|
        #![trigger spans[i], spans[j]]
        0 <= i < j < spans.len() implies spans[i].high > spans[j].high && spans[i].low
        > spans[j].high by {
        lemma_tiling_descends(spans, i, j);
    }
    assert forall|bit: int| 0 <= bit <= 31 implies #[trigger] covered(spans, bit) by {
        lemma_tiling_reaches(spans, bit, 0);
    }
}

/// Two fields of a valid set that claim the same bit are one field.
proof fn lemma_one_owner(fields: Seq<FieldDescriptor>, i: int, j: int, bit: int)
    requires
        fields_valid(fields),
        0 <= i < fields.len(),
        0 <= j < fields.len(),
        fields[i].covers(bit),
        fields[j].covers(bit),
    ensures
        i == j,
{
}

/// In two layouts of the same fields, of two reserved spans with the same
/// high bit the first reaches at least as far down as the second.
proof fn lemma_reserved_reaches_down(
    fields: Seq<FieldDescriptor>,
    a: Seq<BitSpan>,
    b: Seq<BitSpan>,
    i: int,
    j: int,
)
    requires
        fields_valid(fields),
        is_layout_of(a, fields),
        is_layout_of(b, fields),
        0 <= i < a.len(),
        0 <= j < b.len(),
        a[i].label is None,
        b[j].label is None,
        a[i].high == b[j].high,
    ensures
        a[i].low <= b[j].low,
{
    if a[i].low > b[j].low {
        // Right below a[i] lies a labelled span, whose top bit b[j] holds too.
        let bit = a[i].low - 1;
        let f = choose|f: int| 0 <= f < fields.len() && a[i + 1] == field_span(&fields[f]);
        assert(b[j].contains(bit));
    }
}

/// In two layouts of the same fields, spans with the same high bit are equal.
proof fn lemma_span_determined(
    fields: Seq<FieldDescriptor>,
    a: Seq<BitSpan>,
    b: Seq<BitSpan>,
    i: int,
    j: int,
)
    requires
        fields_valid(fields),
        is_layout_of(a, fields),
        is_layout_of(b, fields),
        0 <= i < a.len(),
        0 <= j < b.len(),
        a[i].high == b[j].high,
    ensures
        a[i] == b[j],
{
    let top = a[i].high as int;
    assert(a[i].contains(top));
    assert(b[j].contains(top));
    if a[i].label is Some {
        let f = choose|f: int| 0 <= f < fields.len() && a[i] == field_span(&fields[f]);
        let g = choose|g: int| 0 <= g < fields.len() && b[j] == field_span(&fields[g]);
        lemma_one_owner(fields, f, g, top);
    } else if b[j].label is None {
        lemma_reserved_reaches_down(fields, a, b, i, j);
        lemma_reserved_reaches_down(fields, b, a, j, i);
    }
}

/// Two layouts of the same fields agree span by span.
proof fn lemma_layouts_agree(
    fields: Seq<FieldDescriptor>,
    a: Seq<BitSpan>,
    b: Seq<BitSpan>,
    k: int,
)
    requires
        fields_valid(fields),
        is_layout_of(a, fields),
        is_layout_of(b, fields),
        0 <= k < a.len(),
    ensures
        k < b.len(),
        a[k] == b[k],
    decreases k,
{
    if k > 0 {
        lemma_layouts_agree(fields, a, b, k - 1);
        // b[k - 1] is a[k - 1], so not the last span of b: its low bit is not 0.
        assert(a[k - 1].low == a[k].high + 1);
    }
    lemma_span_determined(fields, a, b, k, k);
}

/// A valid set of fields has one layout and no other.
pub proof fn lemma_layout_unique(fields: Seq<FieldDescriptor>, a: Seq<BitSpan>, b: Seq<BitSpan>)
    requires
        fields_valid(fields),
        is_layout_of(a, fields),
        is_layout_of(b, fields),
    ensures
        a == b,
{
    lemma_layouts_agree(fields, a, b, a.len() - 1);
    lemma_layouts_agree(fields, b, a, b.len() - 1);
    assert forall|k: int| 0 <= k < a.len() implies a[k] == b[k] by {
        lemma_layouts_agree(fields, a, b, k);
    }
}

} // verus!
