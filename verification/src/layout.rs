//! The bit-span layout engine: from the fields of a register to the spans
//! that split its 32-bit word, reserved runs included.

use vstd::prelude::*;
use crate::model::{claimed, fields_valid, FieldDescriptor};
use crate::span::{
    coalesced, each_bit_in_one_span, field_span, is_layout_of, labels_are_fields, layout_of,
    lemma_layout_unique, lemma_tiling_partitions_word, reserved_are_unclaimed, shows_every_field,
    shows_fields, strictly_descending, tiles_word, total_width, BitSpan,
};

verus! {

/// `order` lists each index below `n` once.
pub open spec fn lists_each_index_once(order: Seq<usize>, n: int) -> bool {
    &&& order.len() == n
    &&& forall|k: int| 0 <= k < order.len() ==> (#[trigger] order[k]) < n
    &&& forall|k: int, m: int|
        #![trigger order[k], order[m]]
        0 <= k < m < order.len() ==> order[k] != order[m]
    &&& forall|j: int| 0 <= j < n ==> #[trigger] lists_index(order, j)
}

/// `order` holds the index `j`.
pub open spec fn lists_index(order: Seq<usize>, j: int) -> bool {
    exists|k: int| 0 <= k < order.len() && #[trigger] order[k] == j
}

/// Along `order` the high bits of the fields never rise.
pub open spec fn descends_by_high_bit(order: Seq<usize>, fields: Seq<FieldDescriptor>) -> bool {
    forall|k: int, m: int|
        #![trigger order[k], order[m]]
        0 <= k < m < order.len() ==> fields[order[k] as int].high() >= fields[order[m] as int]
            .high()
}

/// Fields with the same high bit stand in `order` as they stand in `fields`.
pub open spec fn keeps_ties_in_order(order: Seq<usize>, fields: Seq<FieldDescriptor>) -> bool {
    forall|k: int, m: int|
        #![trigger order[k], order[m]]
        0 <= k < m < order.len() && fields[order[k] as int].high() == fields[order[m] as int].high()
            ==> order[k] < order[m]
}

/// Sorts the fields by their high bit, highest first, and returns their
/// indices in that order. Fields with the same high bit keep their order.
pub fn order_by_high_bit(fields: &[FieldDescriptor]) -> (order: Vec<usize>)
    requires
        forall|i: int| 0 <= i < fields@.len() ==> (#[trigger] fields@[i]).in_word(),
    ensures
        lists_each_index_once(order@, fields@.len() as int),
        descends_by_high_bit(order@, fields@),
        keeps_ties_in_order(order@, fields@),
{
    let n = fields.len();
    let mut order: Vec<usize> = Vec::new();
    let mut i: usize = 0;
    while i < n
        invariant
            n == fields@.len(),
            i <= n,
            forall|j: int| 0 <= j < fields@.len() ==> (#[trigger] fields@[j]).in_word(),
            lists_each_index_once(order@, i as int),
            descends_by_high_bit(order@, fields@),
            keeps_ties_in_order(order@, fields@),
        decreases n - i,
    {
        let key = fields[i].high_bit();
        let mut p: usize = 0;
        while p < order.len() && fields[order[p]].high_bit() >= key
            invariant
                n == fields@.len(),
                i < n,
                p <= order@.len(),
                key == fields@[i as int].high(),
                forall|j: int| 0 <= j < fields@.len() ==> (#[trigger] fields@[j]).in_word(),
                lists_each_index_once(order@, i as int),
                forall|k: int| 0 <= k < p ==> fields@[(#[trigger] order@[k]) as int].high() >= key,
            decreases order@.len() - p,
        {
            p += 1;
        }
        let ghost before = order@;
        order.insert(p, i);
        proof {
            let after = order@;
            assert forall|j: int| 0 <= j < i + 1 implies #[trigger] lists_index(after, j) by {
                if j < i {
                    assert(lists_index(before, j));
                    let k = choose|k: int| 0 <= k < before.len() && before[k] == j;
                    let k2 = if k < p { k } else { k + 1 };
                    assert(after[k2] == j);
                } else {
                    assert(after[p as int] == j);
                }
            }
        }
        i += 1;
    }
    order
}

/// In a sorted valid set, a field that comes earlier lies wholly above one
/// that comes later.
proof fn lemma_earlier_lies_above(
    fields: Seq<FieldDescriptor>,
    order: Seq<usize>,
    m: int,
    k: int,
)
    requires
        fields_valid(fields),
        lists_each_index_once(order, fields.len() as int),
        descends_by_high_bit(order, fields),
        0 <= m < k < order.len(),
    ensures
        fields[order[m] as int].low() > fields[order[k] as int].high(),
{
}

/// The spans climb from bit 0 to right below `cursor` without gap or
/// overlap, and no two neighbours are both reserved.
spec fn climbs_to(asc: Seq<BitSpan>, cursor: int) -> bool {
    &&& asc.len() == 0 ==> cursor == 0
    &&& asc.len() > 0 ==> asc[0].low == 0 && asc.last().high + 1 == cursor
    &&& forall|t: int| 0 <= t < asc.len() ==> (#[trigger] asc[t]).low <= asc[t].high
    &&& forall|t: int, u: int|
        #![trigger asc[t], asc[u]]
        0 <= t && u == t + 1 && u < asc.len() ==> asc[t].high + 1 == asc[u].low && !(asc[t].label
            is None && asc[u].label is None)
}

/// The fields `order[k..]` have their spans.
spec fn shows_from(
    asc: Seq<BitSpan>,
    fields: Seq<FieldDescriptor>,
    order: Seq<usize>,
    k: int,
) -> bool {
    forall|m: int|
        k <= m < order.len() ==> asc.contains(field_span(&fields[(#[trigger] order[m]) as int]))
}

/// The fields `order[..k]` lie at or above `cursor`, the others below it.
spec fn parts_at(fields: Seq<FieldDescriptor>, order: Seq<usize>, k: int, cursor: int) -> bool {
    &&& forall|m: int| 0 <= m < k ==> fields[(#[trigger] order[m]) as int].low() >= cursor
    &&& forall|m: int| k <= m < order.len() ==> fields[(#[trigger] order[m]) as int].high() < cursor
}

/// Where the sorted fields part at `cursor`, no field claims a bit from
/// `cursor` to right below the lowest field above it.
proof fn lemma_gap_is_unclaimed(
    fields: Seq<FieldDescriptor>,
    order: Seq<usize>,
    k: int,
    cursor: int,
    top: int,
    bit: int,
)
    requires
        lists_each_index_once(order, fields.len() as int),
        parts_at(fields, order, k, cursor),
        0 <= k <= order.len(),
        forall|m: int| 0 <= m < k ==> fields[(#[trigger] order[m]) as int].low() > top,
        cursor <= bit <= top,
    ensures
        !claimed(fields, bit),
{
    if claimed(fields, bit) {
        let j = choose|j: int| 0 <= j < fields.len() && fields[j].covers(bit);
        assert(lists_index(order, j));
    }
}

/// A reserved span of unclaimed bits may follow a labelled one.
proof fn lemma_push_reserved(
    asc: Seq<BitSpan>,
    fields: Seq<FieldDescriptor>,
    order: Seq<usize>,
    k: int,
    cursor: int,
    span: BitSpan,
)
    requires
        climbs_to(asc, cursor),
        asc.len() > 0 ==> asc.last().label is Some,
        labels_are_fields(asc, fields),
        reserved_are_unclaimed(asc, fields),
        shows_from(asc, fields, order, k),
        span.label is None,
        span.low == cursor,
        span.low <= span.high,
        forall|bit: int| span.low <= bit <= span.high ==> !claimed(fields, bit),
    ensures
        climbs_to(asc.push(span), span.high + 1),
        labels_are_fields(asc.push(span), fields),
        reserved_are_unclaimed(asc.push(span), fields),
        shows_from(asc.push(span), fields, order, k),
{
    let after = asc.push(span);
    assert forall|m: int| k <= m < order.len() implies after.contains(
        field_span(&fields[(#[trigger] order[m]) as int]),
    ) by {
        let want = field_span(&fields[order[m] as int]);
        let t = choose|t: int| 0 <= t < asc.len() && asc[t] == want;
        assert(after[t] == want);
    }
}

/// The span of a field that starts at `cursor` may follow.
proof fn lemma_push_field(
    asc: Seq<BitSpan>,
    fields: Seq<FieldDescriptor>,
    order: Seq<usize>,
    k: int,
    cursor: int,
)
    requires
        climbs_to(asc, cursor),
        labels_are_fields(asc, fields),
        reserved_are_unclaimed(asc, fields),
        shows_from(asc, fields, order, k + 1),
        0 <= k < order.len(),
        0 <= order[k] < fields.len(),
        fields[order[k] as int].in_word(),
        fields[order[k] as int].low() == cursor,
    ensures
        ({
            let span = field_span(&fields[order[k] as int]);
            &&& climbs_to(asc.push(span), span.high + 1)
            &&& labels_are_fields(asc.push(span), fields)
            &&& reserved_are_unclaimed(asc.push(span), fields)
            &&& shows_from(asc.push(span), fields, order, k)
        }),
{
    let span = field_span(&fields[order[k] as int]);
    let after = asc.push(span);
    assert forall|m: int| k <= m < order.len() implies after.contains(
        field_span(&fields[(#[trigger] order[m]) as int]),
    ) by {
        let want = field_span(&fields[order[m] as int]);
        if m == k {
            assert(after[asc.len() as int] == want);
        } else {
            let t = choose|t: int| 0 <= t < asc.len() && asc[t] == want;
            assert(after[t] == want);
        }
    }
}

/// Spans that climb through the whole word and show the fields are, read
/// from the top down, a layout of the fields.
proof fn lemma_reverse_is_layout(
    asc: Seq<BitSpan>,
    fields: Seq<FieldDescriptor>,
    order: Seq<usize>,
)
    requires
        climbs_to(asc, 32),
        labels_are_fields(asc, fields),
        reserved_are_unclaimed(asc, fields),
        shows_from(asc, fields, order, 0),
        lists_each_index_once(order, fields.len() as int),
    ensures
        is_layout_of(asc.reverse(), fields),
{
    let spans = asc.reverse();
    let len = asc.len() as int;
    assert(shows_every_field(spans, fields)) by {
        assert forall|j: int| 0 <= j < fields.len() implies spans.contains(
            field_span(&#[trigger] fields[j]),
        ) by {
            let want = field_span(&fields[j]);
            assert(lists_index(order, j));
            let t = choose|t: int| 0 <= t < asc.len() && asc[t] == want;
            assert(spans[len - 1 - t] == want);
        }
    }
}

/// Returns the spans of `v` in the opposite order.
fn reversed<'a>(v: Vec<BitSpan<'a>>) -> (r: Vec<BitSpan<'a>>)
    ensures
        r@ == v@.reverse(),
{
    let mut r: Vec<BitSpan<'a>> = Vec::new();
    let mut k: usize = v.len();
    while k > 0
        invariant
            k <= v@.len(),
            r@.len() == v@.len() - k,
            forall|i: int| 0 <= i < r@.len() ==> r@[i] == v@[v@.len() - 1 - i],
        decreases k,
    {
        k -= 1;
        r.push(v[k]);
    }
    r
}

/// Lays out the fields of a register: splits the 32-bit word into spans,
/// from bit 31 down to bit 0, one span for each field and one reserved
/// span for each run of bits between, above or below the fields.
///
/// The fields may come in any order.
pub fn layout<'a>(fields: &'a [FieldDescriptor]) -> (spans: Vec<BitSpan<'a>>)
    requires
        fields_valid(fields@),
    ensures
        forall|i: int| 0 <= i < spans@.len() ==> (#[trigger] spans@[i]).well_formed(),
        tiles_word(spans@),
        coalesced(spans@),
        shows_fields(spans@, fields@),
        total_width(spans@) == 32,
        each_bit_in_one_span(spans@),
        strictly_descending(spans@),
        spans@ == layout_of(fields@),
{
    let n = fields.len();
    let order = order_by_high_bit(fields);
    // The spans from bit 0 upwards; `cursor` is the lowest bit not yet placed.
    let mut ascending: Vec<BitSpan<'a>> = Vec::new();
    let mut cursor: u32 = 0;
    let mut k: usize = n;
    while k > 0
        invariant
            k <= n == fields@.len(),
            fields_valid(fields@),
            lists_each_index_once(order@, n as int),
            descends_by_high_bit(order@, fields@),
            cursor <= 32,
            climbs_to(ascending@, cursor as int),
            ascending@.len() > 0 ==> ascending@.last().label is Some,
            labels_are_fields(ascending@, fields@),
            reserved_are_unclaimed(ascending@, fields@),
            shows_from(ascending@, fields@, order@, k as int),
            parts_at(fields@, order@, k as int, cursor as int),
        decreases k,
    {
        k -= 1;
        let f = &fields[order[k]];
        let low = f.bit_offset;
        let high = f.high_bit();
        proof {
            assert forall|m: int| 0 <= m < k implies fields@[(#[trigger] order@[m]) as int].low()
                > high by {
                lemma_earlier_lies_above(fields@, order@, m, k as int);
            }
        }
        if low > cursor {
            let gap = BitSpan { high: low - 1, low: cursor, label: None };
            proof {
                assert forall|bit: int| gap.low <= bit <= gap.high implies !claimed(
                    fields@,
                    bit,
                ) by {
                    lemma_gap_is_unclaimed(
                        fields@,
                        order@,
                        k + 1,
                        cursor as int,
                        low - 1,
                        bit,
                    );
                }
                lemma_push_reserved(ascending@, fields@, order@, k + 1, cursor as int, gap);
            }
            ascending.push(gap);
        }
        proof {
            lemma_push_field(ascending@, fields@, order@, k as int, low as int);
        }
        ascending.push(BitSpan { high, low, label: Some(f) });
        cursor = high + 1;
    }
    if cursor <= 31 {
        let gap = BitSpan { high: 31, low: cursor, label: None };
        proof {
            assert forall|bit: int| gap.low <= bit <= gap.high implies !claimed(fields@, bit) by {
                lemma_gap_is_unclaimed(fields@, order@, 0, cursor as int, 31, bit);
            }
            lemma_push_reserved(ascending@, fields@, order@, 0, cursor as int, gap);
        }
        ascending.push(gap);
    }
    let spans = reversed(ascending);
    proof {
        lemma_reverse_is_layout(ascending@, fields@, order@);
        lemma_tiling_partitions_word(spans@);
        lemma_layout_unique(fields@, spans@, layout_of(fields@));
    }
    spans
}

} // verus!
