use svd2html::layout::{layout, order_by_high_bit};
use svd2html::span::BitSpan;
use svd2html::model::{fields_are_valid, AccessMode, FieldDescriptor};

fn field(name: &str, bit_offset: u32, bit_width: u32) -> FieldDescriptor {
    FieldDescriptor {
        name: name.to_string(),
        bit_offset,
        bit_width,
        description: None,
        access: AccessMode::Unspecified,
    }
}

/// The spans as (high, low, name of the field).
fn shape(spans: &[BitSpan]) -> Vec<(u32, u32, Option<String>)> {
    spans.iter().map(|s| (s.high, s.low, s.label.map(|f| f.name.clone()))).collect()
}

fn named(high: u32, low: u32, name: &str) -> (u32, u32, Option<String>) {
    (high, low, Some(name.to_string()))
}

fn reserved(high: u32, low: u32) -> (u32, u32, Option<String>) {
    (high, low, None)
}

#[test]
fn empty_input_is_one_reserved_span() {
    let fields: Vec<FieldDescriptor> = Vec::new();
    let spans = layout(&fields);
    assert_eq!(spans, vec![BitSpan { high: 31, low: 0, label: None }]);
}

#[test]
fn full_width_field_leaves_nothing_reserved() {
    let fields = vec![field("X", 0, 32)];
    let spans = layout(&fields);
    assert_eq!(spans, vec![BitSpan { high: 31, low: 0, label: Some(&fields[0]) }]);
    assert!(spans.iter().all(|s| s.label.is_some()));
}

#[test]
fn middle_field_lies_between_two_reserved_spans() {
    let fields = vec![field("MODE", 4, 4)];
    let spans = layout(&fields);
    assert_eq!(
        spans,
        vec![
            BitSpan { high: 31, low: 8, label: None },
            BitSpan { high: 7, low: 4, label: Some(&fields[0]) },
            BitSpan { high: 3, low: 0, label: None },
        ]
    );
    assert_eq!(spans[1].label.unwrap().name, "MODE");
}

#[test]
fn fields_in_any_order_come_out_from_the_top() {
    let fields = vec![field("B", 8, 4), field("D", 28, 2), field("A", 0, 1), field("C", 16, 8)];
    let spans = layout(&fields);
    assert_eq!(
        shape(&spans),
        vec![
            reserved(31, 30),
            named(29, 28, "D"),
            reserved(27, 24),
            named(23, 16, "C"),
            reserved(15, 12),
            named(11, 8, "B"),
            reserved(7, 1),
            named(0, 0, "A"),
        ]
    );
}

#[test]
fn the_same_fields_in_another_order_give_the_same_spans() {
    let ascending = vec![field("A", 0, 1), field("B", 8, 4), field("C", 16, 8)];
    let descending = vec![field("C", 16, 8), field("B", 8, 4), field("A", 0, 1)];
    assert_eq!(shape(&layout(&ascending)), shape(&layout(&descending)));
}

#[test]
fn adjacent_fields_have_no_span_between_them() {
    let fields = vec![field("LO", 0, 16), field("HI", 16, 16)];
    assert_eq!(shape(&layout(&fields)), vec![named(31, 16, "HI"), named(15, 0, "LO")]);
}

#[test]
fn a_field_at_the_top_bit_has_no_span_above() {
    let fields = vec![field("TOP", 31, 1)];
    assert_eq!(shape(&layout(&fields)), vec![named(31, 31, "TOP"), reserved(30, 0)]);
}

#[test]
fn a_field_at_the_bottom_bit_has_no_span_below() {
    let fields = vec![field("BOT", 0, 1)];
    assert_eq!(shape(&layout(&fields)), vec![reserved(31, 1), named(0, 0, "BOT")]);
}

#[test]
fn thirty_two_single_bits_fill_the_word() {
    let fields: Vec<FieldDescriptor> = (0..32).map(|b| field(&format!("B{}", b), b, 1)).collect();
    let spans = layout(&fields);
    assert_eq!(spans.len(), 32);
    for (i, span) in spans.iter().enumerate() {
        let bit = 31 - i as u32;
        assert_eq!((span.high, span.low), (bit, bit));
        assert_eq!(span.label.unwrap().name, format!("B{}", bit));
    }
}

fn sample_sets() -> Vec<Vec<FieldDescriptor>> {
    vec![
        vec![],
        vec![field("X", 0, 32)],
        vec![field("MODE", 4, 4)],
        vec![field("A", 1, 1), field("B", 3, 1), field("C", 5, 1), field("D", 30, 1)],
        vec![field("HI", 20, 12), field("LO", 0, 3), field("MID", 3, 9)],
        vec![field("ONLY", 31, 1)],
    ]
}

#[test]
fn spans_hold_each_bit_of_the_word_once() {
    for fields in sample_sets() {
        let spans = layout(&fields);
        let total: u32 = spans.iter().map(|s| s.width()).sum();
        assert_eq!(total, 32);
        for bit in 0..32u32 {
            let holders = spans.iter().filter(|s| s.low <= bit && bit <= s.high).count();
            assert_eq!(holders, 1, "bit {}", bit);
        }
        assert_eq!(spans.first().unwrap().high, 31);
        assert_eq!(spans.last().unwrap().low, 0);
        for pair in spans.windows(2) {
            assert_eq!(pair[0].low, pair[1].high + 1);
        }
    }
}

#[test]
fn no_two_neighbours_are_both_reserved() {
    for fields in sample_sets() {
        let spans = layout(&fields);
        for pair in spans.windows(2) {
            assert!(pair[0].label.is_some() || pair[1].label.is_some());
        }
    }
}

#[test]
fn spans_descend_strictly_by_their_high_bit() {
    for fields in sample_sets() {
        let spans = layout(&fields);
        for pair in spans.windows(2) {
            assert!(pair[0].high > pair[1].high);
        }
    }
}

#[test]
fn every_field_is_shown_once_with_its_own_bits() {
    for fields in sample_sets() {
        let spans = layout(&fields);
        for f in &fields {
            let shown: Vec<&BitSpan> = spans
                .iter()
                .filter(|s| s.label.map(|l| l.name == f.name).unwrap_or(false))
                .collect();
            assert_eq!(shown.len(), 1);
            assert_eq!(shown[0].low, f.bit_offset);
            assert_eq!(shown[0].high, f.bit_offset + f.bit_width - 1);
        }
        let labelled = spans.iter().filter(|s| s.label.is_some()).count();
        assert_eq!(labelled, fields.len());
    }
}

#[test]
fn width_counts_the_bits_of_a_span() {
    assert_eq!(BitSpan { high: 7, low: 4, label: None }.width(), 4);
    assert_eq!(BitSpan { high: 5, low: 5, label: None }.width(), 1);
    assert_eq!(BitSpan { high: 31, low: 0, label: None }.width(), 32);
}

#[test]
fn sorting_puts_the_highest_field_first() {
    let fields = vec![field("B", 8, 4), field("D", 28, 2), field("A", 0, 1), field("C", 16, 8)];
    assert_eq!(order_by_high_bit(&fields), vec![1, 3, 0, 2]);
    assert_eq!(order_by_high_bit(&[]), Vec::<usize>::new());
}

#[test]
fn sorting_keeps_fields_with_the_same_high_bit_in_order() {
    let fields = vec![field("A", 4, 4), field("B", 7, 1), field("C", 0, 8)];
    assert_eq!(order_by_high_bit(&fields), vec![0, 1, 2]);
}

#[test]
fn valid_fields_are_told_from_invalid_ones() {
    assert!(fields_are_valid(&[]));
    assert!(fields_are_valid(&[field("X", 0, 32)]));
    assert!(fields_are_valid(&[field("B", 8, 4), field("A", 0, 8), field("C", 12, 20)]));
    // a field without bits
    assert!(!fields_are_valid(&[field("Z", 3, 0)]));
    // a field that ends above bit 31
    assert!(!fields_are_valid(&[field("W", 30, 3)]));
    assert!(!fields_are_valid(&[field("W", 32, 1)]));
    assert!(!fields_are_valid(&[field("W", 0, 33)]));
    assert!(!fields_are_valid(&[field("W", u32::MAX, 2)]));
    assert!(!fields_are_valid(&[field("W", 1, u32::MAX)]));
    // two fields that share bit 7
    assert!(!fields_are_valid(&[field("A", 0, 8), field("B", 7, 2)]));
    assert!(!fields_are_valid(&[field("B", 7, 2), field("A", 0, 8)]));
    // the same bits twice
    assert!(!fields_are_valid(&[field("A", 4, 4), field("A", 4, 4)]));
}

#[test]
fn in_word_and_high_bit_of_a_field() {
    assert!(field("X", 0, 32).is_in_word());
    assert!(field("X", 31, 1).is_in_word());
    assert!(!field("X", 31, 2).is_in_word());
    assert!(!field("X", 0, 0).is_in_word());
    assert_eq!(field("X", 4, 4).high_bit(), 7);
    assert_eq!(field("X", 0, 32).high_bit(), 31);
    assert_eq!(field("X", 9, 1).high_bit(), 9);
}

/// Splits the word at pseudo-random places and keeps some of the pieces as
/// fields, in a shuffled order.
fn scattered_fields(seed: u64) -> Vec<FieldDescriptor> {
    let mut state = seed.wrapping_mul(6364136223846793005).wrapping_add(1442695040888963407);
    let mut next = move |bound: u64| {
        state = state.wrapping_mul(6364136223846793005).wrapping_add(1442695040888963407);
        (state >> 33) % bound
    };
    let mut fields = Vec::new();
    let mut low = 0u32;
    while low < 32 {
        let width = 1 + next((32 - low) as u64) as u32;
        if next(3) != 0 {
            fields.push(field(&format!("F{}", low), low, width));
        }
        low += width;
    }
    for i in (1..fields.len()).rev() {
        let j = next(i as u64 + 1) as usize;
        fields.swap(i, j);
    }
    fields
}

#[test]
fn layout_agrees_with_reading_the_word_bit_by_bit() {
    for seed in 0..500u64 {
        let fields = scattered_fields(seed);
        assert!(fields_are_valid(&fields));
        // the owner of each bit, read off the fields
        let owner = |bit: u32| {
            fields.iter().find(|f| f.bit_offset <= bit && bit < f.bit_offset + f.bit_width)
        };
        let mut want: Vec<(u32, u32, Option<String>)> = Vec::new();
        let mut high = 31i64;
        while high >= 0 {
            let top = high as u32;
            let mut low = top;
            match owner(top) {
                Some(f) => {
                    low = f.bit_offset;
                    want.push((top, low, Some(f.name.clone())));
                }
                None => {
                    while low > 0 && owner(low - 1).is_none() {
                        low -= 1;
                    }
                    want.push((top, low, None));
                }
            }
            high = low as i64 - 1;
        }
        assert_eq!(shape(&layout(&fields)), want, "seed {}", seed);
    }
}
