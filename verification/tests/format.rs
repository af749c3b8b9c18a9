use svd2html::format::{
    access_text, field_info, fields, format_span, range_text, text_or_empty, RenderRecord,
};
use svd2html::span::BitSpan;
use svd2html::model::{AccessMode, FieldDescriptor, RegisterDescriptor};

fn described(
    name: &str,
    bit_offset: u32,
    bit_width: u32,
    description: Option<&str>,
    access: AccessMode,
) -> FieldDescriptor {
    FieldDescriptor {
        name: name.to_string(),
        bit_offset,
        bit_width,
        description: description.map(|d| d.to_string()),
        access,
    }
}

fn record(
    label: &str,
    range_text: &str,
    width: u32,
    description: &str,
    access: &str,
) -> RenderRecord {
    RenderRecord {
        label: label.to_string(),
        range_text: range_text.to_string(),
        width,
        description: description.to_string(),
        access_text: access.to_string(),
    }
}

#[test]
fn each_access_mode_has_its_abbreviation() {
    assert_eq!(access_text(AccessMode::ReadOnly), "R");
    assert_eq!(access_text(AccessMode::ReadWrite), "RW");
    assert_eq!(access_text(AccessMode::ReadWriteOnce), "RWO");
    assert_eq!(access_text(AccessMode::WriteOnce), "WO");
    assert_eq!(access_text(AccessMode::WriteOnly), "W");
    assert_eq!(access_text(AccessMode::Unspecified), "-");
}

#[test]
fn a_reserved_span_has_the_access_of_no_field() {
    let (name, description, access) = field_info(None);
    assert_eq!(name, "");
    assert_eq!(description, "");
    assert_eq!(access, "-");
}

#[test]
fn field_info_of_each_access_mode() {
    let modes = [
        (AccessMode::ReadOnly, "R"),
        (AccessMode::ReadWrite, "RW"),
        (AccessMode::ReadWriteOnce, "RWO"),
        (AccessMode::WriteOnce, "WO"),
        (AccessMode::WriteOnly, "W"),
        (AccessMode::Unspecified, "-"),
    ];
    for (mode, text) in modes {
        let f = described("EN", 0, 1, Some("Enable"), mode);
        assert_eq!(
            field_info(Some(&f)),
            ("EN".to_string(), "Enable".to_string(), text.to_string())
        );
    }
}

#[test]
fn field_info_without_description_is_empty_there() {
    let f = described("EN", 0, 1, None, AccessMode::ReadWrite);
    assert_eq!(field_info(Some(&f)), ("EN".to_string(), String::new(), "RW".to_string()));
}

#[test]
fn range_text_of_one_bit_is_one_number() {
    assert_eq!(range_text(7, 7), "7");
    assert_eq!(range_text(0, 0), "0");
    assert_eq!(range_text(31, 31), "31");
}

#[test]
fn range_text_of_several_bits_names_both_ends() {
    assert_eq!(range_text(7, 4), "7 - 4");
    assert_eq!(range_text(31, 0), "31 - 0");
    assert_eq!(range_text(31, 8), "31 - 8");
    assert_eq!(range_text(15, 12), "15 - 12");
}

#[test]
fn text_or_empty_gives_the_text_or_nothing() {
    assert_eq!(text_or_empty(&Some("Mode select".to_string())), "Mode select");
    assert_eq!(text_or_empty(&Some(String::new())), "");
    assert_eq!(text_or_empty(&None), "");
}

#[test]
fn format_span_of_a_field() {
    let f = described("MODE", 4, 4, Some("Mode select"), AccessMode::ReadWrite);
    let span = BitSpan { high: 7, low: 4, label: Some(&f) };
    assert_eq!(format_span(&span), record("MODE", "7 - 4", 4, "Mode select", "RW"));
}

#[test]
fn format_span_of_a_single_bit_field_without_description() {
    let f = described("EN", 0, 1, None, AccessMode::WriteOnly);
    let span = BitSpan { high: 0, low: 0, label: Some(&f) };
    assert_eq!(format_span(&span), record("EN", "0", 1, "", "W"));
}

#[test]
fn format_span_of_a_reserved_span() {
    let span = BitSpan { high: 31, low: 8, label: None };
    assert_eq!(format_span(&span), record("", "31 - 8", 24, "", "-"));
    let whole = BitSpan { high: 31, low: 0, label: None };
    assert_eq!(format_span(&whole), record("", "31 - 0", 32, "", "-"));
}

#[test]
fn fields_of_a_register_are_its_cells_from_the_top() {
    let register = RegisterDescriptor {
        name: "CTRL".to_string(),
        address_offset: 0,
        description: None,
        array_count: 0,
        fields: vec![
            described("EN", 0, 1, Some("Enable"), AccessMode::ReadWrite),
            described("MODE", 4, 4, None, AccessMode::ReadOnly),
            described("FLAG", 31, 1, Some("Flag"), AccessMode::Unspecified),
        ],
    };
    assert_eq!(
        fields(&register),
        vec![
            record("FLAG", "31", 1, "Flag", "-"),
            record("", "30 - 8", 23, "", "-"),
            record("MODE", "7 - 4", 4, "", "R"),
            record("", "3 - 1", 3, "", "-"),
            record("EN", "0", 1, "Enable", "RW"),
        ]
    );
}

#[test]
fn fields_of_a_register_without_fields_are_one_reserved_cell() {
    let register = RegisterDescriptor {
        name: "EMPTY".to_string(),
        address_offset: 0,
        description: None,
        array_count: 0,
        fields: Vec::new(),
    };
    assert_eq!(fields(&register), vec![record("", "31 - 0", 32, "", "-")]);
}

#[test]
fn widths_of_the_cells_of_a_register_sum_to_the_word() {
    let register = RegisterDescriptor {
        name: "R".to_string(),
        address_offset: 0,
        description: None,
        array_count: 0,
        fields: vec![
            described("A", 3, 2, None, AccessMode::ReadWrite),
            described("B", 17, 9, None, AccessMode::ReadWrite),
        ],
    };
    let total: u32 = fields(&register).iter().map(|r| r.width).sum();
    assert_eq!(total, 32);
}
