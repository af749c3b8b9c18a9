//! Page assembly: what the page of a peripheral and the index page show.

use vstd::prelude::*;
use vstd::string::StringExecFns;
use crate::format::{cells_of, fields, text_of, text_or_empty, RenderRecord, RenderRecordView};
use crate::model::{InterruptDescriptor, PeripheralDescriptor, RegisterDescriptor};
use crate::naming::resolved_name;
use crate::text::{decimal_digits, decimal_text, hex_number, hex_text};

verus! {

/// An interrupt as a page lists it.
#[derive(Clone, Debug, PartialEq, Eq)]
pub struct InterruptRow {
    pub name: String,
    /// The interrupt's number, in decimal.
    pub value: String,
    pub description: String,
}

/// A register as a page lists it.
#[derive(Clone, Debug, PartialEq, Eq)]
pub struct RegisterRow {
    /// The resolved name.
    pub name: String,
    pub description: String,
    /// The offset from the peripheral's base: `0x` and at least four digits.
    pub offset: String,
    /// The absolute address: `0x` and at least eight digits.
    pub absolute: String,
    /// The cells of the diagram, from bit 31 down to bit 0.
    pub fields: Vec<RenderRecord>,
}

/// What the page of a peripheral shows.
#[derive(Clone, Debug, PartialEq, Eq)]
pub struct PeripheralPage {
    pub chip: String,
    pub peripheral: String,
    /// The base address: `0x` and at least eight digits.
    pub address: String,
    pub description: String,
    pub interrupts: Vec<InterruptRow>,
    pub registers: Vec<RegisterRow>,
}

/// A peripheral as the index page lists it.
#[derive(Clone, Debug, PartialEq, Eq)]
pub struct IndexEntry {
    pub name: String,
    pub description: String,
}

/// What the index page shows.
#[derive(Clone, Debug, PartialEq, Eq)]
pub struct IndexPage {
    pub chip: String,
    pub peripherals: Vec<IndexEntry>,
}

/// An `InterruptRow` as plain values.
#[verifier::ext_equal]
pub struct InterruptRowView {
    pub name: Seq<char>,
    pub value: Seq<char>,
    pub description: Seq<char>,
}

/// A `RegisterRow` as plain values.
#[verifier::ext_equal]
pub struct RegisterRowView {
    pub name: Seq<char>,
    pub description: Seq<char>,
    pub offset: Seq<char>,
    pub absolute: Seq<char>,
    pub fields: Seq<RenderRecordView>,
}

/// A `PeripheralPage` as plain values.
#[verifier::ext_equal]
pub struct PeripheralPageView {
    pub chip: Seq<char>,
    pub peripheral: Seq<char>,
    pub address: Seq<char>,
    pub description: Seq<char>,
    pub interrupts: Seq<InterruptRowView>,
    pub registers: Seq<RegisterRowView>,
}

/// An `IndexEntry` as plain values.
#[verifier::ext_equal]
pub struct IndexEntryView {
    pub name: Seq<char>,
    pub description: Seq<char>,
}

/// An `IndexPage` as plain values.
#[verifier::ext_equal]
pub struct IndexPageView {
    pub chip: Seq<char>,
    pub peripherals: Seq<IndexEntryView>,
}

impl View for InterruptRow {
    type V = InterruptRowView;

    open spec fn view(&self) -> InterruptRowView {
        InterruptRowView { name: self.name@, value: self.value@, description: self.description@ }
    }
}

impl View for RegisterRow {
    type V = RegisterRowView;

    open spec fn view(&self) -> RegisterRowView {
        RegisterRowView {
            name: self.name@,
            description: self.description@,
            offset: self.offset@,
            absolute: self.absolute@,
            fields: self.fields@.map_values(|r: RenderRecord| r@),
        }
    }
}

impl View for PeripheralPage {
    type V = PeripheralPageView;

    open spec fn view(&self) -> PeripheralPageView {
        PeripheralPageView {
            chip: self.chip@,
            peripheral: self.peripheral@,
            address: self.address@,
            description: self.description@,
            interrupts: self.interrupts@.map_values(|r: InterruptRow| r@),
            registers: self.registers@.map_values(|r: RegisterRow| r@),
        }
    }
}

impl View for IndexEntry {
    type V = IndexEntryView;

    open spec fn view(&self) -> IndexEntryView {
        IndexEntryView { name: self.name@, description: self.description@ }
    }
}

impl View for IndexPage {
    type V = IndexPageView;

    open spec fn view(&self) -> IndexPageView {
        IndexPageView {
            chip: self.chip@,
            peripherals: self.peripherals@.map_values(|e: IndexEntry| e@),
        }
    }
}

/// The row of an interrupt.
pub open spec fn interrupt_row(interrupt: InterruptDescriptor) -> InterruptRowView {
    InterruptRowView {
        name: interrupt.name@,
        value: decimal_digits(interrupt.value as nat),
        description: text_of(interrupt.description),
    }
}

/// The row of a register of a peripheral at `base`.
pub open spec fn register_row(base: u64, register: RegisterDescriptor) -> RegisterRowView {
    RegisterRowView {
        name: resolved_name(register.name@, register.array_count as nat),
        description: text_of(register.description),
        offset: hex_number(register.address_offset as nat, 4),
        absolute: hex_number((base + register.address_offset) as nat, 8),
        fields: cells_of(register.fields@),
    }
}

/// The page of a peripheral of the device `chip`.
pub open spec fn peripheral_page_of(
    chip: Seq<char>,
    peripheral: PeripheralDescriptor,
) -> PeripheralPageView {
    PeripheralPageView {
        chip,
        peripheral: peripheral.name@,
        address: hex_number(peripheral.base_address as nat, 8),
        description: text_of(peripheral.description),
        interrupts: peripheral.interrupts@.map_values(|i| interrupt_row(i)),
        registers: peripheral.registers@.map_values(
            |r| register_row(peripheral.base_address, r),
        ),
    }
}

/// The entry of a peripheral in the index.
pub open spec fn index_entry(peripheral: PeripheralDescriptor) -> IndexEntryView {
    IndexEntryView { name: peripheral.name@, description: text_of(peripheral.description) }
}

/// The index page of the device `chip`.
pub open spec fn index_page_of(
    chip: Seq<char>,
    peripherals: Seq<PeripheralDescriptor>,
) -> IndexPageView {
    IndexPageView { chip, peripherals: peripherals.map_values(|p| index_entry(p)) }
}

/// The rows of a peripheral's interrupts, in their order.
pub fn interrupts(peripheral: &PeripheralDescriptor) -> (rows: Vec<InterruptRow>)
    ensures
        rows@.map_values(|r: InterruptRow| r@) == peripheral.interrupts@.map_values(
            |i| interrupt_row(i),
        ),
{
    let mut rows: Vec<InterruptRow> = Vec::new();
    let mut i: usize = 0;
    while i < peripheral.interrupts.len()
        invariant
            i <= peripheral.interrupts@.len(),
            rows@.len() == i,
            forall|k: int|
                0 <= k < i ==> (#[trigger] rows@[k])@ == interrupt_row(peripheral.interrupts@[k]),
        decreases peripheral.interrupts@.len() - i,
    {
        let interrupt = &peripheral.interrupts[i];
        rows.push(
            InterruptRow {
                name: interrupt.name.clone(),
                value: decimal_text(interrupt.value as u64),
                description: text_or_empty(&interrupt.description),
            },
        );
        i += 1;
    }
    rows
}

/// The rows of a peripheral's registers, in their order.
pub fn registers(peripheral: &PeripheralDescriptor) -> (rows: Vec<RegisterRow>)
    requires
        peripheral.well_formed(),
    ensures
        rows@.map_values(|r: RegisterRow| r@) == peripheral.registers@.map_values(
            |r| register_row(peripheral.base_address, r),
        ),
{
    let mut rows: Vec<RegisterRow> = Vec::new();
    let mut i: usize = 0;
    while i < peripheral.registers.len()
        invariant
            peripheral.well_formed(),
            i <= peripheral.registers@.len(),
            rows@.len() == i,
            forall|k: int|
                0 <= k < i ==> (#[trigger] rows@[k])@ == register_row(
                    peripheral.base_address,
                    peripheral.registers@[k],
                ),
        decreases peripheral.registers@.len() - i,
    {
        let register = &peripheral.registers[i];
        let absolute = peripheral.base_address + register.address_offset as u64;
        let cells = fields(register);
        rows.push(
            RegisterRow {
                name: register.resolved_name(),
                description: text_or_empty(&register.description),
                offset: hex_text(register.address_offset as u64, 4),
                absolute: hex_text(absolute, 8),
                fields: cells,
            },
        );
        i += 1;
    }
    rows
}

/// Assembles the page of a peripheral of the device `chip`.
pub fn peripheral_page(chip: &str, peripheral: &PeripheralDescriptor) -> (page: PeripheralPage)
    requires
        peripheral.well_formed(),
    ensures
        page@ == peripheral_page_of(chip@, *peripheral),
{
    PeripheralPage {
        chip: String::from_str(chip),
        peripheral: peripheral.name.clone(),
        address: hex_text(peripheral.base_address, 8),
        description: text_or_empty(&peripheral.description),
        interrupts: interrupts(peripheral),
        registers: registers(peripheral),
    }
}

/// Assembles the index page of the device `chip`: its peripherals, in
/// their order.
pub fn index_page(chip: &str, peripherals: &[PeripheralDescriptor]) -> (page: IndexPage)
    ensures
        page@ == index_page_of(chip@, peripherals@),
{
    let mut entries: Vec<IndexEntry> = Vec::new();
    let mut i: usize = 0;
    while i < peripherals.len()
        invariant
            i <= peripherals@.len(),
            entries@.len() == i,
            forall|k: int| 0 <= k < i ==> (#[trigger] entries@[k])@ == index_entry(peripherals@[k]),
        decreases peripherals@.len() - i,
    {
        let peripheral = &peripherals[i];
        entries.push(
            IndexEntry {
                name: peripheral.name.clone(),
                description: text_or_empty(&peripheral.description),
            },
        );
        i += 1;
    }
    IndexPage { chip: String::from_str(chip), peripherals: entries }
}

/// The name of the file of a page: the page's name and `.html`.
pub open spec fn html_file(stem: Seq<char>) -> Seq<char> {
    stem + seq!['.', 'h', 't', 'm', 'l']
}

/// The name of the index page: `index`.
pub open spec fn index_stem() -> Seq<char> {
    seq!['i', 'n', 'd', 'e', 'x']
}

impl PeripheralPage {
    /// The name of the file that holds the page: that of the peripheral
    /// and `.html`.
    pub fn file_name(&self) -> (name: String)
        ensures
            name@ == html_file(self.peripheral@),
    {
        proof {
            reveal_strlit(".html");
        }
        let mut name = self.peripheral.clone();
        name.append(".html");
        name
    }
}

impl IndexPage {
    /// The name of the file that holds the index page: `index.html`.
    pub fn file_name(&self) -> (name: String)
        ensures
            name@ == html_file(index_stem()),
    {
        proof {
            reveal_strlit("index.html");
        }
        let name = String::from_str("index.html");
        name
    }
}

/// All the pages of a device.
#[derive(Clone, Debug, PartialEq, Eq)]
pub struct Site {
    /// One page for each peripheral, in their order.
    pub pages: Vec<PeripheralPage>,
    pub index: IndexPage,
}

/// A `Site` as plain values.
#[verifier::ext_equal]
pub struct SiteView {
    pub pages: Seq<PeripheralPageView>,
    pub index: IndexPageView,
}

impl View for Site {
    type V = SiteView;

    open spec fn view(&self) -> SiteView {
        SiteView { pages: self.pages@.map_values(|p: PeripheralPage| p@), index: self.index@ }
    }
}

/// The register that stops the assembly: the first one, in the first
/// peripheral that has one, that is not well formed or whose address does
/// not fit 64 bits. Both are positions: the peripheral's among the
/// peripherals, the register's among its registers.
#[derive(Clone, Copy, Debug, PartialEq, Eq)]
pub struct MalformedRegister {
    pub peripheral: usize,
    pub register: usize,
}

/// The pages of the device `chip`.
pub open spec fn site_of(chip: Seq<char>, peripherals: Seq<PeripheralDescriptor>) -> SiteView {
    SiteView {
        pages: peripherals.map_values(|p| peripheral_page_of(chip, p)),
        index: index_page_of(chip, peripherals),
    }
}

/// Every peripheral is well formed.
pub open spec fn all_well_formed(peripherals: Seq<PeripheralDescriptor>) -> bool {
    forall|i: int| 0 <= i < peripherals.len() ==> (#[trigger] peripherals[i]).well_formed()
}

/// `malformed` names the first register, in the first peripheral that has
/// one, of which no row can be made.
pub open spec fn is_first_malformed(
    peripherals: Seq<PeripheralDescriptor>,
    malformed: MalformedRegister,
) -> bool {
    &&& malformed.peripheral < peripherals.len()
    &&& all_well_formed(peripherals.take(malformed.peripheral as int))
    &&& peripherals[malformed.peripheral as int].first_malformed_is(malformed.register as int)
}

/// Assembles the pages of a device: one for each peripheral, and the
/// index. Where a register is not well formed, or its address does not fit
/// 64 bits, no page is made, and the first such register is named.
pub fn assemble_site(
    chip: &str,
    peripherals: &[PeripheralDescriptor],
) -> (site: Result<Site, MalformedRegister>)
    ensures
        site is Ok <==> all_well_formed(peripherals@),
        site matches Ok(s) ==> s@ == site_of(chip@, peripherals@),
        site matches Err(malformed) ==> is_first_malformed(peripherals@, malformed),
{
    let mut pages: Vec<PeripheralPage> = Vec::new();
    let mut i: usize = 0;
    while i < peripherals.len()
        invariant
            i <= peripherals@.len(),
            pages@.len() == i,
            all_well_formed(peripherals@.take(i as int)),
            forall|k: int|
                0 <= k < i ==> (#[trigger] pages@[k])@ == peripheral_page_of(
                    chip@,
                    peripherals@[k],
                ),
        decreases peripherals@.len() - i,
    {
        let peripheral = &peripherals[i];
        if let Some(register) = peripheral.first_malformed_register() {
            return Err(MalformedRegister { peripheral: i, register });
        }
        pages.push(peripheral_page(chip, peripheral));
        i += 1;
    }
    assert(peripherals@.take(peripherals@.len() as int) == peripherals@);
    let site = Site { pages, index: index_page(chip, peripherals) };
    Ok(site)
}

} // verus!
