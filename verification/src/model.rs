//! The peripheral description: peripherals, their registers and the bit
//! fields of each register, as plain values.

use vstd::prelude::*;

verus! {

/// How software may access a field.
#[derive(Clone, Copy, Debug, PartialEq, Eq)]
pub enum AccessMode {
    ReadOnly,
    ReadWrite,
    ReadWriteOnce,
    WriteOnce,
    WriteOnly,
    /// The description names no access mode.
    Unspecified,
}

/// A named run of contiguous bits inside a 32-bit register.
#[derive(Clone, Debug, PartialEq, Eq)]
pub struct FieldDescriptor {
    pub name: String,
    /// The lowest bit of the field.
    pub bit_offset: u32,
    /// How many bits the field is wide.
    pub bit_width: u32,
    pub description: Option<String>,
    pub access: AccessMode,
}

/// A register of a peripheral.
#[derive(Clone, Debug, PartialEq, Eq)]
pub struct RegisterDescriptor {
    /// The name; in an array register it holds a placeholder for the index.
    pub name: String,
    /// Where the register lies, counted in bytes from the peripheral's base.
    pub address_offset: u32,
    pub description: Option<String>,
    /// How many registers the array holds; 0 for a register that is no array.
    pub array_count: u32,
    pub fields: Vec<FieldDescriptor>,
}

/// An interrupt line of a peripheral.
#[derive(Clone, Debug, PartialEq, Eq)]
pub struct InterruptDescriptor {
    pub name: String,
    pub value: u32,
    pub description: Option<String>,
}

/// A hardware unit with its base address, interrupts and registers.
#[derive(Clone, Debug, PartialEq, Eq)]
pub struct PeripheralDescriptor {
    pub name: String,
    pub base_address: u64,
    pub description: Option<String>,
    pub interrupts: Vec<InterruptDescriptor>,
    pub registers: Vec<RegisterDescriptor>,
}

impl FieldDescriptor {
    /// The lowest bit the field occupies.
    pub open spec fn low(&self) -> int {
        self.bit_offset as int
    }

    /// The highest bit the field occupies.
    pub open spec fn high(&self) -> int {
        self.bit_offset + self.bit_width - 1
    }

    /// The field has at least one bit and ends inside the 32-bit word.
    pub open spec fn in_word(&self) -> bool {
        self.bit_width >= 1 && self.high() <= 31
    }

    /// `bit` is one of the field's bits.
    pub open spec fn covers(&self, bit: int) -> bool {
        self.low() <= bit <= self.high()
    }

    /// The two fields share no bit.
    pub open spec fn disjoint_from(&self, other: &FieldDescriptor) -> bool {
        self.high() < other.low() || other.high() < self.low()
    }

    /// Tells whether the field lies inside the word.
    pub fn is_in_word(&self) -> (b: bool)
        ensures
            b == self.in_word(),
    {
        self.bit_width >= 1 && self.bit_offset <= 31 && self.bit_width <= 32 - self.bit_offset
    }

    /// The highest bit of a field that lies inside the word.
    pub fn high_bit(&self) -> (bit: u32)
        requires
            self.in_word(),
        ensures
            bit == self.high(),
            bit <= 31,
    {
        self.bit_offset + (self.bit_width - 1)
    }
}

/// What the layout of a register asks of its fields: each lies inside the
/// word, and no two of them share a bit.
pub open spec fn fields_valid(fields: Seq<FieldDescriptor>) -> bool {
    &&& forall|i: int| 0 <= i < fields.len() ==> (#[trigger] fields[i]).in_word()
    &&& forall|i: int, j: int|
        #![trigger fields[i], fields[j]]
        0 <= i < j < fields.len() ==> fields[i].disjoint_from(&fields[j])
}

/// Some field claims `bit`.
pub open spec fn claimed(fields: Seq<FieldDescriptor>, bit: int) -> bool {
    exists|j: int| 0 <= j < fields.len() && (#[trigger] fields[j]).covers(bit)
}

/// Tells whether a register's fields can be laid out.
pub fn fields_are_valid(fields: &[FieldDescriptor]) -> (b: bool)
    ensures
        b == fields_valid(fields@),
{
    let n = fields.len();
    let mut j: usize = 0;
    while j < n
        invariant
            n == fields@.len(),
            j <= n,
            fields_valid(fields@.take(j as int)),
        decreases n - j,
    {
        let f = &fields[j];
        if !f.is_in_word() {
            return false;
        }
        let f_high = f.high_bit();
        let mut i: usize = 0;
        while i < j
            invariant
                n == fields@.len(),
                i <= j < n,
                f == fields@[j as int],
                f.in_word(),
                f_high == f.high(),
                fields_valid(fields@.take(j as int)),
                forall|k: int| 0 <= k < i ==> (#[trigger] fields@[k]).disjoint_from(f),
            decreases j - i,
        {
            let g = &fields[i];
            assert(g == fields@.take(j as int)[i as int]);
            let g_high = g.high_bit();
            if !(g_high < f.bit_offset || f_high < g.bit_offset) {
                return false;
            }
            i += 1;
        }
        j += 1;
    }
    assert(fields@.take(n as int) == fields@);
    true
}

impl RegisterDescriptor {
    /// The register's fields can be laid out.
    pub open spec fn well_formed(&self) -> bool {
        fields_valid(self.fields@)
    }

    /// The register is well formed, and at `base` its address fits 64 bits.
    pub open spec fn fits_at(&self, base: u64) -> bool {
        self.well_formed() && base + self.address_offset <= u64::MAX
    }

    /// Tells whether the register's fields can be laid out.
    pub fn is_well_formed(&self) -> (b: bool)
        ensures
            b == self.well_formed(),
    {
        fields_are_valid(self.fields.as_slice())
    }
}

impl PeripheralDescriptor {
    /// Every register is well formed and has an address that fits 64 bits.
    pub open spec fn well_formed(&self) -> bool {
        forall|i: int|
            0 <= i < self.registers@.len() ==> (#[trigger] self.registers@[i]).fits_at(
                self.base_address,
            )
    }

    /// `r` is the first register that is not well formed or whose address
    /// does not fit.
    pub open spec fn first_malformed_is(&self, r: int) -> bool {
        &&& 0 <= r < self.registers@.len()
        &&& !self.registers@[r].fits_at(self.base_address)
        &&& forall|k: int|
            0 <= k < r ==> (#[trigger] self.registers@[k]).fits_at(self.base_address)
    }

    /// Looks for the first register of which no row can be made.
    pub fn first_malformed_register(&self) -> (found: Option<usize>)
        ensures
            match found {
                Some(r) => self.first_malformed_is(r as int),
                None => self.well_formed(),
            },
    {
        let n = self.registers.len();
        let mut i: usize = 0;
        while i < n
            invariant
                n == self.registers@.len(),
                i <= n,
                forall|k: int|
                    0 <= k < i ==> (#[trigger] self.registers@[k]).fits_at(self.base_address),
            decreases n - i,
        {
            let r = &self.registers[i];
            if r.address_offset as u64 > u64::MAX - self.base_address || !r.is_well_formed() {
                return Some(i);
            }
            i += 1;
        }
        None
    }

    /// Tells whether pages can be made of the peripheral.
    pub fn is_well_formed(&self) -> (b: bool)
        ensures
            b == self.well_formed(),
    {
        self.first_malformed_register().is_none()
    }
}

} // verus!
