//! Documentation pages for the peripherals of a microcontroller.
//!
//! From the description of a device (peripherals, their registers, the bit
//! fields of each register) the library assembles what each page shows:
//! for every register a diagram of its 32-bit word, with one cell for each
//! field and one for each run of reserved bits.
//!
//! - [`model`]: the description, as plain values.
//! - [`span`]: spans of bits, and what makes them the layout of a register.
//! - [`layout`]: the layout engine.
//! - [`format`]: from a span to the texts of its cell.
//! - [`naming`]: the name under which a register is shown.
//! - [`text`]: numbers as text.
//! - [`page`]: the pages of the peripherals, and the index.

pub mod format;
pub mod layout;
pub mod model;
pub mod naming;
pub mod page;
pub mod span;
pub mod text;
