//! Assembler toolchain for a small eight-bit instruction set.
//!
//! A program is a flat list of items ([`ast::FuncBody`]). The passes are
//! [`name_mangling::mangle`], which flattens named functions into that list,
//! [`lower_labels::lower_labels`], which replaces symbolic labels by byte
//! addresses, [`assembler::assemble`], which packs the items into bytes, and
//! [`disassembler::disassemble`], which turns bytes back into a listing.
//! All of them share the one bit layout of [`layout`], and [`theorems`]
//! holds what is proved of them together.
//!
//! Around the passes stand [`loader`], which writes bytes as text and reads
//! them back, [`render`] and [`text`], which turn the entities and numbers
//! into text, [`parser`], which words the report for a source text that
//! does not parse, and [`romgen`], which draws the bytes as a block
//! schematic.

pub mod assembler;
pub mod ast;
pub mod disassembler;
pub mod layout;
pub mod loader;
pub mod lower_labels;
pub mod name_mangling;
pub mod parser;
pub mod render;
pub mod romgen;
pub mod text;
pub mod theorems;
