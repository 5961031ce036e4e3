//! The disassembler: from bytes back to a listing.
//!
//! The scan goes from left to right and never fails. The opcode in the low
//! five bits of a word says how many bytes the instruction takes. A word
//! whose code is no opcode's is listed alone as `INVALID_OPCODE`, and the
//! scan goes on at the next byte. An instruction that the end of the bytes
//! cuts short is listed with the bytes that are left and with the operands
//! that are complete.

use vstd::prelude::*;
use vstd::string::StringExecFns;
use crate::ast::{Condition, Opcode, OperandView};
use crate::layout::{
    join_target, shape, shape_footprint, spec_join_target, spec_shape, spec_shape_footprint,
    spec_word_code, spec_word_field, word_code, word_field, Shape,
};
use crate::render::operand_text;
use crate::theorems::theorem_listing_covers;
use crate::text::{
    binary, join, padded_hex, prefixed_hex, push_binary, push_decimal, push_padded_hex,
    push_prefixed_hex,
};

verus! {

/// One entry of a listing: where an instruction starts, the bytes that it
/// takes, and its text.
#[derive(Debug, Clone, PartialEq, Eq)]
pub struct Listing {
    pub address: usize,
    pub bytes: Vec<u8>,
    pub text: String,
}

/// Model of a [`Listing`].
pub struct ListingView {
    pub address: nat,
    pub bytes: Seq<u8>,
    pub text: Seq<char>,
}

impl View for Listing {
    type V = ListingView;

    open spec fn view(&self) -> ListingView {
        ListingView { address: self.address as nat, bytes: self.bytes@, text: self.text@ }
    }
}

impl DeepView for Listing {
    type V = ListingView;

    open spec fn deep_view(&self) -> ListingView {
        self@
    }
}

/// The number of bytes that the instruction at the start of `bytes` takes:
/// one for a word that holds no opcode, else what the opcode's shape says,
/// or all the bytes where fewer are left.
pub open spec fn consumed(bytes: Seq<u8>) -> nat
    recommends
        bytes.len() > 0,
{
    match Opcode::spec_from_code(spec_word_code(bytes[0])) {
        None => 1,
        Some(op) => {
            let n = spec_shape_footprint(spec_shape(op));
            if n <= bytes.len() {
                n
            } else {
                bytes.len()
            }
        },
    }
}

/// The text of the instruction that `bytes` hold, the opcode word first:
/// the mnemonic and, each behind a blank, the operands that the opcode's
/// shape names. The register or the condition is read from the field of
/// the word. An immediate, an address or a branch target is left out where
/// `bytes` do not hold all of it.
pub open spec fn operation_text(bytes: Seq<u8>) -> Seq<char>
    recommends
        bytes.len() > 0,
{
    let field = spec_word_field(bytes[0]);
    match Opcode::spec_from_code(spec_word_code(bytes[0])) {
        None => "INVALID_OPCODE"@,
        Some(op) => {
            let m = op.spec_mnemonic();
            match spec_shape(op) {
                Shape::Bare => m,
                Shape::Reg => m + " "@ + operand_text(OperandView::Register(field)),
                Shape::Imm => if bytes.len() >= 2 {
                    m + " "@ + operand_text(OperandView::Immediate(bytes[1]))
                } else {
                    m
                },
                Shape::RegImm => if bytes.len() >= 2 {
                    m + " "@ + operand_text(OperandView::Register(field)) + " "@ + operand_text(
                        OperandView::Immediate(bytes[1]),
                    )
                } else {
                    m + " "@ + operand_text(OperandView::Register(field))
                },
                Shape::Addr => if bytes.len() >= 2 {
                    m + " "@ + operand_text(OperandView::Address(bytes[1]))
                } else {
                    m
                },
                Shape::Branch => if bytes.len() >= 3 {
                    m + " "@ + Condition::spec_from_code(field).spec_mnemonic() + " "@
                        + prefixed_hex(spec_join_target(bytes[1], bytes[2]) as nat)
                } else {
                    m + " "@ + Condition::spec_from_code(field).spec_mnemonic()
                },
            }
        },
    }
}

/// The entry for the instruction at the start of `bytes`, which stand at
/// `address`.
pub open spec fn first_listing(bytes: Seq<u8>, address: nat) -> ListingView
    recommends
        bytes.len() > 0,
{
    let taken = bytes.take(consumed(bytes) as int);
    ListingView { address, bytes: taken, text: operation_text(taken) }
}

/// The listing of `bytes`, the first of which stands at `address`: the
/// entry for the first instruction, then the listing of the bytes behind
/// it.
pub open spec fn decoded(bytes: Seq<u8>, address: nat) -> Seq<ListingView>
    decreases bytes.len(),
{
    if bytes.len() == 0 {
        Seq::empty()
    } else {
        let n = consumed(bytes);
        seq![first_listing(bytes, address)] + decoded(bytes.skip(n as int), address + n)
    }
}

/// The bytes of all the entries of a listing, in their order.
pub open spec fn listed_bytes(listing: Seq<ListingView>) -> Seq<u8>
    decreases listing.len(),
{
    if listing.len() == 0 {
        Seq::empty()
    } else {
        listing[0].bytes + listed_bytes(listing.drop_first())
    }
}

/// The line for one entry: the address in four upper-case hexadecimal
/// digits, a colon, the bytes as groups of eight bits, and the text, with
/// one blank between the parts.
pub open spec fn listing_line(l: ListingView) -> Seq<char> {
    padded_hex(l.address) + ": "@ + join(l.bytes.map_values(|b: u8| binary(b)), " "@) + " "@
        + l.text
}

/// Returns the text of the instruction that `bytes` hold.
pub fn operation_to_text(bytes: &Vec<u8>) -> (s: String)
    requires
        bytes.len() > 0,
    ensures
        s@ == operation_text(bytes@),
{
    let word = bytes[0];
    let field = word_field(word);
    match Opcode::from_code(word_code(word)) {
        None => String::from_str("INVALID_OPCODE"),
        Some(op) => {
            let mut s = String::from_str(op.mnemonic());
            match shape(op) {
                Shape::Bare => {},
                Shape::Reg => {
                    s.append(" r");
                    push_decimal(&mut s, field as usize);
                },
                Shape::Imm => {
                    if bytes.len() >= 2 {
                        s.append(" ");
                        push_prefixed_hex(&mut s, bytes[1] as usize);
                    }
                },
                Shape::RegImm => {
                    s.append(" r");
                    push_decimal(&mut s, field as usize);
                    if bytes.len() >= 2 {
                        s.append(" ");
                        push_prefixed_hex(&mut s, bytes[1] as usize);
                    }
                },
                Shape::Addr => {
                    if bytes.len() >= 2 {
                        s.append(" $");
                        push_decimal(&mut s, bytes[1] as usize);
                    }
                },
                Shape::Branch => {
                    s.append(" ");
                    s.append(Condition::from_code(field).mnemonic());
                    if bytes.len() >= 3 {
                        s.append(" ");
                        push_prefixed_hex(&mut s, join_target(bytes[1], bytes[2]) as usize);
                    }
                },
            }
            proof {
                reveal_strlit(" ");
                reveal_strlit(" r");
                reveal_strlit("r");
                reveal_strlit(" $");
                reveal_strlit("$");
                assert(" r"@ =~= " "@ + "r"@);
                assert(" $"@ =~= " "@ + "$"@);
                assert(s@ =~= operation_text(bytes@));
            }
            s
        },
    }
}

/// Returns the entry for the instruction that starts at `pc`. A caller that
/// wants the listing piece by piece goes on at `pc` plus the number of
/// bytes of the entry.
pub fn decode_at(binary_data: &[u8], pc: usize) -> (entry: Listing)
    requires
        pc < binary_data.len(),
    ensures
        entry@ == first_listing(binary_data@.skip(pc as int), pc as nat),
        1 <= entry.bytes.len() <= 3,
        pc + entry.bytes.len() <= binary_data.len(),
{
    let ghost rest = binary_data@.skip(pc as int);
    let footprint: usize = match Opcode::from_code(word_code(binary_data[pc])) {
        None => 1,
        Some(op) => shape_footprint(shape(op)),
    };
    let n: usize = if footprint <= binary_data.len() - pc {
        footprint
    } else {
        binary_data.len() - pc
    };
    assert(n == consumed(rest));
    let mut bytes: Vec<u8> = Vec::new();
    let mut j: usize = 0;
    while j < n
        invariant
            j <= n,
            pc + n <= binary_data.len(),
            bytes@ == binary_data@.subrange(pc as int, pc + j),
        decreases n - j,
    {
        bytes.push(binary_data[pc + j]);
        assert(bytes@ =~= binary_data@.subrange(pc as int, pc + j + 1));
        j += 1;
    }
    assert(bytes@ =~= rest.take(n as int));
    let text = operation_to_text(&bytes);
    Listing { address: pc, bytes, text }
}

/// Returns the listing of `binary_data`, one entry for each instruction.
/// The bytes of the entries, in their order, are the data.
pub fn decode(binary_data: &[u8]) -> (result: Vec<Listing>)
    ensures
        result.deep_view() == decoded(binary_data@, 0),
        listed_bytes(result.deep_view()) == binary_data@,
        result.len() <= binary_data.len(),
{
    let mut result: Vec<Listing> = Vec::new();
    let mut pc: usize = 0;
    assert(binary_data@.skip(0) =~= binary_data@);
    while pc < binary_data.len()
        invariant
            pc <= binary_data.len(),
            decoded(binary_data@, 0) == result.deep_view() + decoded(
                binary_data@.skip(pc as int),
                pc as nat,
            ),
        decreases binary_data.len() - pc,
    {
        let ghost rest = binary_data@.skip(pc as int);
        let ghost before = result.deep_view();
        let entry = decode_at(binary_data, pc);
        let n: usize = entry.bytes.len();
        assert(n == consumed(rest));
        result.push(entry);
        pc += n;
        proof {
            assert(result.deep_view() =~= before.push(first_listing(rest, (pc - n) as nat)));
            assert(rest.skip(n as int) =~= binary_data@.skip(pc as int));
            assert(decoded(binary_data@, 0) =~= result.deep_view() + decoded(
                binary_data@.skip(pc as int),
                pc as nat,
            ));
        }
    }
    proof {
        assert(result.deep_view() + Seq::<ListingView>::empty() =~= result.deep_view());
        theorem_listing_covers(binary_data@, 0);
    }
    result
}

/// Returns the line for one entry of a listing.
pub fn listing_to_line(l: &Listing) -> (s: String)
    ensures
        s@ == listing_line(l@),
{
    let mut s = String::new();
    push_padded_hex(&mut s, l.address);
    s.append(": ");
    let ghost head = s@;
    let ghost groups = l.bytes@.map_values(|b: u8| binary(b));
    let mut k: usize = 0;
    while k < l.bytes.len()
        invariant
            k <= l.bytes.len(),
            head == padded_hex(l.address as nat) + ": "@,
            groups == l.bytes@.map_values(|b: u8| binary(b)),
            s@ == head + join(groups.take(k as int), " "@),
        decreases l.bytes.len() - k,
    {
        if k > 0 {
            s.append(" ");
        }
        push_binary(&mut s, l.bytes[k]);
        proof {
            let next = groups.take(k + 1);
            assert(next.drop_last() =~= groups.take(k as int));
            assert(s@ =~= head + join(next, " "@));
        }
        k += 1;
    }
    assert(groups.take(k as int) =~= groups);
    s.append(" ");
    s.append(l.text.as_str());
    s
}

/// Returns the listing of `binary_data` as text, one line for each
/// instruction.
pub fn disassemble(binary_data: &[u8]) -> (result: Vec<String>)
    ensures
        result.deep_view() == decoded(binary_data@, 0).map_values(
            |l: ListingView| listing_line(l),
        ),
{
    let listing = decode(binary_data);
    let mut result: Vec<String> = Vec::new();
    let ghost lines = decoded(binary_data@, 0).map_values(|l: ListingView| listing_line(l));
    let mut k: usize = 0;
    while k < listing.len()
        invariant
            k <= listing.len(),
            listing.deep_view() == decoded(binary_data@, 0),
            lines == decoded(binary_data@, 0).map_values(|l: ListingView| listing_line(l)),
            result.deep_view() == lines.take(k as int),
        decreases listing.len() - k,
    {
        let ghost before = result.deep_view();
        let line = listing_to_line(&listing[k]);
        result.push(line);
        proof {
            assert(listing.deep_view()[k as int] == listing[k as int]@);
            assert(result.deep_view() =~= before.push(line@));
            assert(result.deep_view() =~= lines.take(k + 1));
        }
        k += 1;
    }
    assert(lines.take(k as int) =~= lines);
    result
}

} // verus!
