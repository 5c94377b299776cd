//! Byte comparison and the code tables of application names.

use encoding::all::ISO_8859_1;
use encoding::all::ISO_8859_10;
use encoding::all::ISO_8859_13;
use encoding::all::ISO_8859_14;
use encoding::all::ISO_8859_15;
use encoding::all::ISO_8859_16;
use encoding::all::ISO_8859_2;
use encoding::all::ISO_8859_3;
use encoding::all::ISO_8859_4;
use encoding::all::ISO_8859_5;
use encoding::all::ISO_8859_6;
use encoding::all::ISO_8859_7;
use encoding::all::ISO_8859_8;
use encoding::DecoderTrap;
use encoding::Encoding;
use vstd::prelude::*;
use vstd::std_specs::cmp::PartialEqSpec;

verus! {

/// The parts of ISO 8859 that an issuer code table index can name.
#[derive(Debug, Clone, Copy, PartialEq, Eq, Structural)]
pub enum CodeTable {
    Part1,
    Part2,
    Part3,
    Part4,
    Part5,
    Part6,
    Part7,
    Part8,
    Part10,
    Part13,
    Part14,
    Part15,
    Part16,
}

/// The number of the part of ISO 8859.
pub open spec fn part_number(table: CodeTable) -> u8 {
    match table {
        CodeTable::Part1 => 1,
        CodeTable::Part2 => 2,
        CodeTable::Part3 => 3,
        CodeTable::Part4 => 4,
        CodeTable::Part5 => 5,
        CodeTable::Part6 => 6,
        CodeTable::Part7 => 7,
        CodeTable::Part8 => 8,
        CodeTable::Part10 => 10,
        CodeTable::Part13 => 13,
        CodeTable::Part14 => 14,
        CodeTable::Part15 => 15,
        CodeTable::Part16 => 16,
    }
}

/// The code table that an index names: the part of ISO 8859 with that
/// number, for 1 to 8, 10 and 13 to 16, and none for any other index.
pub open spec fn code_table_of(index: u8) -> Option<CodeTable> {
    if index == 1 {
        Some(CodeTable::Part1)
    } else if index == 2 {
        Some(CodeTable::Part2)
    } else if index == 3 {
        Some(CodeTable::Part3)
    } else if index == 4 {
        Some(CodeTable::Part4)
    } else if index == 5 {
        Some(CodeTable::Part5)
    } else if index == 6 {
        Some(CodeTable::Part6)
    } else if index == 7 {
        Some(CodeTable::Part7)
    } else if index == 8 {
        Some(CodeTable::Part8)
    } else if index == 10 {
        Some(CodeTable::Part10)
    } else if index == 13 {
        Some(CodeTable::Part13)
    } else if index == 14 {
        Some(CodeTable::Part14)
    } else if index == 15 {
        Some(CodeTable::Part15)
    } else if index == 16 {
        Some(CodeTable::Part16)
    } else {
        None
    }
}

/// The text that the `encoding` crate decodes from bytes in the part of
/// ISO 8859 with the given number, with undefined bytes left out.
pub uninterp spec fn iso_8859_text(part: u8, data: Seq<u8>) -> Option<Seq<char>>;

/// The text of a name in the code table with the given index; none where
/// the index names no code table.
pub open spec fn code_table_text(data: Seq<u8>, index: u8) -> Option<Seq<char>> {
    match code_table_of(index) {
        Some(table) => iso_8859_text(part_number(table), data),
        None => None,
    }
}

/// The characters of a text that may be absent.
pub open spec fn text_of(text: Option<String>) -> Option<Seq<char>> {
    match text {
        Some(s) => Some(s@),
        None => None,
    }
}

/// `Encoding::decode` of the `encoding` crate, on its single-byte encoding
/// for the code table and with `DecoderTrap::Ignore`: the contract only
/// gives the decoded text its name.
#[verifier::external_body]
fn decode_in_table(table: CodeTable, data: &[u8]) -> (text: Option<String>)
    ensures
        text_of(text) == iso_8859_text(part_number(table), data@),
{
    match table {
        CodeTable::Part1 => ISO_8859_1, CodeTable::Part2 => ISO_8859_2,
        CodeTable::Part3 => ISO_8859_3, CodeTable::Part4 => ISO_8859_4,
        CodeTable::Part5 => ISO_8859_5, CodeTable::Part6 => ISO_8859_6,
        CodeTable::Part7 => ISO_8859_7, CodeTable::Part8 => ISO_8859_8,
        CodeTable::Part10 => ISO_8859_10, CodeTable::Part13 => ISO_8859_13,
        CodeTable::Part14 => ISO_8859_14, CodeTable::Part15 => ISO_8859_15,
        CodeTable::Part16 => ISO_8859_16,
    }.decode(data, DecoderTrap::Ignore).ok()
}

/// What it means for two strings of items to be the same: they are as long
/// as each other, and each item of the second equals the item of the first
/// in its place.
pub open spec fn same_items<T: PartialEq>(left: Seq<T>, right: Seq<T>) -> bool {
    left.len() == right.len() && forall|i: int|
        0 <= i < left.len() ==> (#[trigger] right[i]).eq_spec(&left[i])
}

/// Whether two strings of items are the same.
pub fn compare_slice<T: PartialEq>(left: &[T], right: &[T]) -> (same: bool)
    ensures
        T::obeys_eq_spec() ==> same == same_items(left@, right@),
{
    if left.len() != right.len() {
        return false;
    }
    let mut i: usize = 0;
    while i < left.len()
        invariant
            left@.len() == right@.len(),
            i <= left@.len(),
            T::obeys_eq_spec() ==> forall|k: int|
                0 <= k < i ==> (#[trigger] right@[k]).eq_spec(&left@[k]),
        decreases left@.len() - i,
    {
        if right[i] != left[i] {
            assert(T::obeys_eq_spec() ==> !right@[i as int].eq_spec(&left@[i as int]));
            return false;
        }
        i += 1;
    }
    true
}

/// Two byte strings are the same exactly where they are equal.
pub proof fn lemma_same_bytes(left: Seq<u8>, right: Seq<u8>)
    ensures
        same_items(left, right) == (left == right),
{
    if same_items(left, right) {
        assert(left =~= right);
    }
}

/// The code table that an index names.
pub fn code_table(index: u8) -> (table: Option<CodeTable>)
    ensures
        table == code_table_of(index),
{
    match index {
        1 => Some(CodeTable::Part1),
        2 => Some(CodeTable::Part2),
        3 => Some(CodeTable::Part3),
        4 => Some(CodeTable::Part4),
        5 => Some(CodeTable::Part5),
        6 => Some(CodeTable::Part6),
        7 => Some(CodeTable::Part7),
        8 => Some(CodeTable::Part8),
        10 => Some(CodeTable::Part10),
        13 => Some(CodeTable::Part13),
        14 => Some(CodeTable::Part14),
        15 => Some(CodeTable::Part15),
        16 => Some(CodeTable::Part16),
        _ => None,
    }
}

/// Decodes a name written in the code table with the given index; none
/// where the index names no code table.
pub fn code_table_index_decode(data: &[u8], index: u8) -> (text: Option<String>)
    ensures
        text_of(text) == code_table_text(data@, index),
{
    match code_table(index) {
        Some(table) => decode_in_table(table, data),
        None => None,
    }
}

} // verus!
