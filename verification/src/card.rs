//! The three commands of application selection.

use crate::apdu::ApduCommand;
use crate::apdu::CommandModel;
use vstd::prelude::*;

verus! {

/// The second parameter of `READ RECORD`: the low five bits of the short
/// file identifier in the high five bits, and `100` below them, which says
/// that the first parameter is a record number.
pub open spec fn record_reference(short_file_identifier: u8) -> u8 {
    (short_file_identifier & 0x1f) << 3 | 0x04
}

/// `SELECT` by name: the first application of that name, or the next one.
pub fn select_command(file_name: &[u8], next: bool) -> (command: ApduCommand)
    ensures
        command@ == (CommandModel {
            class: 0x00,
            instruction: 0xa4,
            param1: 0x04,
            param2: if next {
                0x02
            } else {
                0x00
            },
            data: file_name@,
            length_expected: 0,
        }),
{
    let param2: u8 = if next {
        0x02
    } else {
        0x00
    };
    ApduCommand::new(0x00, 0xa4, 0x04, param2, file_name, 0)
}

/// `READ RECORD` for one record of the file with the short identifier.
pub fn read_record_command(short_file_identifier: u8, record_number: u8) -> (command: ApduCommand)
    ensures
        command@ == (CommandModel {
            class: 0x00,
            instruction: 0xb2,
            param1: record_number,
            param2: record_reference(short_file_identifier),
            data: Seq::empty(),
            length_expected: 0,
        }),
{
    let empty: [u8; 0] = [];
    let param2: u8 = (short_file_identifier & 0x1f) << 3 | 0x04;
    let command = ApduCommand::new(0x00, 0xb2, record_number, param2, empty.as_slice(), 0);
    assert(command@.data =~= Seq::<u8>::empty());
    command
}

/// `GET PROCESSING OPTIONS` with the data that the card asked for.
pub fn get_processing_options_command(pdol: &[u8]) -> (command: ApduCommand)
    ensures
        command@ == (CommandModel {
            class: 0x80,
            instruction: 0xa8,
            param1: 0x00,
            param2: 0x00,
            data: pdol@,
            length_expected: 0,
        }),
{
    ApduCommand::new(0x80, 0xa8, 0x00, 0x00, pdol, 0)
}

} // verus!
