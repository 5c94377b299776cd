//! APDU commands and responses, their wire form, and the decisions that
//! complete one logical exchange with a card.

use crate::error::CardError;
use vstd::prelude::*;
use vstd::slice::slice_subrange;
use vstd::slice::slice_to_vec;

verus! {

/// A command as a mathematical value.
pub struct CommandModel {
    pub class: u8,
    pub instruction: u8,
    pub param1: u8,
    pub param2: u8,
    pub data: Seq<u8>,
    pub length_expected: u8,
}

/// A response as a mathematical value.
pub struct ResponseModel {
    pub data: Seq<u8>,
    pub sw1: u8,
    pub sw2: u8,
}

/// An exchange under way as a mathematical value.
pub struct ExchangeModel {
    /// The command to transmit next.
    pub command: CommandModel,
    /// The response data gathered so far.
    pub data: Seq<u8>,
}

/// The next move of an exchange as a mathematical value.
pub enum StepModel {
    Transmit(ExchangeModel),
    Done(Result<ResponseModel, CardError>),
}

/// A command for a card.
#[derive(Debug, Clone, PartialEq)]
pub struct ApduCommand {
    class: u8,
    instruction: u8,
    param1: u8,
    param2: u8,
    data: Vec<u8>,
    length_expected: u8,
}

/// What a card answered: data and the two status bytes.
#[derive(Debug, Clone, PartialEq)]
pub struct ApduResponse {
    data: Vec<u8>,
    sw1: u8,
    sw2: u8,
}

/// An exchange under way: the command to transmit next, and the response
/// data gathered so far.
#[derive(Debug, Clone, PartialEq)]
pub struct ApduExchange {
    command: ApduCommand,
    data: Vec<u8>,
}

/// The next move of an exchange.
#[derive(Debug, PartialEq)]
pub enum ApduStep {
    /// Transmit the command of this exchange and hand its response back.
    Transmit(ApduExchange),
    /// The exchange is over, with this result.
    Done(Result<ApduResponse, CardError>),
}

impl View for ApduCommand {
    type V = CommandModel;

    closed spec fn view(&self) -> CommandModel {
        CommandModel {
            class: self.class,
            instruction: self.instruction,
            param1: self.param1,
            param2: self.param2,
            data: self.data@,
            length_expected: self.length_expected,
        }
    }
}

impl View for ApduResponse {
    type V = ResponseModel;

    closed spec fn view(&self) -> ResponseModel {
        ResponseModel { data: self.data@, sw1: self.sw1, sw2: self.sw2 }
    }
}

impl View for ApduExchange {
    type V = ExchangeModel;

    closed spec fn view(&self) -> ExchangeModel {
        ExchangeModel { command: self.command@, data: self.data@ }
    }
}

impl View for ApduStep {
    type V = StepModel;

    open spec fn view(&self) -> StepModel {
        match self {
            ApduStep::Transmit(exchange) => StepModel::Transmit(exchange@),
            ApduStep::Done(Ok(response)) => StepModel::Done(Ok(response@)),
            ApduStep::Done(Err(e)) => StepModel::Done(Err(*e)),
        }
    }
}

/// The bytes that a command is transmitted as: class, instruction and the
/// two parameters; for a command with data, one byte with the length of the
/// data (its low eight bits) and the data; the expected length.
pub open spec fn frame(command: CommandModel) -> Seq<u8> {
    let head = seq![command.class, command.instruction, command.param1, command.param2];
    let body = if command.data.len() > 0 {
        seq![(command.data.len() % 0x100) as u8] + command.data
    } else {
        Seq::empty()
    };
    head + body + seq![command.length_expected]
}

/// The most bytes that a response to the command can have: the expected
/// length, where zero asks for 256, and the two status bytes.
pub open spec fn receive_size(command: CommandModel) -> int {
    if command.length_expected == 0 {
        258
    } else {
        command.length_expected + 2
    }
}

/// What raw bytes from a card mean: the last two are the status, the bytes
/// before them the data. Fewer than two bytes are no response.
pub open spec fn parse_response(raw: Seq<u8>) -> Option<ResponseModel> {
    if raw.len() < 2 {
        None
    } else {
        Some(
            ResponseModel {
                data: raw.take(raw.len() - 2),
                sw1: raw[raw.len() - 2],
                sw2: raw[raw.len() - 1],
            },
        )
    }
}

/// What a final status means: `90 00` is success, `6A 81` an unsupported
/// feature, `6A 82` and `6A 83` a missing file, anything else unknown.
pub open spec fn status_result(sw1: u8, sw2: u8) -> Result<(), CardError> {
    if sw1 == 0x90 && sw2 == 0x00 {
        Ok(())
    } else if sw1 == 0x6a && sw2 == 0x81 {
        Err(CardError::UnsupportedFeature)
    } else if sw1 == 0x6a && (sw2 == 0x82 || sw2 == 0x83) {
        Err(CardError::FileNotFound)
    } else {
        Err(CardError::UnknownError)
    }
}

/// The command that fetches `available` pending bytes: `GET RESPONSE` in
/// the class of the command that it continues.
pub open spec fn get_response_command(class: u8, available: u8) -> CommandModel {
    CommandModel {
        class,
        instruction: 0xc0,
        param1: 0,
        param2: 0,
        data: Seq::empty(),
        length_expected: available,
    }
}

/// The move that follows a response.
///
/// - `61 xx`: the data is kept, and `GET RESPONSE` for `xx` bytes comes next.
/// - `6C xx`: the data is dropped, and the same command comes again with
///   `xx` for its expected length.
/// - Any other status ends the exchange: with all the data gathered and the
///   last status where that is `90 00`, with a failure otherwise.
pub open spec fn next_step(exchange: ExchangeModel, response: ResponseModel) -> StepModel {
    if response.sw1 == 0x61 {
        StepModel::Transmit(
            ExchangeModel {
                command: get_response_command(exchange.command.class, response.sw2),
                data: exchange.data + response.data,
            },
        )
    } else if response.sw1 == 0x6c {
        StepModel::Transmit(
            ExchangeModel {
                command: CommandModel { length_expected: response.sw2, ..exchange.command },
                data: exchange.data,
            },
        )
    } else {
        match status_result(response.sw1, response.sw2) {
            Ok(_) => StepModel::Done(
                Ok(
                    ResponseModel {
                        data: exchange.data + response.data,
                        sw1: response.sw1,
                        sw2: response.sw2,
                    },
                ),
            ),
            Err(e) => StepModel::Done(Err(e)),
        }
    }
}

/// Tells what a final status means.
pub fn resolve_status(sw1: u8, sw2: u8) -> (r: Result<(), CardError>)
    ensures
        r == status_result(sw1, sw2),
{
    match (sw1, sw2) {
        (0x90, 0x00) => Ok(()),
        (0x6a, 0x81) => Err(CardError::UnsupportedFeature),
        (0x6a, 0x82) | (0x6a, 0x83) => Err(CardError::FileNotFound),
        _ => Err(CardError::UnknownError),
    }
}

impl ApduCommand {
    /// A command with the given header, data and expected length.
    pub fn new(
        class: u8,
        instruction: u8,
        param1: u8,
        param2: u8,
        data: &[u8],
        length_expected: u8,
    ) -> (command: ApduCommand)
        ensures
            command@ == (CommandModel {
                class,
                instruction,
                param1,
                param2,
                data: data@,
                length_expected,
            }),
    {
        ApduCommand {
            class,
            instruction,
            param1,
            param2,
            data: slice_to_vec(data),
            length_expected,
        }
    }

    /// The bytes that the command is transmitted as.
    pub fn to_bytes(&self) -> (out: Vec<u8>)
        ensures
            out@ == frame(self@),
    {
        let mut out: Vec<u8> = vec![self.class, self.instruction, self.param1, self.param2];
        if self.data.len() > 0 {
            out.push((self.data.len() % 0x100) as u8);
            let mut data = slice_to_vec(self.data.as_slice());
            out.append(&mut data);
        }
        out.push(self.length_expected);
        assert(out@ =~= frame(self@));
        out
    }

    /// The size of the buffer that takes the response.
    pub fn receive_len(&self) -> (len: usize)
        ensures
            len == receive_size(self@),
    {
        if self.length_expected == 0 {
            258
        } else {
            self.length_expected as usize + 2
        }
    }
}

impl ApduResponse {
    /// Splits the raw bytes of a response into data and status.
    pub fn from_raw(raw: &[u8]) -> (response: Option<ApduResponse>)
        ensures
            match parse_response(raw@) {
                Some(model) => response matches Some(r) && r@ == model,
                None => response is None,
            },
    {
        let len = raw.len();
        if len < 2 {
            None
        } else {
            Some(
                ApduResponse {
                    data: slice_to_vec(slice_subrange(raw, 0, len - 2)),
                    sw1: raw[len - 2],
                    sw2: raw[len - 1],
                },
            )
        }
    }

    /// The data.
    pub fn data(&self) -> (data: &[u8])
        ensures
            data@ == self@.data,
    {
        self.data.as_slice()
    }

    /// The two status bytes.
    pub fn status(&self) -> (status: (&u8, &u8))
        ensures
            *status.0 == self@.sw1,
            *status.1 == self@.sw2,
    {
        (&self.sw1, &self.sw2)
    }
}

impl ApduExchange {
    /// The exchange that sends `command`, before anything was transmitted.
    pub fn start(command: &ApduCommand) -> (exchange: ApduExchange)
        ensures
            exchange@ == (ExchangeModel { command: command@, data: Seq::empty() }),
    {
        ApduExchange {
            command: ApduCommand {
                class: command.class,
                instruction: command.instruction,
                param1: command.param1,
                param2: command.param2,
                data: slice_to_vec(command.data.as_slice()),
                length_expected: command.length_expected,
            },
            data: Vec::new(),
        }
    }

    /// The command to transmit next.
    pub fn command(&self) -> (command: &ApduCommand)
        ensures
            command@ == self@.command,
    {
        &self.command
    }

    /// Takes the response to the command of this exchange and decides the
    /// next move.
    pub fn advance(self, response: ApduResponse) -> (step: ApduStep)
        ensures
            step@ == next_step(self@, response@),
    {
        let ApduExchange { command, data } = self;
        let ApduResponse { data: received, sw1, sw2 } = response;
        let mut data = data;
        let mut received = received;
        if sw1 == 0x61 {
            data.append(&mut received);
            ApduStep::Transmit(
                ApduExchange {
                    command: ApduCommand {
                        class: command.class,
                        instruction: 0xc0,
                        param1: 0x00,
                        param2: 0x00,
                        data: Vec::new(),
                        length_expected: sw2,
                    },
                    data,
                },
            )
        } else if sw1 == 0x6c {
            ApduStep::Transmit(
                ApduExchange {
                    command: ApduCommand {
                        class: command.class,
                        instruction: command.instruction,
                        param1: command.param1,
                        param2: command.param2,
                        data: command.data,
                        length_expected: sw2,
                    },
                    data,
                },
            )
        } else {
            match resolve_status(sw1, sw2) {
                Ok(_) => {
                    data.append(&mut received);
                    ApduStep::Done(Ok(ApduResponse { data, sw1, sw2 }))
                },
                Err(e) => ApduStep::Done(Err(e)),
            }
        }
    }
}

/// A final status of `90 00` is success and no other is; `6A 81` is an
/// unsupported feature; `6A 82` and `6A 83` are a missing file; every other
/// status is an unknown failure.
pub proof fn lemma_status_resolution(sw1: u8, sw2: u8)
    ensures
        status_result(sw1, sw2) is Ok <==> (sw1 == 0x90 && sw2 == 0x00),
        (sw1 == 0x6a && sw2 == 0x81) <==> status_result(sw1, sw2) == Err::<(), CardError>(
            CardError::UnsupportedFeature,
        ),
        (sw1 == 0x6a && (sw2 == 0x82 || sw2 == 0x83)) <==> status_result(sw1, sw2) == Err::<
            (),
            CardError,
        >(CardError::FileNotFound),
        !(sw1 == 0x90 && sw2 == 0x00) && !(sw1 == 0x6a && 0x81 <= sw2 <= 0x83) <==> status_result(
            sw1,
            sw2,
        ) == Err::<(), CardError>(CardError::UnknownError),
{
}


/// A response that announces pending data, followed by a response with
/// status `90 00`, ends the exchange with the data of both, in their
/// order, behind the data gathered before, and with status `90 00`. The
/// command in between is `GET RESPONSE` in the class of the command before
/// it, for as many bytes as were announced.
pub proof fn lemma_chaining(exchange: ExchangeModel, first: ResponseModel, second: ResponseModel)
    requires
        first.sw1 == 0x61,
        second.sw1 == 0x90,
        second.sw2 == 0x00,
    ensures
        next_step(exchange, first) matches StepModel::Transmit(then) && then.command
            == get_response_command(exchange.command.class, first.sw2) && next_step(then, second)
            == StepModel::Done(
            Ok(
                ResponseModel {
                    data: exchange.data + first.data + second.data,
                    sw1: 0x90,
                    sw2: 0x00,
                },
            ),
        ),
{
}

/// A response that corrects the expected length has the same command sent
/// once more, changed in its expected length only; where the response to
/// that ends the exchange, it ends it as if it had been the first one.
pub proof fn lemma_correction(exchange: ExchangeModel, first: ResponseModel, second: ResponseModel)
    requires
        first.sw1 == 0x6c,
        second.sw1 != 0x61,
        second.sw1 != 0x6c,
    ensures
        next_step(exchange, first) matches StepModel::Transmit(then) && then.command
            == (CommandModel { length_expected: first.sw2, ..exchange.command }) && next_step(
            then,
            second,
        ) == next_step(exchange, second),
{
}

} // verus!
