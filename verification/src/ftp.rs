//! Protocol replies: the fixed set of three-digit status codes and the
//! `Answer` value (a code plus a human-readable message) sent on the control
//! channel, one per protocol event.

use vstd::prelude::*;

verus! {

/// The status codes this server uses, mirroring the protocol's three-digit
/// reply codes. [`code_num`] gives each variant its numeric value.
#[derive(Clone, Copy, Debug, PartialEq, Eq, Structural)]
pub enum ResultCode {
    DataConnectionAlreadyOpen,
    FileStatusOk,
    Okay,
    CommandNotImplementedSuperfluousAtThisSite,
    SystemStatus,
    HelpMessage,
    SystemType,
    ServiceReadyForNewUser,
    ServiceClosingControlConnection,
    ClosingDataConnection,
    EnteringPassiveMode,
    UserLoggedIn,
    RequestedFileActionOkay,
    PATHNAMECreated,
    UserNameOkayNeedPassword,
    CantOpenDataConnection,
    ConnectionClosed,
    FileBusy,
    LocalErrorInProcessing,
    UnknownCommand,
    InvalidParameterOrArgument,
    CommandNotImplemented,
    BadSequenceOfCommands,
    CommandNotImplementedForThatParameter,
    NotLoggedIn,
    FileNotFound,
}

/// The numeric value of a reply code, as rendered on the wire.
pub open spec fn spec_code_num(code: ResultCode) -> u32 {
    match code {
        ResultCode::DataConnectionAlreadyOpen => 125,
        ResultCode::FileStatusOk => 150,
        ResultCode::Okay => 200,
        ResultCode::CommandNotImplementedSuperfluousAtThisSite => 202,
        ResultCode::SystemStatus => 211,
        ResultCode::HelpMessage => 214,
        ResultCode::SystemType => 215,
        ResultCode::ServiceReadyForNewUser => 220,
        ResultCode::ServiceClosingControlConnection => 221,
        ResultCode::ClosingDataConnection => 226,
        ResultCode::EnteringPassiveMode => 227,
        ResultCode::UserLoggedIn => 230,
        ResultCode::RequestedFileActionOkay => 250,
        ResultCode::PATHNAMECreated => 257,
        ResultCode::UserNameOkayNeedPassword => 331,
        ResultCode::CantOpenDataConnection => 425,
        ResultCode::ConnectionClosed => 426,
        ResultCode::FileBusy => 450,
        ResultCode::LocalErrorInProcessing => 451,
        ResultCode::UnknownCommand => 500,
        ResultCode::InvalidParameterOrArgument => 501,
        ResultCode::CommandNotImplemented => 502,
        ResultCode::BadSequenceOfCommands => 503,
        ResultCode::CommandNotImplementedForThatParameter => 504,
        ResultCode::NotLoggedIn => 530,
        ResultCode::FileNotFound => 550,
    }
}

/// Every reply code renders as exactly three digits.
pub proof fn lemma_code_num_three_digits(code: ResultCode)
    ensures
        100 <= spec_code_num(code) <= 999,
{
}

#[verifier::when_used_as_spec(spec_code_num)]
pub fn code_num(code: ResultCode) -> (n: u32)
    ensures
        n == spec_code_num(code),
{
    match code {
        ResultCode::DataConnectionAlreadyOpen => 125,
        ResultCode::FileStatusOk => 150,
        ResultCode::Okay => 200,
        ResultCode::CommandNotImplementedSuperfluousAtThisSite => 202,
        ResultCode::SystemStatus => 211,
        ResultCode::HelpMessage => 214,
        ResultCode::SystemType => 215,
        ResultCode::ServiceReadyForNewUser => 220,
        ResultCode::ServiceClosingControlConnection => 221,
        ResultCode::ClosingDataConnection => 226,
        ResultCode::EnteringPassiveMode => 227,
        ResultCode::UserLoggedIn => 230,
        ResultCode::RequestedFileActionOkay => 250,
        ResultCode::PATHNAMECreated => 257,
        ResultCode::UserNameOkayNeedPassword => 331,
        ResultCode::CantOpenDataConnection => 425,
        ResultCode::ConnectionClosed => 426,
        ResultCode::FileBusy => 450,
        ResultCode::LocalErrorInProcessing => 451,
        ResultCode::UnknownCommand => 500,
        ResultCode::InvalidParameterOrArgument => 501,
        ResultCode::CommandNotImplemented => 502,
        ResultCode::BadSequenceOfCommands => 503,
        ResultCode::CommandNotImplementedForThatParameter => 504,
        ResultCode::NotLoggedIn => 530,
        ResultCode::FileNotFound => 550,
    }
}

/// One reply on the control channel: a status code and a message. The codec
/// renders it as `<code> <message>` followed by CRLF, or `<code>` followed by
/// CRLF when the message is empty.
#[derive(Clone, Debug, PartialEq, Eq)]
pub struct Answer {
    pub code: ResultCode,
    pub message: String,
}

impl Answer {
    pub fn new(code: ResultCode, message: &str) -> (a: Answer)
        ensures
            a.code == code,
            a.message@ == message@,
    {
        Answer { code, message: message.to_owned() }
    }
}

} // verus!
