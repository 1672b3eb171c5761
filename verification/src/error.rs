//! What can be wrong with a replay.
use vstd::prelude::*;

verus! {

/// The error of a `binrw` parser or writer, carried along unread.
#[verifier::external_type_specification]
#[verifier::external_body]
pub struct ExBinrwError(binrw::Error);

/// The error of the LZMA decoder, carried along unread.
#[verifier::external_type_specification]
#[verifier::external_body]
pub struct ExLzmaError(lzma_rs::error::Error);

/// Why a replay, or one of its responses, was refused.
#[derive(Debug)]
pub enum ReadError {
    /// The file ends inside its header.
    InvalidHeader(binrw::Error),
    /// The header starts with none of the two known magic numbers.
    UnsupportedMagic(u32),
    /// Four players played in two teams.
    TagReplay,
    /// A puzzle played by one person.
    SingleModeReplay,
    /// The body is longer than the limit.
    BodyTooLarge,
    /// The packed body asks for a dictionary of this many bytes, too many for the machine.
    DictionaryTooLarge(u32),
    /// The packed body is no LZMA stream of the declared length.
    InvalidBody(lzma_rs::error::Error),
    /// The file ends before the declared length of its body.
    TruncatedBody,
    /// The body has another length than the declared one.
    BodySizeMismatch,
    /// The body ends inside its starting state.
    InvalidInitialState(binrw::Error),
    /// The body ends inside a response.
    InvalidResponse(binrw::Error),
    /// A response is longer than the limit.
    ResponseTooLong,
    /// The duel has options, given here, that cannot be reconstructed.
    UnsupportedOptions(u16),
}

/// Why a replay, or one of its responses, is refused, leaving aside what the parser had to
/// say about it.
pub enum Refusal {
    InvalidHeader,
    UnsupportedMagic(u32),
    TagReplay,
    SingleModeReplay,
    BodyTooLarge,
    DictionaryTooLarge(u32),
    InvalidBody,
    TruncatedBody,
    BodySizeMismatch,
    InvalidInitialState,
    InvalidResponse,
    ResponseTooLong,
    UnsupportedOptions(u16),
}

impl View for ReadError {
    type V = Refusal;

    open spec fn view(&self) -> Refusal {
        match self {
            ReadError::InvalidHeader(_) => Refusal::InvalidHeader,
            ReadError::UnsupportedMagic(id) => Refusal::UnsupportedMagic(*id),
            ReadError::TagReplay => Refusal::TagReplay,
            ReadError::SingleModeReplay => Refusal::SingleModeReplay,
            ReadError::BodyTooLarge => Refusal::BodyTooLarge,
            ReadError::DictionaryTooLarge(size) => Refusal::DictionaryTooLarge(*size),
            ReadError::InvalidBody(_) => Refusal::InvalidBody,
            ReadError::TruncatedBody => Refusal::TruncatedBody,
            ReadError::BodySizeMismatch => Refusal::BodySizeMismatch,
            ReadError::InvalidInitialState(_) => Refusal::InvalidInitialState,
            ReadError::InvalidResponse(_) => Refusal::InvalidResponse,
            ReadError::ResponseTooLong => Refusal::ResponseTooLong,
            ReadError::UnsupportedOptions(options) => Refusal::UnsupportedOptions(*options),
        }
    }
}

/// The view of an error tells what is wrong, and with what, whatever a parser had to say.
pub proof fn law_error_view(error: ReadError)
    ensures
        error@ is InvalidHeader <==> error is InvalidHeader,
        error@ is UnsupportedMagic <==> error is UnsupportedMagic,
        error matches ReadError::UnsupportedMagic(id) ==> error@ == Refusal::UnsupportedMagic(id),
        error@ is TagReplay <==> error is TagReplay,
        error@ is SingleModeReplay <==> error is SingleModeReplay,
        error@ is BodyTooLarge <==> error is BodyTooLarge,
        error@ is DictionaryTooLarge <==> error is DictionaryTooLarge,
        error matches ReadError::DictionaryTooLarge(size) ==> error@
            == Refusal::DictionaryTooLarge(size),
        error@ is InvalidBody <==> error is InvalidBody,
        error@ is TruncatedBody <==> error is TruncatedBody,
        error@ is BodySizeMismatch <==> error is BodySizeMismatch,
        error@ is InvalidInitialState <==> error is InvalidInitialState,
        error@ is InvalidResponse <==> error is InvalidResponse,
        error@ is ResponseTooLong <==> error is ResponseTooLong,
        error@ is UnsupportedOptions <==> error is UnsupportedOptions,
        error matches ReadError::UnsupportedOptions(options) ==> error@
            == Refusal::UnsupportedOptions(options),
{
}

} // verus!
