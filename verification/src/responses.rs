//! The responses that the players gave in the course of a recorded duel.
use vstd::prelude::*;
use std::io::Cursor;
use binrw::{BinRead, BinWrite};
use vstd::slice::slice_subrange;
use crate::error::{ReadError, Refusal};

verus! {

/// The most bytes that a response may have.
pub const MAX_RESPONSE_SIZE: usize = 64;

/// The body of a replay, read response by response.
#[derive(Debug)]
pub struct Responses {
    body: Vec<u8>,
    position: usize,
}

/// A body and the place where the next response starts in it.
#[verifier::ext_equal]
pub struct ResponsesView {
    pub body: Seq<u8>,
    pub position: int,
}

impl View for Responses {
    type V = ResponsesView;

    closed spec fn view(&self) -> ResponsesView {
        ResponsesView { body: self.body@, position: self.position as int }
    }
}

/// What the next response is.
pub enum Next {
    /// There is none.
    End,
    /// These bytes.
    Response(Seq<u8>),
    /// What stands there is refused.
    Refused(Refusal),
}

/// Where the bytes of the response that starts at `at` end.
pub open spec fn response_end(body: Seq<u8>, at: int) -> int {
    at + 1 + body[at]
}

/// The response stored at `at`: its length, then its bytes; nothing if `body` ends inside it.
pub open spec fn response_at(body: Seq<u8>, at: int) -> Option<Seq<u8>> {
    if at < body.len() && response_end(body, at) <= body.len() {
        Some(body.subrange(at + 1, response_end(body, at)))
    } else {
        None
    }
}

impl ResponsesView {
    /// The position stands inside the body or at its end.
    pub open spec fn well_formed(self) -> bool {
        0 <= self.position <= self.body.len()
    }

    /// What the next response is.
    pub open spec fn next(self) -> Next {
        if self.position == self.body.len() {
            Next::End
        } else {
            match response_at(self.body, self.position) {
                Some(data) => if data.len() > MAX_RESPONSE_SIZE {
                    Next::Refused(Refusal::ResponseTooLong)
                } else {
                    Next::Response(data)
                },
                None => Next::Refused(Refusal::InvalidResponse),
            }
        }
    }

    /// What is left to read after the next response.
    ///
    /// A response that is too long is passed over; the end, and a response that the body
    /// ends inside of, are not.
    pub open spec fn advanced(self) -> ResponsesView {
        if response_at(self.body, self.position) is Some {
            ResponsesView {
                body: self.body,
                position: response_end(self.body, self.position),
            }
        } else {
            self
        }
    }
}

impl Responses {
    #[verifier::type_invariant]
    spec fn in_bounds(self) -> bool {
        self.position <= self.body.len()
    }

    /// Reads the responses of `body` from `position` on.
    pub fn new(body: Vec<u8>, position: usize) -> (responses: Responses)
        requires
            position <= body.len(),
        ensures
            responses@ == (ResponsesView { body: body@, position: position as int }),
            responses@.well_formed(),
    {
        Responses { body, position }
    }

    /// Where the next response starts.
    pub fn position(&self) -> (position: usize)
        ensures
            position == self@.position,
            self@.well_formed(),
    {
        proof {
            use_type_invariant(self);
        }
        self.position
    }

    /// The body that the responses are read from.
    pub fn body(&self) -> (body: &[u8])
        ensures
            body@ == self@.body,
    {
        self.body.as_slice()
    }
}

/// Calls the parser that `binrw` derives for `ygopro_data::data::ReplayData`, reading
/// little-endian from the start of `bytes`, and writes out the response that it finds.
/// Claimed: it fails exactly if `bytes` ends inside the response, and gives the response's
/// bytes otherwise. Which error it fails with is left open: its text names places in source
/// files.
#[verifier::external_body]
fn read_response(bytes: &[u8]) -> (r: Result<Vec<u8>, binrw::Error>)
    ensures
        match response_at(bytes@, 0) {
            Some(data) => r matches Ok(d) && d@ == data,
            None => r is Err,
        },
{
    let response = ygopro_data::data::ReplayData::read_le(&mut Cursor::new(bytes))?;
    let mut writer = Cursor::new(Vec::new());
    response.data.write_le(&mut writer)?;
    Ok(writer.into_inner())
}

/// Takes the next response, or nothing at the end of the body.
pub fn next_response(responses: &mut Responses) -> (r: Result<Option<Vec<u8>>, ReadError>)
    ensures
        old(responses)@.well_formed(),
        final(responses)@ == old(responses)@.advanced(),
        final(responses)@.well_formed(),
        final(responses)@.position <= usize::MAX,
        match old(responses)@.next() {
            Next::End => r matches Ok(None),
            Next::Response(data) => r matches Ok(Some(d)) && d@ == data,
            Next::Refused(refusal) => r matches Err(error) && error@ == refusal,
        },
{
    proof {
        use_type_invariant(&*responses);
    }
    let position: usize = responses.position;
    let size: usize = responses.body.len();
    if position == size {
        return Ok(None);
    }
    let rest = slice_subrange(responses.body.as_slice(), position, size);
    proof {
        lemma_response_in_rest(responses.body@, position as int);
    }
    match read_response(rest) {
        Ok(data) => {
            responses.position = position + 1 + data.len();
            if data.len() > MAX_RESPONSE_SIZE {
                return Err(ReadError::ResponseTooLong);
            }
            Ok(Some(data))
        },
        Err(error) => Err(ReadError::InvalidResponse(error)),
    }
}

/// A response is the same whether it is looked for in the whole body or in what is left.
proof fn lemma_response_in_rest(body: Seq<u8>, at: int)
    requires
        0 <= at < body.len(),
    ensures
        response_at(body, at) == response_at(body.subrange(at, body.len() as int), 0),
        response_at(body, at) matches Some(data) ==> response_end(body, at) == at + 1 + data.len(),
{
    let rest = body.subrange(at, body.len() as int);
    assert(rest[0] == body[at]);
    if response_end(body, at) <= body.len() {
        assert(rest.subrange(1, response_end(rest, 0)) =~= body.subrange(
            at + 1,
            response_end(body, at),
        ));
    }
}

/// The bytes that store responses one after another.
pub open spec fn responses_bytes(responses: Seq<Seq<u8>>) -> Seq<u8>
    decreases responses.len(),
{
    if responses.len() == 0 {
        Seq::empty()
    } else {
        seq![responses[0].len() as u8] + responses[0] + responses_bytes(responses.drop_first())
    }
}

/// What is left to read after the next `n` responses.
pub open spec fn after_responses(responses: ResponsesView, n: nat) -> ResponsesView
    decreases n,
{
    if n == 0 {
        responses
    } else {
        after_responses(responses.advanced(), (n - 1) as nat)
    }
}

/// Responses that are stored behind anything are taken one after another in their order,
/// and then the end is reached, for good.
pub proof fn law_responses_read_after_write(before: Seq<u8>, responses: Seq<Seq<u8>>, n: nat)
    requires
        forall|i: int|
            0 <= i < responses.len() ==> (#[trigger] responses[i]).len() <= MAX_RESPONSE_SIZE,
    ensures
        ({
            let start = ResponsesView {
                body: before + responses_bytes(responses),
                position: before.len() as int,
            };
            if n < responses.len() {
                after_responses(start, n).next() == Next::Response(responses[n as int])
            } else {
                after_responses(start, n).next() == Next::End
            }
        }),
    decreases n, responses.len(),
{
    let body = before + responses_bytes(responses);
    let start = ResponsesView { body, position: before.len() as int };
    if responses.len() == 0 {
        if n > 0 {
            assert(start.advanced() == start);
            law_responses_read_after_write(before, responses, (n - 1) as nat);
        }
    } else {
        let first = responses[0];
        let rest = responses.drop_first();
        let head = seq![first.len() as u8] + first;
        assert(responses_bytes(responses) == head + responses_bytes(rest));
        assert(body[before.len() as int] == first.len());
        assert(response_end(body, before.len() as int) == before.len() + head.len());
        assert(body.subrange(before.len() as int + 1, (before.len() + head.len()) as int) =~= first);
        assert(start.next() == Next::Response(first));
        if n > 0 {
            assert forall|i: int| 0 <= i < rest.len() implies (#[trigger] rest[i]).len()
                <= MAX_RESPONSE_SIZE by {
                assert(rest[i] == responses[i + 1]);
            }
            law_responses_read_after_write(before + head, rest, (n - 1) as nat);
            assert(body =~= (before + head) + responses_bytes(rest));
            assert(start.advanced() == (ResponsesView {
                body,
                position: (before + head).len() as int,
            }));
        }
    }
}

/// Reading responses never changes the body and never moves back or past its end.
pub proof fn law_responses_move_forward(responses: ResponsesView, n: nat)
    requires
        responses.well_formed(),
    ensures
        after_responses(responses, n).body == responses.body,
        after_responses(responses, n).well_formed(),
        responses.position <= after_responses(responses, n).position,
    decreases n,
{
    if n > 0 {
        law_responses_move_forward(responses.advanced(), (n - 1) as nat);
    }
}

/// What stands at the position decides, by its first byte: a response of at most 64 bytes
/// that the body holds in full is given, without that byte; a longer one is refused; so is
/// one that the body does not hold in full. Only a response that is held in full is passed.
pub proof fn law_next_response(responses: ResponsesView)
    requires
        responses.well_formed(),
    ensures
        ({
            let left = responses.body.skip(responses.position);
            let held = left.len() > 0 && left[0] < left.len();
            &&& responses.next() is End <==> left.len() == 0
            &&& responses.next() is Response <==> held && left[0] <= 64
            &&& responses.next() matches Next::Response(data) ==> data.len() == left[0]
                && forall|i: int| 0 <= i < data.len() ==> #[trigger] data[i] == left[i + 1]
            &&& left.len() > 0 && !held ==> responses.next() == Next::Refused(
                Refusal::InvalidResponse,
            )
            &&& held && left[0] > 64 ==> responses.next() == Next::Refused(
                Refusal::ResponseTooLong,
            )
            &&& responses.advanced().body == responses.body
            &&& responses.advanced().position == responses.position + if held {
                1 + left[0]
            } else {
                0int
            }
        }),
{
    let left = responses.body.skip(responses.position);
    if left.len() > 0 {
        assert(left[0] == responses.body[responses.position]);
    }
    if let Some(data) = response_at(responses.body, responses.position) {
        assert forall|i: int| 0 <= i < data.len() implies #[trigger] data[i] == left[i + 1] by {
            assert(data[i] == responses.body[responses.position + 1 + i]);
        }
    }
}

} // verus!
