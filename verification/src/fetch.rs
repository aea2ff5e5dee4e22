//! One fetch, as a sequence of states: connect, judge the peer's
//! certificate, send the request line, receive, and either deliver the
//! response or follow a redirect into a fresh connection.
//!
//! The library decides; the caller performs. Each state offers one method
//! per thing that can happen in it, so that nothing can happen out of
//! order: no request line exists before the certificate was accepted, and
//! every hop of a redirect chain starts again at `Connecting`.

use vstd::prelude::*;
use crate::address::{
    _strip_protocol_from_url, gemini_prefix, has_scheme, host_of, host_part,
    lemma_redirect_request, lemma_resolved_is_plain, plain_host, plain_request, request_for,
    request_line, resolve, resolved_target, url_joined, without_scheme,
};
use crate::error::FetchError;
use crate::response::{crlf, parse_response, parsed_bytes};
use crate::status::StatusCode;
use crate::tofu::{store_after, tofu_handle_certificate, verdict_for, TrustStore, Verdict};

verus! {

/// The port a Gemini server listens on.
pub const GEMINI_PORT: u16 = 1965;

/// How many redirects one fetch follows before it gives up.
pub const MAX_REDIRECTS: u8 = 5;

/// The most bytes of a response that are read; what a peer sends beyond
/// them is left unread.
pub const MAX_RESPONSE_BYTES: usize = 16_777_216;

/// How many bytes may still be read when `received` were read already:
/// what is left up to `MAX_RESPONSE_BYTES`, and nothing beyond.
pub open spec fn allowance(received: usize) -> usize {
    if received < MAX_RESPONSE_BYTES {
        (MAX_RESPONSE_BYTES - received) as usize
    } else {
        0
    }
}

/// How many more bytes of a response may be read.
pub fn read_allowance(received: usize) -> (left: usize)
    ensures
        left == allowance(received),
        received + left <= MAX_RESPONSE_BYTES || left == 0,
{
    if received < MAX_RESPONSE_BYTES {
        MAX_RESPONSE_BYTES - received
    } else {
        0
    }
}

/// A response as the caller receives it.
#[derive(Debug, Clone, PartialEq, Eq)]
pub struct GeminiResponse {
    pub status: StatusCode,
    /// The header line's free text; its meaning depends on the status.
    pub meta: String,
    /// Everything after the header line, as it came. Meaningful for
    /// `Success` only.
    pub body: Vec<u8>,
}

/// Where a fetch stands in its chain of redirects. URLs are held without
/// a scheme: whatever schemes stand in front of a URL are removed where
/// it comes in, and what is held is taken as it is from then on.
#[derive(Debug, Clone, PartialEq, Eq)]
pub struct RedirectChain {
    /// The URL the fetch was asked for.
    pub origin: String,
    /// The URL now being fetched.
    pub current: String,
    /// How many more redirects may be followed.
    pub hops_remaining: u8,
}

/// What a received response asks of the fetch.
pub enum Step {
    /// Hand the response to the caller.
    Deliver,
    /// Fetch `target` next.
    Follow { target: Seq<char> },
    /// Give up.
    Fail { error: FetchError },
}

/// What a response with the given status and meta asks of a fetch that
/// stands at `current` with `hops` redirects left.
///
/// A malformed response or an unknown status ends the fetch. Any other
/// status but a redirect is delivered. A redirect with no hops left ends
/// the fetch; with hops left, it is followed to where its meta resolves.
pub open spec fn next_step(current: Seq<char>, hops: u8, status: StatusCode, meta: Seq<char>) -> Step {
    if status == StatusCode::ResponseError {
        Step::Fail { error: FetchError::ResponseFormatError }
    } else if status == StatusCode::StatusUnknown {
        Step::Fail { error: FetchError::UnknownStatus }
    } else if !status.spec_is_redirect() {
        Step::Deliver
    } else if hops == 0 {
        Step::Fail { error: FetchError::TooManyRedirects }
    } else {
        match resolved_target(current, meta) {
            Some(target) => Step::Follow { target },
            None => Step::Fail { error: FetchError::MalformedURL },
        }
    }
}

/// A fetch that is about to open a connection.
pub struct Connecting {
    chain: RedirectChain,
}

/// A fetch whose peer was accepted and whose request is to be written.
pub struct Sending {
    chain: RedirectChain,
}

/// A fetch whose request was written and whose response is awaited.
pub struct Receiving {
    chain: RedirectChain,
}

/// How a received response ends a hop.
pub enum Outcome {
    /// The fetch is over; here is its response.
    Done { response: GeminiResponse },
    /// The fetch goes on at another URL, on a new connection.
    Redirect { next: Connecting },
    /// The fetch is over without a response.
    Fail { error: FetchError },
}

/// Starts a fetch of `url`, which may or may not carry a scheme.
pub fn begin(url: &String) -> (state: Connecting)
    ensures
        state.chain().origin@ == without_scheme(url@),
        state.chain().current@ == without_scheme(url@),
        !has_scheme(state.chain().current@),
        state.chain().hops_remaining == MAX_REDIRECTS,
{
    let rest = _strip_protocol_from_url(url);
    Connecting {
        chain: RedirectChain { origin: rest.clone(), current: rest, hops_remaining: MAX_REDIRECTS },
    }
}

impl Connecting {
    /// Where the fetch stands.
    pub closed spec fn chain(&self) -> RedirectChain {
        self.chain
    }

    /// The URL to fetch, without a scheme.
    pub fn url(&self) -> (r: &String)
        ensures
            r@ == self.chain().current@,
    {
        &self.chain.current
    }

    /// How many more redirects this fetch may follow.
    pub fn hops_remaining(&self) -> (r: u8)
        ensures
            r == self.chain().hops_remaining,
    {
        self.chain.hops_remaining
    }

    /// The host to connect to: the URL up to its first `/`.
    pub fn host(&self) -> (r: String)
        ensures
            r@ == host_part(self.chain().current@),
            !r@.contains('/'),
    {
        plain_host(&self.chain.current)
    }

    /// The connection could not be opened.
    pub fn connect_failed(self) -> (error: FetchError)
        ensures
            error matches FetchError::TransportFailure { host } && host@ == host_part(
                self.chain().current@,
            ),
    {
        FetchError::TransportFailure { host: self.host() }
    }

    /// The connection was opened but the handshake failed.
    pub fn handshake_failed(self) -> (error: FetchError)
        ensures
            error == FetchError::TlsFailure,
    {
        FetchError::TlsFailure
    }

    /// The handshake is done and the peer presented `certificate`. The
    /// trust store judges it: on a refusal the fetch ends here, before
    /// anything is sent.
    pub fn connected(self, certificate: &Vec<u8>, store: &mut TrustStore, now: i64) -> (r: Result<
        Sending,
        FetchError,
    >)
        requires
            old(store).wf(),
        ensures
            final(store).wf(),
            final(store)@ == store_after(old(store)@, certificate@, now),
            match verdict_for(old(store)@, certificate@, now) {
                Verdict::Accept { kind } => r matches Ok(state) && state.chain() == self.chain(),
                Verdict::Reject { reason } => r matches Err(error) && error == (
                FetchError::CertRejected { reason }),
            },
    {
        after_handshake(self, tofu_handle_certificate(store, certificate, now))
    }
}

/// The step behind the handshake: a fetch whose peer was accepted may
/// send, and a fetch whose peer was refused ends with the reason.
pub fn after_handshake(state: Connecting, verdict: Verdict) -> (r: Result<Sending, FetchError>)
    ensures
        match verdict {
            Verdict::Accept { kind } => r matches Ok(next) && next.chain() == state.chain(),
            Verdict::Reject { reason } => r matches Err(error) && error == (
            FetchError::CertRejected { reason }),
        },
{
    match verdict {
        Verdict::Accept { .. } => Ok(Sending { chain: state.chain }),
        Verdict::Reject { reason } => Err(FetchError::CertRejected { reason }),
    }
}

impl Sending {
    /// Where the fetch stands.
    pub closed spec fn chain(&self) -> RedirectChain {
        self.chain
    }

    /// The one line to write, the whole request: `gemini://`, the URL as
    /// it is held, and CRLF.
    pub fn request(&self) -> (line: String)
        ensures
            line@ == plain_request(self.chain().current@),
    {
        request_for(&self.chain.current)
    }

    /// The request line was written.
    pub fn sent(self) -> (state: Receiving)
        ensures
            state.chain() == self.chain(),
    {
        Receiving { chain: self.chain }
    }

    /// The request line could not be written.
    pub fn send_failed(self) -> (error: FetchError)
        ensures
            error == FetchError::TlsFailure,
    {
        FetchError::TlsFailure
    }
}

impl Receiving {
    /// Where the fetch stands.
    pub closed spec fn chain(&self) -> RedirectChain {
        self.chain
    }

    /// The peer closed the connection after sending `raw`: whatever was
    /// read, complete or not.
    pub fn received(self, raw: &[u8]) -> (outcome: Outcome)
        ensures
            outcome_follows(
                self.chain(),
                parsed_bytes(raw@).0,
                parsed_bytes(raw@).1,
                parsed_bytes(raw@).2,
                outcome,
            ),
    {
        let (status, meta, body) = parse_response(raw);
        handle_redirect(self.chain, GeminiResponse { status, meta, body })
    }
}

/// Whether `outcome` is what a response with the given parts leads to from
/// `chain`: the response itself where it is to be delivered, a new
/// connection to the resolved target with one hop less where it is to be
/// followed, and the failure otherwise.
pub open spec fn outcome_follows(
    chain: RedirectChain,
    status: StatusCode,
    meta: Seq<char>,
    body: Seq<u8>,
    outcome: Outcome,
) -> bool {
    match next_step(chain.current@, chain.hops_remaining, status, meta) {
        Step::Deliver => outcome matches Outcome::Done { response } && response.status == status
            && response.meta@ == meta && response.body@ == body,
        Step::Follow { target } => outcome matches Outcome::Redirect { next } && next.chain().origin@
            == chain.origin@ && next.chain().current@ == target && next.chain().hops_remaining
            == chain.hops_remaining - 1,
        Step::Fail { error } => outcome matches Outcome::Fail { error: e } && e == error,
    }
}

/// Decides what a response means for the fetch: deliver it, follow it, or
/// give up.
pub fn handle_redirect(chain: RedirectChain, response: GeminiResponse) -> (outcome: Outcome)
    ensures
        outcome_follows(chain, response.status, response.meta@, response.body@, outcome),
{
    match response.status {
        StatusCode::ResponseError => Outcome::Fail { error: FetchError::ResponseFormatError },
        StatusCode::StatusUnknown => Outcome::Fail { error: FetchError::UnknownStatus },
        StatusCode::RedirectTemp | StatusCode::RedirectPerm => {
            if chain.hops_remaining == 0 {
                return Outcome::Fail { error: FetchError::TooManyRedirects };
            }
            match resolve(&chain.current, &response.meta) {
                Ok(target) => Outcome::Redirect {
                    next: Connecting {
                        chain: RedirectChain {
                            origin: chain.origin,
                            current: target,
                            hops_remaining: chain.hops_remaining - 1,
                        },
                    },
                },
                Err(error) => Outcome::Fail { error },
            }
        },
        _ => Outcome::Done { response },
    }
}

/// A fetch played out on paper: from `current` with `hops` redirects left,
/// the responses arrive one after the other, each given by its status and
/// meta. The result is how many redirects were followed, and the step
/// that ended the fetch, if it ended before the responses ran out.
pub open spec fn chain_run(current: Seq<char>, hops: u8, responses: Seq<(StatusCode, Seq<char>)>) -> (
    nat,
    Option<Step>,
)
    decreases responses.len(),
{
    if responses.len() == 0 {
        (0, None)
    } else {
        match next_step(current, hops, responses[0].0, responses[0].1) {
            Step::Follow { target } => {
                let rest = chain_run(target, (hops - 1) as u8, responses.drop_first());
                (rest.0 + 1, rest.1)
            },
            end => (0, Some(end)),
        }
    }
}

/// Every response in the run is a redirect whose target resolves against
/// the URL that led to it.
pub open spec fn redirects_forever(current: Seq<char>, responses: Seq<(StatusCode, Seq<char>)>) -> bool
    decreases responses.len(),
{
    if responses.len() == 0 {
        true
    } else {
        &&& responses[0].0.spec_is_redirect()
        &&& resolved_target(current, responses[0].1) matches Some(target) && redirects_forever(
            target,
            responses.drop_first(),
        )
    }
}

/// A fetch never follows more redirects than it had hops left, whatever
/// the peers answer.
pub proof fn lemma_hops_bounded(current: Seq<char>, hops: u8, responses: Seq<(StatusCode, Seq<char>)>)
    ensures
        chain_run(current, hops, responses).0 <= hops,
    decreases responses.len(),
{
    if responses.len() > 0 {
        match next_step(current, hops, responses[0].0, responses[0].1) {
            Step::Follow { target } => {
                lemma_hops_bounded(target, (hops - 1) as u8, responses.drop_first());
            },
            _ => {},
        }
    }
}

/// Following a redirect costs one hop: the next connection is made with
/// one hop less than the response was received with.
pub proof fn lemma_hops_decrease(
    chain: RedirectChain,
    status: StatusCode,
    meta: Seq<char>,
    body: Seq<u8>,
    outcome: Outcome,
)
    requires
        outcome_follows(chain, status, meta, body, outcome),
        outcome is Redirect,
    ensures
        chain.hops_remaining > 0,
        outcome->next.chain().hops_remaining == chain.hops_remaining - 1,
        outcome->next.chain().hops_remaining < chain.hops_remaining,
{
}

/// Where every response is a redirect that resolves, and more responses
/// arrive than there are hops, the fetch follows exactly as many
/// redirects as it had hops and then ends with `TooManyRedirects`.
pub proof fn lemma_endless_redirects(current: Seq<char>, hops: u8, responses: Seq<(StatusCode, Seq<char>)>)
    requires
        redirects_forever(current, responses),
        responses.len() > hops,
    ensures
        chain_run(current, hops, responses) == (
            hops as nat,
            Some(Step::Fail { error: FetchError::TooManyRedirects }),
        ),
    decreases responses.len(),
{
    if hops > 0 {
        let target = resolved_target(current, responses[0].1)->0;
        lemma_endless_redirects(target, (hops - 1) as u8, responses.drop_first());
    }
}

/// A fetch that meets nothing but redirects follows five of them and ends
/// with `TooManyRedirects` on the next; it never follows a sixth.
pub proof fn lemma_five_hops(url: Seq<char>, responses: Seq<(StatusCode, Seq<char>)>)
    requires
        redirects_forever(without_scheme(url), responses),
        responses.len() >= 6,
    ensures
        chain_run(without_scheme(url), MAX_REDIRECTS, responses) == (
            5nat,
            Some(Step::Fail { error: FetchError::TooManyRedirects }),
        ),
{
    lemma_endless_redirects(without_scheme(url), MAX_REDIRECTS, responses);
}

/// The first hop of a fetch connects to the host of the URL it was asked
/// for and sends that URL, without the scheme it came with, behind
/// `gemini://`: a `://` further back in the URL changes neither.
pub proof fn lemma_first_hop(url: Seq<char>)
    ensures
        host_part(without_scheme(url)) == host_of(url),
        plain_request(without_scheme(url)) == request_line(url),
        plain_request(without_scheme(url)) == gemini_prefix() + without_scheme(url) + crlf(),
{
}

/// Where a redirect is followed, the URL it leads to has no scheme in
/// front: what a fetch holds is scheme-less at every hop.
pub proof fn lemma_followed_url_is_plain(current: Seq<char>, hops: u8, status: StatusCode, meta: Seq<char>)
    ensures
        next_step(current, hops, status, meta) matches Step::Follow { target } ==> !has_scheme(
            target,
        ),
{
    lemma_resolved_is_plain(current, meta);
}

/// Where a redirect is received with hops left, and the join of the
/// current URL and the redirect's meta is the Gemini URL of `plain`, the
/// fetch goes on at `plain`, and the line that requests it is
/// `gemini://`, `plain` and CRLF: the joined URL and CRLF.
pub proof fn lemma_redirect_line(
    current: Seq<char>,
    hops: u8,
    status: StatusCode,
    meta: Seq<char>,
    plain: Seq<char>,
)
    requires
        status.spec_is_redirect(),
        hops > 0,
        !has_scheme(plain),
        url_joined(gemini_prefix() + current, meta) matches Some(joined) && joined.0
            == gemini_prefix() + plain,
    ensures
        next_step(current, hops, status, meta) == (Step::Follow { target: plain }),
        plain_request(plain) == gemini_prefix() + plain + crlf(),
{
    lemma_redirect_request(current, meta, plain);
}

} // verus!
