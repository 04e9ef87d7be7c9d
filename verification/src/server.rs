use vstd::prelude::*;

use crate::protocol::address::{spec_parse_address, Address, AddressParse};
use crate::protocol::codec::all_hex;
use crate::protocol::header::{
    lemma_header_encode_then_parse, lemma_header_parse_error_final, lemma_header_parse_prefix,
    lemma_header_prefix_incomplete, password_accepted, spec_encode_header, spec_try_parse_header,
    Header, HeaderView, PEEK_SIZE,
};

verus! {

/// What to do next with a new connection, judging from the bytes peeked so far.
#[derive(Debug)]
pub enum PeekAction {
    /// Read up to this many more bytes.
    ReadMore(usize),
    /// Authenticated: proxy for this header, whose encoding ends at the given
    /// offset in the peeked bytes (what follows is payload).
    Proxy(Header, usize),
    /// Relay the connection, peeked bytes first, to the fallback backend.
    Fallback,
    /// The client sent nothing: close quietly.
    Drop,
}

/// Mathematical view of a dispatch decision.
pub enum PeekActionView {
    ReadMore(nat),
    Proxy(HeaderView, nat),
    Fallback,
    Drop,
}

impl View for PeekAction {
    type V = PeekActionView;

    open spec fn view(&self) -> PeekActionView {
        match self {
            PeekAction::ReadMore(n) => PeekActionView::ReadMore(*n as nat),
            PeekAction::Proxy(h, e) => PeekActionView::Proxy(h@, *e as nat),
            PeekAction::Fallback => PeekActionView::Fallback,
            PeekAction::Drop => PeekActionView::Drop,
        }
    }
}

/// The decision for peeked bytes: proxy a complete header whose password is
/// configured; relay anything else that is complete or malformed, or that
/// has reached the peek limit, to the fallback; otherwise read on up to the
/// peek limit.
pub open spec fn spec_next_peek_action(peeked: Seq<u8>, passwords: Seq<String>) -> PeekActionView {
    match spec_try_parse_header(peeked) {
        Ok(Some((h, end))) => if password_accepted(passwords, h.password_hash) {
            PeekActionView::Proxy(h, end)
        } else {
            PeekActionView::Fallback
        },
        Err(_) => PeekActionView::Fallback,
        Ok(None) => if peeked.len() >= PEEK_SIZE {
            PeekActionView::Fallback
        } else {
            PeekActionView::ReadMore((PEEK_SIZE - peeked.len()) as nat)
        },
    }
}

/// Where the header ends in `buf`, located by re-parsing its address; the whole
/// buffer when no address can be found there.
pub open spec fn spec_header_end(buf: Seq<u8>) -> int {
    if buf.len() <= 59 {
        buf.len() as int
    } else {
        match spec_parse_address(buf.subrange(59, buf.len() as int)) {
            AddressParse::Parsed(_, n) => 59 + n as int + 2,
            _ => buf.len() as int,
        }
    }
}

/// Decides what to do with a connection given the bytes peeked so far.
pub fn next_peek_action(peeked: &[u8], passwords: &[String]) -> (r: PeekAction)
    ensures
        r@ == spec_next_peek_action(peeked@, passwords@),
{
    match Header::try_parse_from_buf(peeked) {
        Ok(Some(h)) => {
            if h.verify_password(passwords) {
                let end = compute_header_end(&h, peeked);
                PeekAction::Proxy(h, end)
            } else {
                PeekAction::Fallback
            }
        },
        Err(_) => PeekAction::Fallback,
        Ok(None) => {
            if peeked.len() >= PEEK_SIZE {
                PeekAction::Fallback
            } else {
                PeekAction::ReadMore(PEEK_SIZE - peeked.len())
            }
        },
    }
}

/// Decides what to do when the client closes its side while bytes are being
/// peeked: drop a connection that sent nothing, otherwise fall back.
pub fn peek_action_at_eof(peeked: &[u8]) -> (r: PeekAction)
    ensures
        peeked@.len() == 0 ==> r@ == PeekActionView::Drop,
        peeked@.len() > 0 ==> r@ == PeekActionView::Fallback,
{
    if peeked.len() == 0 {
        PeekAction::Drop
    } else {
        PeekAction::Fallback
    }
}

/// The offset in `buf` where the header ends: hash, CRLF and command byte, then
/// the address (re-parsed to find its length), then CRLF.
pub fn compute_header_end(_header: &Header, buf: &[u8]) -> (end: usize)
    ensures
        end == spec_header_end(buf@),
{
    let addr_start: usize = 56 + 2 + 1;
    if buf.len() <= addr_start {
        return buf.len();
    }
    match Address::parse_from_buf(&buf[addr_start..buf.len()]) {
        Ok((_, Some(addr_len))) => addr_start + addr_len + 2,
        _ => buf.len(),
    }
}

/// A connection is proxied only for a complete header whose password is
/// configured, and the offset reported is where that header's encoding ends,
/// within the peeked bytes.
pub proof fn lemma_proxy_only_authenticated(peeked: Seq<u8>, passwords: Seq<String>)
    ensures
        spec_next_peek_action(peeked, passwords) matches PeekActionView::Proxy(h, end) ==> {
            &&& spec_try_parse_header(peeked) == Ok::<Option<(HeaderView, nat)>, crate::error::TrojanErrorView>(Some((h, end)))
            &&& password_accepted(passwords, h.password_hash)
            &&& end == spec_header_end(peeked)
            &&& end <= peeked.len()
        },
{
}

/// A client whose header parses but whose password is not configured is relayed
/// to the fallback, whatever else it sends.
pub proof fn lemma_wrong_password_falls_back(peeked: Seq<u8>, more: Seq<u8>, passwords: Seq<String>)
    requires
        spec_try_parse_header(peeked) matches Ok(Some((h, _))) && !password_accepted(
            passwords,
            h.password_hash,
        ),
    ensures
        spec_next_peek_action(peeked, passwords) == PeekActionView::Fallback,
        spec_next_peek_action(peeked + more, passwords) == PeekActionView::Fallback,
{
    lemma_header_parse_prefix(peeked, more);
}

/// Bytes that cannot start a header are relayed to the fallback, whatever else
/// the client sends.
pub proof fn lemma_malformed_falls_back(peeked: Seq<u8>, more: Seq<u8>, passwords: Seq<String>)
    requires
        spec_try_parse_header(peeked) is Err,
    ensures
        spec_next_peek_action(peeked, passwords) == PeekActionView::Fallback,
        spec_next_peek_action(peeked + more, passwords) == PeekActionView::Fallback,
{
    lemma_header_parse_error_final(peeked, more);
}

/// Reads never take the peeked bytes past the peek limit.
pub proof fn lemma_peek_bounded(peeked: Seq<u8>, passwords: Seq<String>)
    ensures
        spec_next_peek_action(peeked, passwords) matches PeekActionView::ReadMore(n) ==> n > 0
            && peeked.len() + n == PEEK_SIZE,
{
}

/// A client that sends its header with a configured password, followed by any
/// payload, is proxied for that header, and the payload handed on starts right
/// after the header's encoding.
pub proof fn lemma_authenticated_client_proxied(h: Header, rest: Seq<u8>, passwords: Seq<String>)
    requires
        all_hex(h.password_hash@),
        spec_encode_header(h@) is Some,
        password_accepted(passwords, h.password_hash@),
    ensures
        spec_next_peek_action(spec_encode_header(h@).unwrap() + rest, passwords)
            == PeekActionView::Proxy(h@, spec_encode_header(h@).unwrap().len()),
{
    lemma_header_encode_then_parse(h, rest);
}

/// While a client's header has only partly arrived, the server reads on; it is
/// never sent to the fallback for arriving in pieces.
pub proof fn lemma_partial_header_reads_on(h: Header, p: Seq<u8>, passwords: Seq<String>)
    requires
        all_hex(h.password_hash@),
        spec_encode_header(h@) is Some,
        p.len() < spec_encode_header(h@).unwrap().len(),
        p == spec_encode_header(h@).unwrap().subrange(0, p.len() as int),
    ensures
        spec_next_peek_action(p, passwords) == PeekActionView::ReadMore(
            (PEEK_SIZE - p.len()) as nat,
        ),
{
    lemma_header_prefix_incomplete(h, p);
}

} // verus!
