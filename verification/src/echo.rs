use vstd::prelude::*;

use crate::cert::{x509_parses, PeerIdentity};
use crate::errors::CertificateParseError;
use crate::frame::{copy_range, RequestFrame, ResponseFrame};
use crate::session::{extract, Session};

verus! {

/// What the echo handler returns for a request payload: the payload itself.
pub open spec fn echo_spec(msg: Seq<u8>) -> Seq<u8> {
    msg
}

/// The echo service: answers each request with its own message. The caller's
/// identity is available for authorization decisions; this handler makes
/// none beyond the mutual authentication already enforced before any request
/// reaches it.
pub struct EchoServer;

impl Default for EchoServer {
    fn default() -> (r: Self)
        ensures
            r == (EchoServer {  }),
    {
        EchoServer
    }
}

impl EchoServer {
    /// Answer one decoded request from an authenticated caller: the response
    /// carries the request's message unchanged.
    pub fn handle(&self, request: &RequestFrame, _caller: &PeerIdentity) -> (r: ResponseFrame)
        ensures
            r@ == echo_spec(request@),
    {
        let message = copy_range(&request.message, 0, request.message.len());
        proof {
            assert(request.message@.subrange(0, request.message@.len() as int)
                =~= request.message@);
        }
        ResponseFrame { message }
    }

    /// Serve one unary echo call on an authenticated session: decode the
    /// caller's identity from the session's leaf certificate, then echo the
    /// request. Fails exactly where the leaf cannot be decoded, and such a
    /// failure surfaces as a typed error, never a crash.
    pub fn unary_echo(&self, request: &RequestFrame, session: &Session) -> (r: Result<
        ResponseFrame,
        CertificateParseError,
    >)
        requires
            session.wf(),
        ensures
            (r is Ok) == x509_parses(session.peer_chain@[0]@),
            (match r {
                Ok(resp) => resp@ == echo_spec(request@),
                Err(_) => true,
            }),
    {
        let caller = match extract(session) {
            Ok(id) => id,
            Err(e) => {
                return Err(e);
            },
        };
        Ok(self.handle(request, &caller))
    }
}

/// The echo handler is a pure function: any two responses that its contract
/// admits for the same request are the same, whoever the caller is and
/// however often it is called.
pub proof fn lemma_echo_idempotent(request: Seq<u8>, r1: Seq<u8>, r2: Seq<u8>)
    requires
        r1 == echo_spec(request),
        r2 == echo_spec(request),
    ensures
        r1 == r2,
{
}

} // verus!
