//! Classifying one request and planning what the connection does next: a
//! malformed request is rejected, a form POST asks for its body, and
//! everything else is answered at once with the echoed request line.
use vstd::prelude::*;
use crate::headers::{content_length_of, content_length_spec};
use crate::response::{response_builder, response_of};
use crate::text::{ascii_seq, bytes_eq, push_all};
use crate::tokens::{tokenize, tokens_of};

verus! {

/// What the connection handler decides to do after the header block is in,
/// stated over the mathematical view of the request.
pub enum PlannedAction {
    /// Write this response and finish.
    RespondWith { resp: Seq<u8> },
    /// Read this many body bytes, then answer with the form response.
    ReadBodyBytes { count: nat },
    /// The request does not have the expected token shape: fail this
    /// connection without a response.
    RejectRequest,
}

/// The executable counterpart of `PlannedAction`.
pub enum RequestAction {
    Respond(Vec<u8>),
    ReadBody(usize),
    Reject,
}

/// The executable action carries exactly the planned one.
pub open spec fn action_matches(r: RequestAction, p: PlannedAction) -> bool {
    match r {
        RequestAction::Respond(v) => p matches PlannedAction::RespondWith { resp } && v@ == resp,
        RequestAction::ReadBody(n) => p matches PlannedAction::ReadBodyBytes { count } && n as nat
            == count,
        RequestAction::Reject => p is RejectRequest,
    }
}

/// The message echoed for the default branch: method, path and version are
/// the first three flat tokens of the request.
pub open spec fn plain_text_of(toks: Seq<Seq<u8>>) -> Seq<u8> {
    ascii_seq("This is a "@) + toks[0] + ascii_seq(" request with "@) + toks[1] + ascii_seq(
        " path and the http version is: "@,
    ) + toks[2]
}

/// The plan for a request whose header block has been read in full. Fewer
/// than seven flat tokens reject the request; a `POST` whose flat token 6 is
/// not `application/json` is a form request and needs its declared body;
/// everything else is answered at once.
pub open spec fn plan_spec(req: Seq<u8>) -> PlannedAction {
    let toks = tokens_of(req);
    if toks.len() < 7 {
        PlannedAction::RejectRequest
    } else if toks[0] == ascii_seq("POST"@) && toks[6] != ascii_seq("application/json"@) {
        PlannedAction::ReadBodyBytes { count: content_length_spec(req) }
    } else {
        PlannedAction::RespondWith { resp: response_of(plain_text_of(toks)) }
    }
}

/// `"POST"` as a byte vector.
fn post_bytes() -> (r: Vec<u8>)
    ensures
        r@ == ascii_seq("POST"@),
{
    let s = "POST";
    proof {
        reveal_strlit("POST");
    }
    crate::text::ascii_bytes(s)
}

/// `"application/json"` as a byte vector.
fn json_bytes() -> (r: Vec<u8>)
    ensures
        r@ == ascii_seq("application/json"@),
{
    let s = "application/json";
    proof {
        reveal_strlit("application/json");
    }
    crate::text::ascii_bytes(s)
}

/// Builds the default-branch message from the first three tokens.
fn plain_text(toks: &Vec<Vec<u8>>) -> (r: Vec<u8>)
    requires
        toks@.len() >= 3,
    ensures
        r@ == plain_text_of(toks.deep_view()),
{
    let s1 = "This is a ";
    let s2 = " request with ";
    let s3 = " path and the http version is: ";
    proof {
        reveal_strlit("This is a ");
        reveal_strlit(" request with ");
        reveal_strlit(" path and the http version is: ");
    }
    let mut r = crate::text::ascii_bytes(s1);
    push_all(&mut r, &toks[0]);
    let mut mid = crate::text::ascii_bytes(s2);
    r.append(&mut mid);
    push_all(&mut r, &toks[1]);
    let mut tail = crate::text::ascii_bytes(s3);
    r.append(&mut tail);
    push_all(&mut r, &toks[2]);
    proof {
        assert(toks@[0].deep_view() =~= toks@[0]@);
        assert(toks@[1].deep_view() =~= toks@[1]@);
        assert(toks@[2].deep_view() =~= toks@[2]@);
    }
    r
}

/// Reads the plan off a complete header block.
pub fn plan_request(request: &Vec<u8>) -> (r: RequestAction)
    ensures
        action_matches(r, plan_spec(request@)),
{
    let toks = tokenize(request);
    proof {
        assert(toks@.len() == toks.deep_view().len());
    }
    if toks.len() < 7 {
        return RequestAction::Reject;
    }
    proof {
        assert(toks@[0].deep_view() =~= toks@[0]@);
        assert(toks@[6].deep_view() =~= toks@[6]@);
    }
    let post = post_bytes();
    let json = json_bytes();
    if bytes_eq(toks[0].as_slice(), post.as_slice()) && !bytes_eq(
        toks[6].as_slice(),
        json.as_slice(),
    ) {
        let n = content_length_of(request);
        RequestAction::ReadBody(n)
    } else {
        let text = plain_text(&toks);
        RequestAction::Respond(response_builder(text))
    }
}

/// A `POST` whose flat token 6 is `application/json` takes the default
/// branch: its response echoes method, path and version like any other
/// non-form request.
pub proof fn lemma_json_post_default_branch(req: Seq<u8>)
    requires
        tokens_of(req).len() >= 7,
        tokens_of(req)[6] == ascii_seq("application/json"@),
    ensures
        plan_spec(req) == (PlannedAction::RespondWith {
            resp: response_of(plain_text_of(tokens_of(req))),
        }),
{
}

/// A request whose header block does not yield at least seven flat tokens —
/// in particular one with no token at flat position 4 or 6 — is rejected,
/// never parsed positionally.
pub proof fn lemma_short_request_rejected(req: Seq<u8>)
    requires
        tokens_of(req).len() < 7,
    ensures
        plan_spec(req) == PlannedAction::RejectRequest,
{
}

} // verus!
