//! The form-data branch: the decoded body is wrapped in a fixed sentence,
//! the second `"; "`-separated segment of that sentence is split on
//! whitespace, and its first two tokens are rebuilt into the final message.
use vstd::prelude::*;
use crate::response::{response_builder, response_of};
use crate::scan::{find_pair, lemma_pair_pos, pair_at, pair_pos};
use crate::text::{ascii_bytes, ascii_seq, push_all};
use crate::tokens::{tokenize, tokens_of};
use vstd::slice::{slice_subrange, slice_to_vec};

verus! {

/// What `String::from_utf8_lossy` turns a byte sequence into, re-encoded as
/// bytes: a function of the input bytes alone.
pub uninterp spec fn lossy_utf8(bytes: Seq<u8>) -> Seq<u8>;

/// Relies on String::from_utf8_lossy: the result depends on the input bytes
/// alone, and valid UTF-8 — so in particular pure ASCII — passes through
/// unchanged.
#[verifier::external_body]
fn lossy_decode(bytes: &Vec<u8>) -> (r: Vec<u8>)
    ensures
        r@ == lossy_utf8(bytes@),
        vstd::utf8::valid_utf8(bytes@) ==> r@ == bytes@,
{
    String::from_utf8_lossy(bytes.as_slice()).into_owned().into_bytes()
}

/// The fixed sentence the form branch wraps around its data.
pub open spec fn form_prefix() -> Seq<u8> {
    ascii_seq("You are sending a form data with this info: "@)
}

/// `form_prefix` as a byte vector.
fn form_prefix_bytes() -> (r: Vec<u8>)
    ensures
        r@ == form_prefix(),
{
    let s = "You are sending a form data with this info: ";
    proof {
        reveal_strlit("You are sending a form data with this info: ");
    }
    ascii_bytes(s)
}

/// The literal put between the two rebuilt tokens.
pub open spec fn value_sep() -> Seq<u8> {
    ascii_seq(", value="@)
}

/// `value_sep` as a byte vector.
fn value_sep_bytes() -> (r: Vec<u8>)
    ensures
        r@ == value_sep(),
{
    let s = ", value=";
    proof {
        reveal_strlit(", value=");
    }
    ascii_bytes(s)
}

/// The second `"; "`-separated segment of `s`: what stands between the first
/// `"; "` and the next one or the end; `None` when `"; "` does not occur.
pub open spec fn second_segment(s: Seq<u8>) -> Option<Seq<u8>> {
    if pair_pos(s, 59, 32) < s.len() {
        let rest = s.skip(pair_pos(s, 59, 32) + 2);
        Option::Some(rest.take(pair_pos(rest, 59, 32)))
    } else {
        Option::None
    }
}

/// The final message of the form branch, from the decoded body text. With no
/// `"; "` in the wrapped sentence the transformed part is empty; with a
/// second segment of fewer than two whitespace tokens the transformation is
/// undefined (`None`); otherwise the first two tokens are rebuilt as
/// `token0, value=token1` and wrapped once more.
pub open spec fn form_message_spec(decoded: Seq<u8>) -> Option<Seq<u8>> {
    let wrapped = form_prefix() + decoded;
    match second_segment(wrapped) {
        Option::None => Option::Some(form_prefix()),
        Option::Some(seg) => {
            let vals = tokens_of(seg);
            if vals.len() >= 2 {
                Option::Some(form_prefix() + vals[0] + value_sep() + vals[1])
            } else {
                Option::None
            }
        },
    }
}

/// Computes the final form message from the decoded body text.
pub fn form_message(decoded: Vec<u8>) -> (r: Option<Vec<u8>>)
    ensures
        r.deep_view() == form_message_spec(decoded@),
{
    let ghost dv = decoded@;
    let mut wrapped = form_prefix_bytes();
    let mut tail = decoded;
    wrapped.append(&mut tail);
    let ghost w = wrapped@;
    proof {
        assert(w == form_prefix() + dv);
        assert(w.subrange(0, w.len() as int) =~= w);
    }
    let p = find_pair(&wrapped, 0, wrapped.len(), 59, 32);
    if p == wrapped.len() {
        let msg = form_prefix_bytes();
        let r = Option::Some(msg);
        proof {
            assert(pair_pos(w, 59, 32) == w.len());
        }
        return r;
    }
    proof {
        assert(pair_pos(w, 59, 32) < w.len());
        lemma_pair_pos(w, 59, 32);
        assert(pair_at(w, 59, 32, p as int));
        assert(p + 2 <= w.len());
    }
    let ghost rest = w.skip(pair_pos(w, 59, 32) + 2);
    proof {
        assert(rest =~= w.subrange(p + 2, w.len() as int));
    }
    let q = find_pair(&wrapped, p + 2, wrapped.len(), 59, 32);
    let seg = slice_to_vec(slice_subrange(wrapped.as_slice(), p + 2, q));
    proof {
        assert(seg@ =~= rest.take(pair_pos(rest, 59, 32)));
    }
    let vals = tokenize(&seg);
    if vals.len() < 2 {
        proof {
            assert(tokens_of(seg@).len() < 2);
        }
        return Option::None;
    }
    let mut msg = form_prefix_bytes();
    push_all(&mut msg, &vals[0]);
    let mut sep = value_sep_bytes();
    msg.append(&mut sep);
    push_all(&mut msg, &vals[1]);
    proof {
        assert(vals@[0].deep_view() =~= vals@[0]@);
        assert(vals@[1].deep_view() =~= vals@[1]@);
        assert(vals@[0]@ == tokens_of(seg@)[0]);
        assert(vals@[1]@ == tokens_of(seg@)[1]);
        assert(msg@ == form_prefix() + tokens_of(seg@)[0] + value_sep() + tokens_of(seg@)[1]);
    }
    Option::Some(msg)
}

/// What the form branch answers for the raw body bytes: the decoded body's
/// message, wrapped in the full HTTP response.
pub open spec fn form_response_spec(body: Seq<u8>) -> Option<Seq<u8>> {
    match form_message_spec(lossy_utf8(body)) {
        Option::Some(m) => Option::Some(response_of(m)),
        Option::None => Option::None,
    }
}

/// Decodes the raw body bytes leniently, transforms them, and builds the
/// response; `None` where the transformation is undefined.
pub fn form_response(body: &Vec<u8>) -> (r: Option<Vec<u8>>)
    ensures
        r.deep_view() == form_response_spec(body@),
{
    let decoded = lossy_decode(body);
    match form_message(decoded) {
        Option::Some(m) => Option::Some(response_builder(m)),
        Option::None => Option::None,
    }
}

} // verus!
