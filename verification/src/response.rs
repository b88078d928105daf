//! Building the HTTP response: the fixed HTML skeleton around the message
//! text, and the status line and headers around the HTML body, with the
//! `Content-Length` header derived from the body's exact byte length.
use vstd::prelude::*;
use crate::digits::{all_digits, dec_digits, decimal_bytes, digits_value, lemma_dec_digits_value};
use crate::text::{ascii_bytes, ascii_seq};

verus! {

/// The fixed part of the HTML page before the message text.
pub open spec fn html_pre() -> Seq<u8> {
    ascii_seq(
        "<!DOCTYPE html><html><head><title>Hello</title></head><body><h1>Hello, World!</h1><p>"@,
    )
}

/// The fixed part of the HTML page after the message text.
pub open spec fn html_post() -> Seq<u8> {
    ascii_seq("</p></body></html>"@)
}

/// The HTML page carrying the message text.
pub open spec fn html_of(text: Seq<u8>) -> Seq<u8> {
    html_pre() + text + html_post()
}

/// The status line and headers up to the `Content-Length` value.
pub open spec fn resp_pre() -> Seq<u8> {
    ascii_seq("HTTP/1.1 200 OK\r\nContent-Type: text/html; charset=UTF-8\r\nContent-Length: "@)
}

/// The headers after the `Content-Length` value, up to and including the
/// blank line before the body.
pub open spec fn resp_mid() -> Seq<u8> {
    ascii_seq("\r\nDate: Mon, 12 Aug 2024 10:15:30 GMT\r\nServer: CustomRustServer/0.1\r\n\r\n"@)
}

/// The whole response for a message text: status line and headers, the
/// decimal byte length of the HTML body as `Content-Length`, then the body.
pub open spec fn response_of(text: Seq<u8>) -> Seq<u8> {
    resp_pre() + dec_digits(html_of(text).len()) + resp_mid() + html_of(text)
}

/// `html_pre` as a byte vector.
fn html_pre_bytes() -> (r: Vec<u8>)
    ensures
        r@ == html_pre(),
{
    let s = "<!DOCTYPE html><html><head><title>Hello</title></head><body><h1>Hello, World!</h1><p>";
    proof {
        reveal_strlit(
            "<!DOCTYPE html><html><head><title>Hello</title></head><body><h1>Hello, World!</h1><p>",
        );
    }
    ascii_bytes(s)
}

/// `html_post` as a byte vector.
fn html_post_bytes() -> (r: Vec<u8>)
    ensures
        r@ == html_post(),
{
    let s = "</p></body></html>";
    proof {
        reveal_strlit("</p></body></html>");
    }
    ascii_bytes(s)
}

/// `resp_pre` as a byte vector.
fn resp_pre_bytes() -> (r: Vec<u8>)
    ensures
        r@ == resp_pre(),
{
    let s = "HTTP/1.1 200 OK\r\nContent-Type: text/html; charset=UTF-8\r\nContent-Length: ";
    proof {
        reveal_strlit(
            "HTTP/1.1 200 OK\r\nContent-Type: text/html; charset=UTF-8\r\nContent-Length: ",
        );
    }
    ascii_bytes(s)
}

/// `resp_mid` as a byte vector.
fn resp_mid_bytes() -> (r: Vec<u8>)
    ensures
        r@ == resp_mid(),
{
    let s = "\r\nDate: Mon, 12 Aug 2024 10:15:30 GMT\r\nServer: CustomRustServer/0.1\r\n\r\n";
    proof {
        reveal_strlit(
            "\r\nDate: Mon, 12 Aug 2024 10:15:30 GMT\r\nServer: CustomRustServer/0.1\r\n\r\n",
        );
    }
    ascii_bytes(s)
}

/// Builds the complete HTTP response around a message text.
pub fn response_builder(text: Vec<u8>) -> (r: Vec<u8>)
    ensures
        r@ == response_of(text@),
{
    let ghost text_view = text@;
    let mut body = html_pre_bytes();
    let mut mid = text;
    body.append(&mut mid);
    let mut post = html_post_bytes();
    body.append(&mut post);
    proof {
        assert(body@ =~= html_of(text_view));
    }
    let n = body.len();
    let mut r = resp_pre_bytes();
    let mut digits = decimal_bytes(n);
    r.append(&mut digits);
    let mut tail = resp_mid_bytes();
    r.append(&mut tail);
    r.append(&mut body);
    proof {
        assert(r@ =~= response_of(text_view));
    }
    r
}

/// The `Content-Length` digits in the response denote exactly the byte
/// length of the HTML body that follows them.
pub proof fn lemma_response_content_length(text: Seq<u8>)
    ensures
        response_of(text) == resp_pre() + dec_digits(html_of(text).len()) + resp_mid() + html_of(
            text,
        ),
        all_digits(dec_digits(html_of(text).len())),
        digits_value(dec_digits(html_of(text).len())) == html_of(text).len(),
{
    lemma_dec_digits_value(html_of(text).len());
}

} // verus!
