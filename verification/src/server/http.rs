//! The HTTP fallback: the one fixed response a client speaking HTTP is
//! answered with. The response text, its content length included, is built
//! by verified code; the process edge only writes it to the socket.
use vstd::prelude::*;
use vstd::string::*;
use crate::text;

verus! {

/// The fixed HTML body of the fallback response.
pub open spec fn spec_html_body() -> Seq<char> {
    "\n<!DOCTYPE html>\n<html>\n    <head>\n        <meta charset=\"utf-8\" lang=\"en\"/>\n        <title>Pok\u{e9}mon Escape server</title>\n    </head>\n    <body>\n        <h1>Please provide html content</h1>\n    </body>\n</html>"@
}

/// The byte length of the fixed HTML body, as HTTP counts content.
pub open spec fn spec_html_len() -> usize {
    "\n<!DOCTYPE html>\n<html>\n    <head>\n        <meta charset=\"utf-8\" lang=\"en\"/>\n        <title>Pok\u{e9}mon Escape server</title>\n    </head>\n    <body>\n        <h1>Please provide html content</h1>\n    </body>\n</html>".len()
}

/// The whole fixed response: status line, headers with the body's byte
/// length, blank line, body.
pub open spec fn spec_http_response() -> Seq<char> {
    "HTTP/1.1 418 I'M A Pokemon\nServer: Pok\u{e9}monEscape server\nContent-Type: text/html; charset=utf-8\nContent-Length: "@
        + text::spec_digits(spec_html_len() as nat) + "\n\n"@ + spec_html_body()
}

/// Builds the one response the HTTP stub ever writes.
pub fn response_text() -> (r: String)
    ensures
        r@ == spec_http_response(),
{
    let html =
        "\n<!DOCTYPE html>\n<html>\n    <head>\n        <meta charset=\"utf-8\" lang=\"en\"/>\n        <title>Pok\u{e9}mon Escape server</title>\n    </head>\n    <body>\n        <h1>Please provide html content</h1>\n    </body>\n</html>";
    let mut s = String::from_str(
        "HTTP/1.1 418 I'M A Pokemon\nServer: Pok\u{e9}monEscape server\nContent-Type: text/html; charset=utf-8\nContent-Length: ",
    );
    text::append_decimal(&mut s, html.len());
    let r = s.concat("\n\n").concat(html);
    proof {
        assert(r@ =~= spec_http_response());
    }
    r
}

} // verus!
