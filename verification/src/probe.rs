//! How the shell finds out whether the service answers on its port.

use crate::text::{decimal, text2, text3};
use vstd::prelude::*;
use vstd::string::StringSliceAdditionalSpecFns;

verus! {

/// What the entry page of the service holds and other pages do not.
pub const DSH_BOOT_MARKER: &'static str = "__DSH_BOOT__";

/// The address of the service.
pub fn service_url(port: u16) -> (url: String)
    ensures
        url@ == "http://127.0.0.1:"@ + crate::text::decimal_of(port as nat),
{
    text2("http://127.0.0.1:", decimal(port as u64).as_str())
}

/// The request that is sent to the port.
pub fn probe_request(port: u16) -> (request: String)
    ensures
        request@ == "GET / HTTP/1.1\r\nHost: 127.0.0.1:"@ + crate::text::decimal_of(port as nat)
            + "\r\nConnection: close\r\n\r\n"@,
{
    text3(
        "GET / HTTP/1.1\r\nHost: 127.0.0.1:",
        decimal(port as u64).as_str(),
        "\r\nConnection: close\r\n\r\n",
    )
}

/// Whether a response holds the marker.
pub open spec fn has_marker(response: Seq<u8>) -> bool {
    exists|at: int| crate::text::occurs_at(response, DSH_BOOT_MARKER.spec_bytes(), at)
}

fn bytes_occur(text: &Vec<u8>, pattern: &[u8], at: usize) -> (found: bool)
    ensures
        found == crate::text::occurs_at(text@, pattern@, at as int),
{
    if at > text.len() || pattern.len() > text.len() - at {
        return false;
    }
    let mut i: usize = 0;
    while i < pattern.len()
        invariant
            i <= pattern.len(),
            at + pattern.len() <= text.len(),
            forall|j: int| 0 <= j < i ==> text@[at + j] == pattern@[j],
        decreases pattern.len() - i,
    {
        if text[at + i] != pattern[i] {
            assert(text@.subrange(at as int, at + pattern@.len())[i as int] != pattern@[i as int]);
            return false;
        }
        i = i + 1;
    }
    assert(text@.subrange(at as int, at + pattern@.len()) == pattern@);
    true
}

/// Whether a response comes from the service: a port that merely answers may
/// belong to another program.
pub fn is_dsh_response(response: &Vec<u8>) -> (found: bool)
    ensures
        found == has_marker(response@),
{
    let marker = DSH_BOOT_MARKER.as_bytes();
    let mut at: usize = 0;
    while at < response.len()
        invariant
            at <= response.len(),
            marker@ == DSH_BOOT_MARKER.spec_bytes(),
            forall|i: int| 0 <= i < at ==> !crate::text::occurs_at(response@, marker@, i),
        decreases response.len() - at,
    {
        if bytes_occur(response, marker, at) {
            return true;
        }
        at = at + 1;
    }
    proof {
        marker_is_ascii();
    }
    false
}

proof fn marker_is_ascii()
    ensures
        DSH_BOOT_MARKER.spec_bytes().len() == 12,
{
    reveal_strlit("__DSH_BOOT__");
    assert(vstd::string::is_ascii(DSH_BOOT_MARKER));
    vstd::string::is_ascii_spec_bytes(DSH_BOOT_MARKER);
}

/// A page with the marker anywhere in it is taken for the service's.
pub proof fn marked_page_is_recognised(before: Seq<char>, after: Seq<char>)
    ensures
        has_marker(vstd::utf8::encode_utf8(before + DSH_BOOT_MARKER@ + after)),
{
    let marker = DSH_BOOT_MARKER@;
    let page = vstd::utf8::encode_utf8(before + marker + after);
    let at = vstd::utf8::encode_utf8(before).len() as int;
    crate::text::encoding_of_concat(before + marker, after);
    crate::text::encoding_of_concat(before, marker);
    assert(page.subrange(at, at + DSH_BOOT_MARKER.spec_bytes().len())
        == DSH_BOOT_MARKER.spec_bytes());
    assert(crate::text::occurs_at(page, DSH_BOOT_MARKER.spec_bytes(), at));
}

/// A response is taken for the service's exactly where the bytes of
/// `__DSH_BOOT__` stand in it, one behind the other, whatever else it holds and
/// whether or not it is text.
pub proof fn only_the_marker_is_recognised(response: Vec<u8>, found: bool)
    requires
        call_ensures(is_dsh_response, (&response,), found),
    ensures
        found <==> exists|before: Seq<u8>, after: Seq<u8>| #[trigger]
            (before + vstd::utf8::encode_utf8("__DSH_BOOT__"@) + after) == response@,
{
    let bytes = vstd::utf8::encode_utf8("__DSH_BOOT__"@);
    if found {
        let at = choose|at: int| crate::text::occurs_at(response@, bytes, at);
        let before = response@.take(at);
        let after = response@.skip(at + bytes.len());
        assert(before + bytes + after == response@);
    }
    assert forall|before: Seq<u8>, after: Seq<u8>| #[trigger]
        (before + bytes + after) == response@ implies found by {
        let at = before.len() as int;
        assert(response@.subrange(at, at + bytes.len()) == bytes);
        assert(crate::text::occurs_at(response@, DSH_BOOT_MARKER.spec_bytes(), at));
    }
}

/// A character is one ASCII byte, or all its bytes are beyond ASCII.
proof fn bytes_of_char(c: char)
    ensures
        ({
            let bytes = vstd::utf8::encode_scalar(c as u32);
            ||| bytes.len() == 1 && c as u32 <= 0x7f && bytes[0] as int == c as int
            ||| bytes.len() > 1 && forall|i: int| 0 <= i < bytes.len() ==> bytes[i] >= 0x80
        }),
{
    let code = c as u32;
    assert(vstd::utf8::leading_byte_width_1(code) == code as u8 || code > 0x7f) by (bit_vector);
    assert(vstd::utf8::leading_byte_width_2(code) >= 0x80) by (bit_vector);
    assert(vstd::utf8::leading_byte_width_3(code) >= 0x80) by (bit_vector);
    assert(vstd::utf8::leading_byte_width_4(code) >= 0x80) by (bit_vector);
    assert(vstd::utf8::last_continuation_byte(code) >= 0x80) by (bit_vector);
    assert(vstd::utf8::second_last_continuation_byte(code) >= 0x80) by (bit_vector);
    assert(vstd::utf8::third_last_continuation_byte(code) >= 0x80) by (bit_vector);
}

/// A text whose encoding starts with ASCII bytes starts with those characters.
proof fn ascii_start(text: Seq<char>, start: Seq<char>)
    requires
        vstd::utf8::is_ascii_chars(start),
        start.len() <= vstd::utf8::encode_utf8(text).len(),
        forall|i: int|
            0 <= i < start.len() ==> vstd::utf8::encode_utf8(text)[i] as int == #[trigger] start[i] as int,
    ensures
        start.len() <= text.len(),
        text.take(start.len() as int) == start,
    decreases start.len(),
{
    if start.len() > 0 {
        let head = vstd::utf8::encode_scalar(text[0] as u32);
        let rest = text.drop_first();
        let tail = start.drop_first();
        bytes_of_char(text[0]);
        assert(vstd::utf8::encode_utf8(text)[0] as int == start[0] as int);
        assert(start[0] as u32 <= 0x7f);
        assert(head[0] as int == start[0] as int);
        assert(head.len() == 1);
        assert(text[0] == start[0]);
        assert forall|i: int| 0 <= i < tail.len() implies vstd::utf8::encode_utf8(rest)[i] as int
            == #[trigger] tail[i] as int by {
            assert(tail[i] == start[i + 1]);
            assert(vstd::utf8::encode_utf8(text)[i + 1] as int == start[i + 1] as int);
        }
        ascii_start(rest, tail);
        assert(text.take(start.len() as int) == seq![text[0]] + rest.take(tail.len() as int));
    } else {
        assert(text.take(0) == start);
    }
}

/// ASCII bytes that stand in the encoding of a text stand for the same characters
/// in the text.
proof fn ascii_in_text(text: Seq<char>, part: Seq<char>, at: int) -> (start: int)
    requires
        part.len() > 0,
        vstd::utf8::is_ascii_chars(part),
        0 <= at,
        at + part.len() <= vstd::utf8::encode_utf8(text).len(),
        forall|i: int|
            0 <= i < part.len() ==> vstd::utf8::encode_utf8(text)[at + i] as int == #[trigger] part[i] as int,
    ensures
        0 <= start,
        start + part.len() <= text.len(),
        text.subrange(start, start + part.len()) == part,
    decreases text.len(),
{
    let head = vstd::utf8::encode_scalar(text[0] as u32);
    let rest = text.drop_first();
    bytes_of_char(text[0]);
    if at == 0 {
        assert forall|i: int| 0 <= i < part.len() implies vstd::utf8::encode_utf8(text)[i] as int
            == #[trigger] part[i] as int by {
            assert(vstd::utf8::encode_utf8(text)[at + i] as int == part[i] as int);
        }
        ascii_start(text, part);
        0
    } else {
        if at < head.len() {
            assert(vstd::utf8::encode_utf8(text)[at + 0] as int == part[0] as int);
            assert(head[at] as int == part[0] as int);
            assert(part[0] as u32 <= 0x7f);
        }
        assert forall|i: int| 0 <= i < part.len() implies vstd::utf8::encode_utf8(rest)[at
            - head.len() + i] as int == #[trigger] part[i] as int by {
            assert(vstd::utf8::encode_utf8(text)[at + i] as int == part[i] as int);
        }
        let start = ascii_in_text(rest, part, at - head.len());
        assert(text.subrange(start + 1, start + 1 + part.len()) == rest.subrange(
            start,
            start + part.len(),
        ));
        start + 1
    }
}

/// A page is taken for the service's exactly where its text holds
/// `__DSH_BOOT__`: any other page is one of another program, whatever its status
/// and its headers are.
pub proof fn page_without_the_marker_is_not_recognised(
    text: Seq<char>,
    response: Vec<u8>,
    found: bool,
)
    requires
        call_ensures(is_dsh_response, (&response,), found),
        response@ == vstd::utf8::encode_utf8(text),
    ensures
        found <==> exists|before: Seq<char>, after: Seq<char>| #[trigger]
            (before + "__DSH_BOOT__"@ + after) == text,
{
    let marker = "__DSH_BOOT__"@;
    reveal_strlit("__DSH_BOOT__");
    let bytes = vstd::utf8::encode_utf8(marker);
    vstd::utf8::is_ascii_chars_encode_utf8(marker);
    if found {
        let at = choose|at: int| crate::text::occurs_at(response@, bytes, at);
        assert forall|i: int| 0 <= i < marker.len() implies response@[at + i] as int
            == #[trigger] marker[i] as int by {
            assert(response@.subrange(at, at + bytes.len())[i] == bytes[i]);
        }
        let start = ascii_in_text(text, marker, at);
        let before = text.take(start);
        let after = text.skip(start + marker.len());
        assert(text.subrange(start, start + marker.len()) == marker);
        assert(before + marker + after == text);
    }
    if exists|before: Seq<char>, after: Seq<char>| #[trigger] (before + marker + after) == text {
        let (before, after) = choose|before: Seq<char>, after: Seq<char>| #[trigger]
            (before + marker + after) == text;
        marked_page_is_recognised(before, after);
    }
}

/// The service is asked, and shown, on its own port of this machine: the number
/// behind the address in the URL and in the request is the port.
pub proof fn address_is_that_of_the_port(port: u16, url: String, request: String)
    requires
        call_ensures(service_url, (port,), url),
        call_ensures(probe_request, (port,), request),
    ensures
        exists|digits: Seq<char>|
            {
                &&& crate::text::number_of(digits) == port
                &&& url@ == "http://127.0.0.1:"@ + digits
                &&& #[trigger] ("GET / HTTP/1.1\r\nHost: 127.0.0.1:"@ + digits
                    + "\r\nConnection: close\r\n\r\n"@) == request@
            },
{
    crate::text::decimal_stands_for_the_number(port as nat);
}

} // verus!
