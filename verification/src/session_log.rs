//! The export of a session log: it arrives in base64 and is written as bytes.

use crate::text::{text2, text3};
use base64::Engine;
use vstd::prelude::*;
use vstd::string::StringSliceAdditionalSpecFns;

verus! {

/// The symbol of a value below 64 in the standard base64 alphabet.
pub open spec fn base64_symbol(value: int) -> u8 {
    if value < 26 {
        ('A' as int + value) as u8
    } else if value < 52 {
        ('a' as int + value - 26) as u8
    } else if value < 62 {
        ('0' as int + value - 52) as u8
    } else if value == 62 {
        '+' as u8
    } else {
        '/' as u8
    }
}

/// The four symbols of three bytes.
pub open spec fn base64_quad(a: int, b: int, c: int) -> Seq<u8> {
    seq![
        base64_symbol(a / 4),
        base64_symbol(a % 4 * 16 + b / 16),
        base64_symbol(b % 16 * 4 + c / 64),
        base64_symbol(c % 64),
    ]
}

/// Bytes in base64, with the standard alphabet and padding.
pub open spec fn base64_encoding(bytes: Seq<u8>) -> Seq<u8>
    decreases bytes.len(),
{
    if bytes.len() == 0 {
        seq![]
    } else if bytes.len() == 1 {
        base64_quad(bytes[0] as int, 0, 0).take(2) + seq!['=' as u8, '=' as u8]
    } else if bytes.len() == 2 {
        base64_quad(bytes[0] as int, bytes[1] as int, 0).take(3) + seq!['=' as u8]
    } else {
        base64_quad(bytes[0] as int, bytes[1] as int, bytes[2] as int) + base64_encoding(
            bytes.skip(3),
        )
    }
}

/// The message with which `base64` rejects data.
pub uninterp spec fn base64_error(data: Seq<u8>) -> Seq<char>;

/// Calls `decode` of `base64::engine::general_purpose::STANDARD`. That engine
/// takes the standard alphabet, asks for padding and for zero bits behind the
/// last byte, so it accepts exactly the encodings and gives back what was
/// encoded. The message of its error depends on the data alone.
#[verifier::external_body]
fn decode_base64(data: &[u8]) -> (result: Result<Vec<u8>, String>)
    ensures
        match result {
            Ok(bytes) => base64_encoding(bytes@) == data@,
            Err(message) => {
                &&& forall|bytes: Seq<u8>| #[trigger] base64_encoding(bytes) != data@
                &&& message@ == base64_error(data@)
            },
        },
{
    base64::engine::general_purpose::STANDARD.decode(data).map_err(|error| error.to_string())
}

proof fn symbol_is_injective(a: int, b: int)
    requires
        0 <= a < 64,
        0 <= b < 64,
    ensures
        base64_symbol(a) == base64_symbol(b) ==> a == b,
        base64_symbol(a) != '=' as u8,
{
}

proof fn quad_is_injective(a: int, b: int, c: int, x: int, y: int, z: int)
    requires
        0 <= a < 256,
        0 <= b < 256,
        0 <= c < 256,
        0 <= x < 256,
        0 <= y < 256,
        0 <= z < 256,
    ensures
        base64_quad(a, b, c) == base64_quad(x, y, z) ==> a == x && b == y && c == z,
        base64_quad(a, b, 0).take(3) == base64_quad(x, y, 0).take(3) ==> a == x && b == y,
        base64_quad(a, 0, 0).take(2) == base64_quad(x, 0, 0).take(2) ==> a == x,
{
    let p = base64_quad(a, b, c);
    let q = base64_quad(x, y, z);
    symbol_is_injective(a / 4, x / 4);
    symbol_is_injective(a % 4 * 16 + b / 16, x % 4 * 16 + y / 16);
    symbol_is_injective(b % 16 * 4 + c / 64, y % 16 * 4 + z / 64);
    symbol_is_injective(c % 64, z % 64);
    symbol_is_injective(b % 16 * 4, y % 16 * 4);
    symbol_is_injective(a % 4 * 16, x % 4 * 16);
    if p == q {
        assert(p[0] == q[0] && p[1] == q[1] && p[2] == q[2] && p[3] == q[3]);
    }
    let p2 = base64_quad(a, b, 0).take(3);
    let q2 = base64_quad(x, y, 0).take(3);
    if p2 == q2 {
        assert(p2[0] == q2[0] && p2[1] == q2[1] && p2[2] == q2[2]);
    }
    let p1 = base64_quad(a, 0, 0).take(2);
    let q1 = base64_quad(x, 0, 0).take(2);
    if p1 == q1 {
        assert(p1[0] == q1[0] && p1[1] == q1[1]);
    }
}

proof fn encoding_length(bytes: Seq<u8>)
    ensures
        base64_encoding(bytes).len() == (bytes.len() + 2) / 3 * 4,
    decreases bytes.len(),
{
    if bytes.len() > 2 {
        encoding_length(bytes.skip(3));
    }
}

/// No two byte sequences have the same encoding.
pub proof fn base64_is_injective(a: Seq<u8>, b: Seq<u8>)
    requires
        base64_encoding(a) == base64_encoding(b),
    ensures
        a == b,
    decreases a.len(),
{
    encoding_length(a);
    encoding_length(b);
    let p = base64_encoding(a);
    let q = base64_encoding(b);
    if a.len() > 0 {
        assert(b.len() > 0);
        assert(p[0] == q[0] && p[1] == q[1] && p[2] == q[2] && p[3] == q[3]);
        let a0 = a[0] as int;
        let b0 = b[0] as int;
        if a.len() > 1 {
            symbol_is_injective(a[1] as int % 16 * 4 + if a.len() > 2 {
                a[2] as int / 64
            } else {
                0
            }, 0);
        }
        if b.len() > 1 {
            symbol_is_injective(b[1] as int % 16 * 4 + if b.len() > 2 {
                b[2] as int / 64
            } else {
                0
            }, 0);
        }
        if a.len() > 2 {
            symbol_is_injective(a[2] as int % 64, 0);
        }
        if b.len() > 2 {
            symbol_is_injective(b[2] as int % 64, 0);
        }
        if a.len() == 1 {
            assert(b.len() == 1);
            quad_is_injective(a0, 0, 0, b0, 0, 0);
            assert(p.take(2) == base64_quad(a0, 0, 0).take(2));
            assert(q.take(2) == base64_quad(b0, 0, 0).take(2));
            assert(a == b);
        } else if a.len() == 2 {
            assert(b.len() == 2);
            quad_is_injective(a0, a[1] as int, 0, b0, b[1] as int, 0);
            assert(p.take(3) == base64_quad(a0, a[1] as int, 0).take(3));
            assert(q.take(3) == base64_quad(b0, b[1] as int, 0).take(3));
            assert(a == b);
        } else {
            assert(b.len() > 2);
            quad_is_injective(a0, a[1] as int, a[2] as int, b0, b[1] as int, b[2] as int);
            assert(p.take(4) == base64_quad(a0, a[1] as int, a[2] as int));
            assert(q.take(4) == base64_quad(b0, b[1] as int, b[2] as int));
            assert(p.skip(4) == base64_encoding(a.skip(3)));
            assert(q.skip(4) == base64_encoding(b.skip(3)));
            base64_is_injective(a.skip(3), b.skip(3));
            assert(a == seq![a[0], a[1], a[2]] + a.skip(3));
            assert(b == seq![b[0], b[1], b[2]] + b.skip(3));
        }
    } else {
        assert(a == b);
    }
}

/// The bytes that are to be written for a session log in base64. Whatever was
/// encoded comes out; data that encode nothing are rejected.
pub fn save_session_log(data: &str) -> (result: Result<Vec<u8>, String>)
    ensures
        match result {
            Ok(written) => base64_encoding(written@) == data.spec_bytes(),
            Err(message) => {
                &&& forall|bytes: Seq<u8>| #[trigger] base64_encoding(bytes) != data.spec_bytes()
                &&& message@ == "base64 解码失败: "@ + base64_error(data.spec_bytes())
            },
        },
        forall|bytes: Seq<u8>| #[trigger]
            base64_encoding(bytes) == data.spec_bytes() ==> result is Ok && result->Ok_0@ == bytes,
{
    match decode_base64(data.as_bytes()) {
        Ok(decoded) => {
            assert forall|bytes: Seq<u8>| #[trigger]
                base64_encoding(bytes) == data.spec_bytes() implies decoded@ == bytes by {
                base64_is_injective(decoded@, bytes);
            }
            Ok(decoded)
        },
        Err(error) => Err(text2("base64 解码失败: ", error.as_str())),
    }
}

/// What is said where the bytes could not be written.
pub fn write_failure(path: &str, error: &str) -> (message: String)
    ensures
        message@ == "写入 "@ + path@ + " 失败: "@ + error@,
{
    text2(text3("写入 ", path, " 失败: ").as_str(), error)
}

/// The symbols are those of the standard alphabet, in its order.
pub proof fn symbols_are_in_the_order_of_the_alphabet(value: int)
    requires
        0 <= value < 64,
    ensures
        base64_symbol(value)
            == "ABCDEFGHIJKLMNOPQRSTUVWXYZabcdefghijklmnopqrstuvwxyz0123456789+/"@[value] as u8,
{
    reveal_strlit("ABCDEFGHIJKLMNOPQRSTUVWXYZabcdefghijklmnopqrstuvwxyz0123456789+/");
}

/// Bytes are encoded in groups of three, one group behind the other, and what is
/// left in a last group with padding.
pub proof fn groups_are_encoded_one_by_one(first: Seq<u8>, rest: Seq<u8>)
    requires
        first.len() % 3 == 0,
    ensures
        base64_encoding(first + rest) == base64_encoding(first) + base64_encoding(rest),
        base64_encoding(first + rest).len() == (first.len() + rest.len() + 2) / 3 * 4,
    decreases first.len(),
{
    encoding_length(first + rest);
    if first.len() == 0 {
        assert(first + rest == rest);
        assert(base64_encoding(first) + base64_encoding(rest) == base64_encoding(rest));
    } else {
        groups_are_encoded_one_by_one(first.skip(3), rest);
        assert((first + rest).skip(3) == first.skip(3) + rest);
        let quad = base64_quad(first[0] as int, first[1] as int, first[2] as int);
        assert(quad + (base64_encoding(first.skip(3)) + base64_encoding(rest)) == quad
            + base64_encoding(first.skip(3)) + base64_encoding(rest));
    }
}

/// What was encoded is what is written, and nothing else is accepted.
pub proof fn encoded_log_is_written(data: &str, result: Result<Vec<u8>, String>, log: Seq<u8>)
    requires
        call_ensures(save_session_log, (data,), result),
    ensures
        base64_encoding(log) == vstd::utf8::encode_utf8(data@) ==> result is Ok
            && result->Ok_0@ == log,
        result is Ok ==> base64_encoding(result->Ok_0@) == vstd::utf8::encode_utf8(data@),
{
}

/// A group of three bytes, read as one number, is the number that its four symbols
/// stand for. A last group of one or two bytes is filled up with zero bits to whole
/// symbols, and with `=` to four of them.
pub proof fn group_is_the_same_number(
    a: u8,
    b: u8,
    c: u8,
    first: int,
    second: int,
    third: int,
    fourth: int,
)
    requires
        0 <= first < 64,
        0 <= second < 64,
        0 <= third < 64,
        0 <= fourth < 64,
    ensures
        first * 262144 + second * 4096 + third * 64 + fourth == a * 65536 + b * 256 + c
            ==> base64_encoding(seq![a, b, c]) == seq![
            base64_symbol(first),
            base64_symbol(second),
            base64_symbol(third),
            base64_symbol(fourth),
        ],
        first * 4096 + second * 64 + third == (a * 256 + b) * 4 ==> base64_encoding(seq![a, b])
            == seq![
            base64_symbol(first),
            base64_symbol(second),
            base64_symbol(third),
            '=' as u8,
        ],
        first * 64 + second == a * 16 ==> base64_encoding(seq![a]) == seq![
            base64_symbol(first),
            base64_symbol(second),
            '=' as u8,
            '=' as u8,
        ],
{
    let (x, y, z) = (a as int, b as int, c as int);
    if first * 262144 + second * 4096 + third * 64 + fourth == a * 65536 + b * 256 + c {
        digits_of_a_group(x, y, z, first, second, third, fourth);
        assert(seq![a, b, c].skip(3) == Seq::<u8>::empty());
        assert(base64_encoding(Seq::<u8>::empty()) == Seq::<u8>::empty());
        assert(base64_encoding(seq![a, b, c]) == base64_quad(x, y, z));
    }
    if first * 4096 + second * 64 + third == (a * 256 + b) * 4 {
        digits_of_a_group(x, y, 0, first, second, third, 0);
        assert(base64_encoding(seq![a, b]) == base64_quad(x, y, 0).take(3) + seq!['=' as u8]);
    }
    if first * 64 + second == a * 16 {
        digits_of_a_group(x, 0, 0, first, second, 0, 0);
        assert(base64_encoding(seq![a]) == base64_quad(x, 0, 0).take(2) + seq![
            '=' as u8,
            '=' as u8,
        ]);
    }
}

proof fn digits_of_a_group(
    a: int,
    b: int,
    c: int,
    first: int,
    second: int,
    third: int,
    fourth: int,
)
    requires
        0 <= a < 256,
        0 <= b < 256,
        0 <= c < 256,
        0 <= first < 64,
        0 <= second < 64,
        0 <= third < 64,
        0 <= fourth < 64,
        first * 262144 + second * 4096 + third * 64 + fourth == a * 65536 + b * 256 + c,
    ensures
        first == a / 4,
        second == a % 4 * 16 + b / 16,
        third == b % 16 * 4 + c / 64,
        fourth == c % 64,
{
    let (a0, a1) = (a / 4, a % 4);
    let (b0, b1) = (b / 16, b % 16);
    let (c0, c1) = (c / 64, c % 64);
    assert(a * 65536 + b * 256 + c == a0 * 262144 + (a1 * 16 + b0) * 4096 + (b1 * 4 + c0) * 64 + c1);
    assert(first == a0);
    assert(second == a1 * 16 + b0);
    assert(third == b1 * 4 + c0);
}

/// The message that the log could not be written names the path and the reason.
pub proof fn failure_names_path_and_reason(path: &str, error: &str, message: String)
    requires
        call_ensures(write_failure, (path, error), message),
    ensures
        message@ == "写入 "@ + path@ + " 失败: "@ + error@,
{
}

} // verus!
