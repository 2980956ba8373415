//! Framing of outbound wire text: decimal rendering of integers and the
//! JSON error envelope `{"messageId":<id>,"error":"<text>"}` sent to a peer
//! when a request fails.  Inbound parsing is the transport layer's job; the
//! library only produces bytes whose exact shape is pinned down here.

use vstd::prelude::*;

verus! {

/// The character for one decimal digit.
pub open spec fn digit_char(d: int) -> char {
    if d == 0 {
        '0'
    } else if d == 1 {
        '1'
    } else if d == 2 {
        '2'
    } else if d == 3 {
        '3'
    } else if d == 4 {
        '4'
    } else if d == 5 {
        '5'
    } else if d == 6 {
        '6'
    } else if d == 7 {
        '7'
    } else if d == 8 {
        '8'
    } else {
        '9'
    }
}

/// Decimal rendering of a natural number, most significant digit first,
/// no leading zeros (a single `'0'` for zero).
pub open spec fn dec_of_nat(n: nat) -> Seq<char>
    decreases n,
{
    if n < 10 {
        seq![digit_char(n as int)]
    } else {
        dec_of_nat(n / 10) + seq![digit_char((n % 10) as int)]
    }
}

/// Decimal rendering of an integer: a minus sign ahead of the magnitude.
pub open spec fn dec_of_int(n: int) -> Seq<char> {
    if n < 0 {
        seq!['-'] + dec_of_nat((-n) as nat)
    } else {
        dec_of_nat(n as nat)
    }
}

/// Appends the character for a single decimal digit.
fn append_digit(out: &mut String, d: u64)
    requires
        d < 10,
    ensures
        final(out)@ == old(out)@ + seq![digit_char(d as int)],
{
    if d == 0 {
        proof {
            reveal_strlit("0");
            assert("0"@ =~= seq![digit_char(0)]);
        }
        out.append("0");
    } else if d == 1 {
        proof {
            reveal_strlit("1");
            assert("1"@ =~= seq![digit_char(1)]);
        }
        out.append("1");
    } else if d == 2 {
        proof {
            reveal_strlit("2");
            assert("2"@ =~= seq![digit_char(2)]);
        }
        out.append("2");
    } else if d == 3 {
        proof {
            reveal_strlit("3");
            assert("3"@ =~= seq![digit_char(3)]);
        }
        out.append("3");
    } else if d == 4 {
        proof {
            reveal_strlit("4");
            assert("4"@ =~= seq![digit_char(4)]);
        }
        out.append("4");
    } else if d == 5 {
        proof {
            reveal_strlit("5");
            assert("5"@ =~= seq![digit_char(5)]);
        }
        out.append("5");
    } else if d == 6 {
        proof {
            reveal_strlit("6");
            assert("6"@ =~= seq![digit_char(6)]);
        }
        out.append("6");
    } else if d == 7 {
        proof {
            reveal_strlit("7");
            assert("7"@ =~= seq![digit_char(7)]);
        }
        out.append("7");
    } else if d == 8 {
        proof {
            reveal_strlit("8");
            assert("8"@ =~= seq![digit_char(8)]);
        }
        out.append("8");
    } else {
        proof {
            reveal_strlit("9");
            assert("9"@ =~= seq![digit_char(9)]);
        }
        out.append("9");
    }
}

/// Appends the decimal rendering of an unsigned number.
pub fn append_dec_u64(out: &mut String, n: u64)
    ensures
        final(out)@ == old(out)@ + dec_of_nat(n as nat),
    decreases n,
{
    if n >= 10 {
        append_dec_u64(out, n / 10);
        append_digit(out, n % 10);
        proof {
            assert(final(out)@ =~= old(out)@ + dec_of_nat(n as nat));
        }
    } else {
        append_digit(out, n);
    }
}

/// Appends the decimal rendering of a signed number.
pub fn append_dec_i64(out: &mut String, n: i64)
    ensures
        final(out)@ == old(out)@ + dec_of_int(n as int),
{
    if n < 0 {
        proof {
            reveal_strlit("-");
            assert("-"@ =~= seq!['-']);
        }
        out.append("-");
        let wide: i128 = -(n as i128);
        assert(0 < wide <= u64::MAX as i128);
        let m: u64 = wide as u64;
        append_dec_u64(out, m);
        proof {
            assert(final(out)@ =~= old(out)@ + dec_of_int(n as int));
        }
    } else {
        append_dec_u64(out, n as u64);
    }
}

/// The decimal rendering of an unsigned number as a fresh string.
pub fn dec_u64(n: u64) -> (r: String)
    ensures
        r@ == dec_of_nat(n as nat),
{
    let mut out = String::new();
    append_dec_u64(&mut out, n);
    proof {
        assert(out@ =~= dec_of_nat(n as nat));
    }
    out
}

/// The decimal rendering of a signed number as a fresh string.
pub fn dec_i64(n: i64) -> (r: String)
    ensures
        r@ == dec_of_int(n as int),
{
    let mut out = String::new();
    append_dec_i64(&mut out, n);
    proof {
        assert(out@ =~= dec_of_int(n as int));
    }
    out
}

/// The character for one hexadecimal digit, lower case.
pub open spec fn hex_char(d: int) -> char {
    if d < 10 {
        digit_char(d)
    } else if d == 10 {
        'a'
    } else if d == 11 {
        'b'
    } else if d == 12 {
        'c'
    } else if d == 13 {
        'd'
    } else if d == 14 {
        'e'
    } else {
        'f'
    }
}

/// Appends the character for a single hexadecimal digit.
fn append_hex_digit(out: &mut String, d: u32)
    requires
        d < 16,
    ensures
        final(out)@ == old(out)@ + seq![hex_char(d as int)],
{
    if d < 10 {
        append_digit(out, d as u64);
    } else if d == 10 {
        proof {
            reveal_strlit("a");
            assert("a"@ =~= seq![hex_char(10)]);
        }
        out.append("a");
    } else if d == 11 {
        proof {
            reveal_strlit("b");
            assert("b"@ =~= seq![hex_char(11)]);
        }
        out.append("b");
    } else if d == 12 {
        proof {
            reveal_strlit("c");
            assert("c"@ =~= seq![hex_char(12)]);
        }
        out.append("c");
    } else if d == 13 {
        proof {
            reveal_strlit("d");
            assert("d"@ =~= seq![hex_char(13)]);
        }
        out.append("d");
    } else if d == 14 {
        proof {
            reveal_strlit("e");
            assert("e"@ =~= seq![hex_char(14)]);
        }
        out.append("e");
    } else {
        proof {
            reveal_strlit("f");
            assert("f"@ =~= seq![hex_char(15)]);
        }
        out.append("f");
    }
}

/// How one character is written inside a JSON string literal: quote and
/// backslash are escaped, control characters become `\u00XX`, everything
/// else stands as itself.
pub open spec fn escape_char(c: char) -> Seq<char> {
    if c == '"' {
        seq!['\\', '"']
    } else if c == '\\' {
        seq!['\\', '\\']
    } else if (c as u32) < 32 {
        seq!['\\', 'u', '0', '0', hex_char(c as u32 as int / 16), hex_char(c as u32 as int % 16)]
    } else {
        seq![c]
    }
}

/// A whole character sequence written inside a JSON string literal.
pub open spec fn json_escaped(s: Seq<char>) -> Seq<char>
    decreases s.len(),
{
    if s.len() == 0 {
        Seq::empty()
    } else {
        escape_char(s[0]) + json_escaped(s.subrange(1, s.len() as int))
    }
}

proof fn lemma_json_escaped_snoc(s: Seq<char>, c: char)
    ensures
        json_escaped(s.push(c)) == json_escaped(s) + escape_char(c),
    decreases s.len(),
{
    let whole = s.push(c);
    if s.len() == 0 {
        assert(whole.subrange(1, whole.len() as int) =~= Seq::<char>::empty());
        assert(whole[0] == c);
        assert(json_escaped(whole) == escape_char(c) + json_escaped(
            whole.subrange(1, whole.len() as int),
        ));
        assert(json_escaped(whole) =~= json_escaped(s) + escape_char(c));
    } else {
        assert(whole.subrange(1, whole.len() as int) =~= s.subrange(1, s.len() as int).push(c));
        lemma_json_escaped_snoc(s.subrange(1, s.len() as int), c);
        assert(whole[0] == s[0]);
        assert(json_escaped(whole) == escape_char(s[0]) + (json_escaped(s.subrange(1, s.len() as int))
            + escape_char(c)));
        assert(json_escaped(whole) =~= json_escaped(s) + escape_char(c));
    }
}

/// Writes a string as a JSON string literal body (without the surrounding
/// quotes), escaping as `escape_char` says.
pub fn json_escape(s: &str) -> (r: String)
    ensures
        r@ == json_escaped(s@),
{
    let mut out = String::new();
    let n = s.unicode_len();
    let mut i: usize = 0;
    while i < n
        invariant
            i <= n,
            n == s@.len(),
            out@ == json_escaped(s@.take(i as int)),
        decreases n - i,
    {
        let c = s.get_char(i);
        if c == '"' {
            proof {
                reveal_strlit("\\\"");
                assert("\\\""@ =~= escape_char(c));
            }
            out.append("\\\"");
        } else if c == '\\' {
            proof {
                reveal_strlit("\\\\");
                assert("\\\\"@ =~= escape_char(c));
            }
            out.append("\\\\");
        } else if (c as u32) < 32 {
            let code = c as u32;
            proof {
                reveal_strlit("\\u00");
                assert("\\u00"@ =~= seq!['\\', 'u', '0', '0']);
            }
            out.append("\\u00");
            append_hex_digit(&mut out, code / 16);
            append_hex_digit(&mut out, code % 16);
            proof {
                assert(out@ =~= json_escaped(s@.take(i as int)) + escape_char(c));
            }
        } else {
            let piece = s.substring_char(i, i + 1);
            proof {
                assert(piece@ =~= escape_char(c));
            }
            out.append(piece);
        }
        proof {
            lemma_json_escaped_snoc(s@.take(i as int), c);
            assert(s@.take(i as int + 1) =~= s@.take(i as int).push(c));
        }
        i = i + 1;
    }
    proof {
        assert(s@.take(n as int) =~= s@);
    }
    out
}

/// The error envelope sent to a peer: the originating message identifier is
/// echoed next to a human-readable error text.
pub open spec fn error_envelope(message_id: int, error: Seq<char>) -> Seq<char> {
    "{\"messageId\":"@ + dec_of_int(message_id) + ",\"error\":\""@ + json_escaped(error) + "\"}"@
}

/// Encodes the outbound error envelope for a failed request.
pub fn encode_error(message_id: i64, error: &str) -> (r: String)
    ensures
        r@ == error_envelope(message_id as int, error@),
{
    let mut out = String::new();
    out.append("{\"messageId\":");
    append_dec_i64(&mut out, message_id);
    out.append(",\"error\":\"");
    let escaped = json_escape(error);
    out.append(escaped.as_str());
    out.append("\"}");
    proof {
        assert(out@ =~= error_envelope(message_id as int, error@));
    }
    out
}

} // verus!
