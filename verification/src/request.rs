//! Field extractors: pure functions that pull the path identifier and the
//! message body out of a raw request string, and the conversion of the raw
//! bytes of one bounded read into that string.
use vstd::prelude::*;
use vstd::utf8::decode_first_codepoint;
use vstd::utf8::decode_first_scalar;
use vstd::utf8::length_of_first_codepoint;
use vstd::utf8::not_overlong_encoding;
use vstd::utf8::pop_first_scalar;
use vstd::utf8::valid_first_scalar;
use vstd::utf8::valid_leading_and_continuation_bytes_first_codepoint;
use crate::json::push_char;
use crate::payload::char_from_u32;

verus! {

/// Whitespace characters that terminate a path segment in a request line.
pub open spec fn is_ws_char(c: char) -> bool {
    c == ' ' || c == '\t' || c == '\r' || c == '\n'
}

/// The longest prefix of `s` that contains no whitespace character.
pub open spec fn take_until_ws(s: Seq<char>) -> Seq<char>
    decreases s.len(),
{
    if s.len() == 0 {
        Seq::<char>::empty()
    } else if is_ws_char(s[0]) {
        Seq::<char>::empty()
    } else {
        seq![s[0]] + take_until_ws(s.skip(1))
    }
}

/// What remains of `s` strictly after its `k`-th `/`, if `s` holds that many.
pub open spec fn after_slashes(s: Seq<char>, k: nat) -> Option<Seq<char>>
    decreases s.len(),
{
    if k == 0 {
        Some(s)
    } else if s.len() == 0 {
        None::<Seq<char>>
    } else if s[0] == '/' {
        after_slashes(s.skip(1), (k - 1) as nat)
    } else {
        after_slashes(s.skip(1), k)
    }
}

/// The path segment following the second `/` of the request, up to the first
/// whitespace character; empty when the request has no second `/`.
pub open spec fn id_segment(r: Seq<char>) -> Seq<char> {
    match after_slashes(r, 2) {
        Some(t) => take_until_ws(t),
        None => Seq::<char>::empty(),
    }
}

fn ws_char(c: char) -> (b: bool)
    ensures
        b == is_ws_char(c),
{
    c == ' ' || c == '\t' || c == '\r' || c == '\n'
}

proof fn lemma_take_until_ws_prefix(t: Seq<char>, j: int)
    requires
        0 <= j <= t.len(),
        forall|m: int| 0 <= m < j ==> !is_ws_char(t[m]),
        j == t.len() || is_ws_char(t[j]),
    ensures
        take_until_ws(t) == t.take(j),
    decreases j,
{
    if j == 0 {
        assert(take_until_ws(t) =~= t.take(0));
    } else {
        assert(!is_ws_char(t[0]));
        assert forall|m: int| 0 <= m < j - 1 implies !is_ws_char(t.skip(1)[m]) by {
            assert(t.skip(1)[m] == t[m + 1]);
        }
        if j - 1 < t.skip(1).len() {
            assert(t.skip(1)[j - 1] == t[j]);
        }
        lemma_take_until_ws_prefix(t.skip(1), j - 1);
        assert(seq![t[0]] + t.skip(1).take(j - 1) =~= t.take(j));
    }
}

/// Returns the path segment that follows the second `/` of the request line,
/// as text; the caller is responsible for parsing it as an integer.
pub fn get_id(request: &str) -> (r: String)
    ensures
        r@ == id_segment(request@),
{
    let n = request.unicode_len();
    let mut i: usize = 0;
    let mut seen: usize = 0;
    proof {
        assert(request@.skip(0) =~= request@);
    }
    while i < n && seen < 2
        invariant
            0 <= i <= n,
            n == request@.len(),
            seen <= 2,
            after_slashes(request@, 2) == after_slashes(
                request@.skip(i as int),
                (2 - seen) as nat,
            ),
        decreases n - i,
    {
        let c = request.get_char(i);
        proof {
            assert(request@.skip(i as int).len() > 0);
            assert(request@.skip(i as int)[0] == request@[i as int]);
            assert(request@.skip(i as int).skip(1) =~= request@.skip(i as int + 1));
        }
        if c == '/' {
            seen = seen + 1;
        }
        i = i + 1;
    }
    if seen < 2 {
        proof {
            assert(request@.skip(i as int) =~= Seq::<char>::empty());
        }
        return String::new();
    }
    proof {
        assert(after_slashes(request@, 2) == Some(request@.skip(i as int)));
    }
    let start: usize = i;
    let mut j: usize = start;
    while j < n && !ws_char(request.get_char(j))
        invariant
            start <= j <= n,
            n == request@.len(),
            forall|m: int| start <= m < j ==> !is_ws_char(request@[m]),
        decreases n - j,
    {
        j = j + 1;
    }
    let seg = request.substring_char(start, j);
    proof {
        let t = request@.skip(start as int);
        assert forall|m: int| 0 <= m < j - start implies !is_ws_char(t[m]) by {
            assert(t[m] == request@[m + start]);
        }
        if (j as int) < n {
            assert(t[j - start] == request@[j as int]);
        }
        lemma_take_until_ws_prefix(t, j - start);
        assert(t.take(j - start) =~= request@.subrange(start as int, j as int));
    }
    String::from_str(seg)
}

/// Whether `c` is a decimal digit.
pub open spec fn is_digit_char(c: char) -> bool {
    48 <= c as u32 && c as u32 <= 57
}

/// The value of the decimal digit `c`.
pub open spec fn digit_val(c: char) -> int {
    c as u32 - 48
}

/// The value of a sequence of decimal digits, most significant first.
pub open spec fn digits_val(s: Seq<char>) -> int
    decreases s.len(),
{
    if s.len() == 0 {
        0
    } else {
        digits_val(s.drop_last()) * 10 + digit_val(s.last())
    }
}

/// Whether every character of `s` is a decimal digit.
pub open spec fn all_digits(s: Seq<char>) -> bool {
    forall|m: int| 0 <= m < s.len() ==> is_digit_char(s[m])
}

/// The integer denoted by `s` under the usual decimal grammar: an optional
/// leading `+` or `-` sign, then one or more digits, and a value within the
/// bounds of a 32-bit signed integer; `None` on any other input.
pub open spec fn spec_parse_i32(s: Seq<char>) -> Option<int> {
    let signed = s.len() > 0 && (s[0] == '+' || s[0] == '-');
    let ds = if signed {
        s.skip(1)
    } else {
        s
    };
    let neg = s.len() > 0 && s[0] == '-';
    if ds.len() > 0 && all_digits(ds) {
        let v = if neg {
            -digits_val(ds)
        } else {
            digits_val(ds)
        };
        if -2147483648 <= v <= 2147483647 {
            Some(v)
        } else {
            None::<int>
        }
    } else {
        None::<int>
    }
}

proof fn lemma_digits_val_nonneg(s: Seq<char>)
    requires
        all_digits(s),
    ensures
        0 <= digits_val(s),
    decreases s.len(),
{
    if s.len() > 0 {
        assert forall|m: int| 0 <= m < s.drop_last().len() implies is_digit_char(
            s.drop_last()[m],
        ) by {
            assert(s.drop_last()[m] == s[m]);
        }
        lemma_digits_val_nonneg(s.drop_last());
        assert(is_digit_char(s.last()));
    }
}

proof fn lemma_digits_val_mono(s: Seq<char>, i: int)
    requires
        all_digits(s),
        0 <= i <= s.len(),
    ensures
        digits_val(s.take(i)) <= digits_val(s),
    decreases s.len() - i,
{
    if i == s.len() {
        assert(s.take(i) =~= s);
    } else {
        assert forall|m: int| 0 <= m < i implies is_digit_char(s.take(i)[m]) by {
            assert(s.take(i)[m] == s[m]);
        }
        lemma_digits_val_nonneg(s.take(i));
        assert(s.take(i + 1).drop_last() =~= s.take(i));
        assert(s.take(i + 1).last() == s[i]);
        assert(digits_val(s.take(i + 1)) == digits_val(s.take(i)) * 10 + digit_val(s[i]));
        assert(digits_val(s.take(i)) <= digits_val(s.take(i + 1)));
        lemma_digits_val_mono(s, i + 1);
    }
}

/// Parses `s` as a 32-bit signed integer, exactly when the decimal grammar of
/// [`spec_parse_i32`] accepts it.
pub fn parse_i32(s: &str) -> (r: Option<i32>)
    ensures
        match r {
            Some(v) => spec_parse_i32(s@) == Some(v as int),
            None => spec_parse_i32(s@) is None,
        },
{
    let n = s.unicode_len();
    if n == 0 {
        return None;
    }
    let c0 = s.get_char(0);
    let neg: bool = c0 == '-';
    let off: usize = if c0 == '-' || c0 == '+' {
        1
    } else {
        0
    };
    if n == off {
        return None;
    }
    let ghost ds = if off == 1 {
        s@.skip(1)
    } else {
        s@
    };
    let mut acc: u64 = 0;
    let mut i: usize = off;
    while i < n
        invariant
            off <= i <= n,
            n == s@.len(),
            n > off,
            off == 1 <==> (s@[0] == '+' || s@[0] == '-'),
            neg == (s@[0] == '-'),
            ds == (if off == 1 {
                s@.skip(1)
            } else {
                s@
            }),
            ds.len() == n - off,
            forall|m: int| 0 <= m < i - off ==> is_digit_char(ds[m]),
            acc as int == digits_val(ds.take(i - off)),
            acc <= 0x8000_0000,
        decreases n - i,
    {
        let c = s.get_char(i);
        let cu = c as u32;
        proof {
            assert(ds[i - off] == s@[i as int]);
        }
        if cu < 48 || cu > 57 {
            proof {
                assert(!is_digit_char(ds[i - off]));
                assert(!all_digits(ds));
            }
            return None;
        }
        let d: u64 = (cu - 48) as u64;
        proof {
            assert(ds.take(i - off + 1).drop_last() =~= ds.take(i - off));
            assert(ds.take(i - off + 1).last() == ds[i - off]);
            assert(digit_val(ds[i - off]) == d as int);
        }
        acc = acc * 10 + d;
        if acc > 0x8000_0000 {
            proof {
                if all_digits(ds) {
                    lemma_digits_val_mono(ds, i - off + 1);
                    assert(digits_val(ds) > 0x8000_0000);
                }
            }
            return None;
        }
        i = i + 1;
    }
    proof {
        assert(ds.take(i - off) =~= ds);
        assert(all_digits(ds));
        lemma_digits_val_nonneg(ds);
    }
    if neg {
        if acc == 0x8000_0000 {
            return Some(i32::MIN);
        }
        let v: i32 = acc as i32;
        Some(-v)
    } else {
        if acc == 0x8000_0000 {
            return None;
        }
        Some(acc as i32)
    }
}

/// The characters of the longest valid-UTF-8 prefix of `bytes`: decoding
/// stops at the first ill-formed sequence, which is dropped together with
/// everything after it.
pub open spec fn utf8_prefix_chars(bytes: Seq<u8>) -> Seq<char>
    decreases bytes.len(),
{
    if bytes.len() != 0 && valid_first_scalar(bytes) {
        seq![(decode_first_scalar(bytes) as char)] + utf8_prefix_chars(pop_first_scalar(bytes))
    } else {
        Seq::<char>::empty()
    }
}

/// Converts the bytes of one bounded read into the request string: the
/// valid-UTF-8 prefix is decoded, and invalid trailing bytes are dropped
/// rather than reported as an error.
pub fn request_from_bytes(buf: &[u8]) -> (r: String)
    ensures
        r@ == utf8_prefix_chars(buf@),
{
    let n = buf.len();
    let mut out = String::new();
    let mut i: usize = 0;
    proof {
        assert(buf@.skip(0) =~= buf@);
    }
    while i < n
        invariant
            0 <= i <= n,
            n == buf@.len(),
            utf8_prefix_chars(buf@) == out@ + utf8_prefix_chars(buf@.skip(i as int)),
        decreases n - i,
    {
        let ghost t = buf@.skip(i as int);
        let ghost pre = out@;
        let b = buf[i];
        proof {
            assert(t[0] == buf@[i as int]);
        }
        let w: usize;
        let cp: u32;
        if b < 0x80 {
            cp = (b & 0x7F) as u32;
            w = 1;
            proof {
                assert((b & 0x7F) as u32 <= 0x7f) by (bit_vector)
                    requires
                        b < 0x80,
                ;
                assert(valid_first_scalar(t));
                assert(decode_first_codepoint(t) == cp);
                assert(length_of_first_codepoint(t) == 1);
            }
        } else if 0xc0 <= b && b <= 0xdf {
            if i + 1 >= n {
                proof {
                    assert(!valid_leading_and_continuation_bytes_first_codepoint(t));
                    assert(out@ + utf8_prefix_chars(t) =~= out@);
                }
                return out;
            }
            let b1 = buf[i + 1];
            proof {
                assert(t[1] == buf@[i as int + 1]);
            }
            if !(0x80 <= b1 && b1 <= 0xbf) {
                proof {
                    assert(!valid_leading_and_continuation_bytes_first_codepoint(t));
                    assert(out@ + utf8_prefix_chars(t) =~= out@);
                }
                return out;
            }
            cp = (((b & 0x1F) as u32) << 6) | ((b1 & 0x3F) as u32);
            if cp < 0x80 {
                proof {
                    assert(decode_first_codepoint(t) == cp);
                    assert(length_of_first_codepoint(t) == 2);
                    assert(!not_overlong_encoding(cp, 2));
                    assert(out@ + utf8_prefix_chars(t) =~= out@);
                }
                return out;
            }
            w = 2;
            proof {
                assert((((b & 0x1F) as u32) << 6) | ((b1 & 0x3F) as u32) <= 0x7ff) by (bit_vector);
                assert(decode_first_codepoint(t) == cp);
                assert(length_of_first_codepoint(t) == 2);
                assert(valid_first_scalar(t));
            }
        } else if 0xe0 <= b && b <= 0xef {
            if n - i <= 2 {
                proof {
                    assert(!valid_leading_and_continuation_bytes_first_codepoint(t));
                    assert(out@ + utf8_prefix_chars(t) =~= out@);
                }
                return out;
            }
            let b1 = buf[i + 1];
            let b2 = buf[i + 2];
            proof {
                assert(t[1] == buf@[i as int + 1]);
                assert(t[2] == buf@[i as int + 2]);
            }
            if !(0x80 <= b1 && b1 <= 0xbf) || !(0x80 <= b2 && b2 <= 0xbf) {
                proof {
                    assert(!valid_leading_and_continuation_bytes_first_codepoint(t));
                    assert(out@ + utf8_prefix_chars(t) =~= out@);
                }
                return out;
            }
            cp = (((b & 0x0F) as u32) << 12) | (((b1 & 0x3F) as u32) << 6) | ((b2 & 0x3F) as u32);
            if cp < 0x800 || (0xD800 <= cp && cp <= 0xDFFF) {
                proof {
                    assert(decode_first_codepoint(t) == cp);
                    assert(length_of_first_codepoint(t) == 3);
                    assert(out@ + utf8_prefix_chars(t) =~= out@);
                }
                return out;
            }
            w = 3;
            proof {
                assert((((b & 0x0F) as u32) << 12) | (((b1 & 0x3F) as u32) << 6) | ((b2
                    & 0x3F) as u32) <= 0xffff) by (bit_vector);
                assert(decode_first_codepoint(t) == cp);
                assert(length_of_first_codepoint(t) == 3);
                assert(valid_first_scalar(t));
            }
        } else if 0xf0 <= b && b <= 0xf7 {
            if n - i <= 3 {
                proof {
                    assert(!valid_leading_and_continuation_bytes_first_codepoint(t));
                    assert(out@ + utf8_prefix_chars(t) =~= out@);
                }
                return out;
            }
            let b1 = buf[i + 1];
            let b2 = buf[i + 2];
            let b3 = buf[i + 3];
            proof {
                assert(t[1] == buf@[i as int + 1]);
                assert(t[2] == buf@[i as int + 2]);
                assert(t[3] == buf@[i as int + 3]);
            }
            if !(0x80 <= b1 && b1 <= 0xbf) || !(0x80 <= b2 && b2 <= 0xbf) || !(0x80 <= b3 && b3
                <= 0xbf) {
                proof {
                    assert(!valid_leading_and_continuation_bytes_first_codepoint(t));
                    assert(out@ + utf8_prefix_chars(t) =~= out@);
                }
                return out;
            }
            cp = (((b & 0x07) as u32) << 18) | (((b1 & 0x3F) as u32) << 12) | (((b2
                & 0x3F) as u32) << 6) | ((b3 & 0x3F) as u32);
            if cp < 0x10000 || cp > 0x10ffff {
                proof {
                    assert(decode_first_codepoint(t) == cp);
                    assert(length_of_first_codepoint(t) == 4);
                    assert(!not_overlong_encoding(cp, 4));
                    assert(out@ + utf8_prefix_chars(t) =~= out@);
                }
                return out;
            }
            w = 4;
            proof {
                assert(decode_first_codepoint(t) == cp);
                assert(length_of_first_codepoint(t) == 4);
                assert(valid_first_scalar(t));
            }
        } else {
            proof {
                assert(!valid_leading_and_continuation_bytes_first_codepoint(t));
                assert(out@ + utf8_prefix_chars(t) =~= out@);
            }
            return out;
        }
        match char_from_u32(cp) {
            Some(c) => {
                push_char(&mut out, c);
                proof {
                    assert(c == (decode_first_scalar(t) as char));
                    assert(pop_first_scalar(t) =~= buf@.skip(i as int + w as int));
                    assert(out@ + utf8_prefix_chars(buf@.skip(i as int + w as int)) =~= pre
                        + utf8_prefix_chars(t));
                }
            },
            None => {
                proof {
                    assert(false);
                }
                return out;
            },
        }
        i = i + w;
    }
    proof {
        assert(buf@.skip(n as int) =~= Seq::<u8>::empty());
        assert(out@ + utf8_prefix_chars(buf@.skip(n as int)) =~= out@);
    }
    out
}

/// Whether the blank-line separator stands at position `i` of `r`.
pub open spec fn sep_at(r: Seq<char>, i: int) -> bool {
    &&& i + 4 <= r.len()
    &&& r[i] == '\r'
    &&& r[i + 1] == '\n'
    &&& r[i + 2] == '\r'
    &&& r[i + 3] == '\n'
}

/// The message body of `r`: everything after the first blank-line separator,
/// or empty when the request carries no separator (the body is absent).
pub open spec fn body_of(r: Seq<char>) -> Seq<char>
    decreases r.len(),
{
    if sep_at(r, 0) {
        r.skip(4)
    } else if r.len() == 0 {
        Seq::<char>::empty()
    } else {
        body_of(r.skip(1))
    }
}

proof fn lemma_body_of_short(t: Seq<char>)
    requires
        t.len() < 4,
    ensures
        body_of(t) == Seq::<char>::empty(),
    decreases t.len(),
{
    if t.len() > 0 {
        lemma_body_of_short(t.skip(1));
    }
}

/// Returns the message body of the request: the text after the first
/// blank-line separator, or the empty string when there is none.
pub fn get_body(request: &str) -> (r: String)
    ensures
        r@ == body_of(request@),
{
    let n = request.unicode_len();
    let mut i: usize = 0;
    proof {
        assert(request@.skip(0) =~= request@);
    }
    while n >= 4 && i <= n - 4
        invariant
            0 <= i <= n,
            n == request@.len(),
            body_of(request@) == body_of(request@.skip(i as int)),
        decreases n - i,
    {
        proof {
            assert(request@.skip(i as int)[0] == request@[i as int]);
            assert(request@.skip(i as int)[1] == request@[i as int + 1]);
            assert(request@.skip(i as int)[2] == request@[i as int + 2]);
            assert(request@.skip(i as int)[3] == request@[i as int + 3]);
        }
        if request.get_char(i) == '\r' && request.get_char(i + 1) == '\n' && request.get_char(
            i + 2,
        ) == '\r' && request.get_char(i + 3) == '\n' {
            proof {
                assert(sep_at(request@.skip(i as int), 0));
                assert(request@.skip(i as int).skip(4) =~= request@.skip(i as int + 4));
                assert(request@.skip(i as int + 4) =~= request@.subrange(i as int + 4, n as int));
            }
            let body = request.substring_char(i + 4, n);
            return String::from_str(body);
        }
        proof {
            assert(!sep_at(request@.skip(i as int), 0));
            assert(request@.skip(i as int).skip(1) =~= request@.skip(i as int + 1));
        }
        i = i + 1;
    }
    proof {
        lemma_body_of_short(request@.skip(i as int));
    }
    String::new()
}

} // verus!
