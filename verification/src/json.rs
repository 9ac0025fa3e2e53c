//! JSON encoding of user records: the exact text the handlers reply with.
use vstd::prelude::*;
use crate::User;
use crate::UserModel;

verus! {

/// The lower-case hexadecimal digit character for a value in 0..=15.
pub open spec fn hex_char(d: int) -> char {
    if d < 10 {
        digit_char(d)
    } else if d == 10 {
        'a'
    } else if d == 11 {
        'b'
    } else if d == 12 {
        'c'
    } else if d == 13 {
        'd'
    } else if d == 14 {
        'e'
    } else {
        'f'
    }
}

/// The JSON escape of one character: the seven short escapes, `\u00XX` for
/// every other control character, and every other character stands for
/// itself.
pub open spec fn esc_char(c: char) -> Seq<char> {
    if c == '"' {
        seq!['\\', '"']
    } else if c == '\\' {
        seq!['\\', '\\']
    } else if c == '\n' {
        seq!['\\', 'n']
    } else if c == '\r' {
        seq!['\\', 'r']
    } else if c == '\t' {
        seq!['\\', 't']
    } else if c == '\u{0008}' {
        seq!['\\', 'b']
    } else if c == '\u{000C}' {
        seq!['\\', 'f']
    } else if (c as u32) < 0x20 {
        seq!['\\', 'u', '0', '0', hex_char(c as u32 as int / 16), hex_char(c as u32 as int % 16)]
    } else {
        seq![c]
    }
}

/// The JSON escape of a string, character by character.
pub open spec fn json_escape(s: Seq<char>) -> Seq<char>
    decreases s.len(),
{
    if s.len() == 0 {
        Seq::<char>::empty()
    } else {
        esc_char(s[0]) + json_escape(s.skip(1))
    }
}

/// The decimal digit character for a value in 0..=9.
pub open spec fn digit_char(d: int) -> char {
    if d == 0 {
        '0'
    } else if d == 1 {
        '1'
    } else if d == 2 {
        '2'
    } else if d == 3 {
        '3'
    } else if d == 4 {
        '4'
    } else if d == 5 {
        '5'
    } else if d == 6 {
        '6'
    } else if d == 7 {
        '7'
    } else if d == 8 {
        '8'
    } else {
        '9'
    }
}

/// The decimal digits of a nonnegative integer, most significant first.
pub open spec fn dec_digits(n: int) -> Seq<char>
    decreases n,
{
    if n < 10 {
        seq![digit_char(n)]
    } else {
        dec_digits(n / 10) + seq![digit_char(n % 10)]
    }
}

/// The decimal text of a signed integer.
pub open spec fn int_str(v: int) -> Seq<char> {
    if v < 0 {
        seq!['-'] + dec_digits(-v)
    } else {
        dec_digits(v)
    }
}

/// The JSON object text for one user: id, name and email, in that order.
pub open spec fn encode_user(u: UserModel) -> Seq<char> {
    "{\"id\":"@ + int_str(u.id) + ",\"name\":\""@ + json_escape(u.name) + "\",\"email\":\""@
        + json_escape(u.email) + "\"}"@
}

/// The tail of a JSON array body: each further user preceded by a comma.
pub open spec fn encode_rest(us: Seq<UserModel>) -> Seq<char>
    decreases us.len(),
{
    if us.len() == 0 {
        Seq::<char>::empty()
    } else {
        seq![','] + encode_user(us[0]) + encode_rest(us.skip(1))
    }
}

/// The body of a JSON array of users: comma-separated objects.
pub open spec fn encode_items(us: Seq<UserModel>) -> Seq<char> {
    if us.len() == 0 {
        Seq::<char>::empty()
    } else {
        encode_user(us[0]) + encode_rest(us.skip(1))
    }
}

/// The JSON array text for a sequence of users.
pub open spec fn encode_users(us: Seq<UserModel>) -> Seq<char> {
    "["@ + encode_items(us) + "]"@
}

/// Relies on String::push: appends exactly the one given character.
#[verifier::external_body]
pub(crate) fn push_char(s: &mut String, c: char)
    ensures
        final(s)@ == old(s)@ + seq![c],
{
    s.push(c);
}

fn hex_char_exec(d: u32) -> (c: char)
    requires
        d < 16,
    ensures
        c == hex_char(d as int),
{
    if d < 10 {
        digit_char_exec(d)
    } else if d == 10 {
        'a'
    } else if d == 11 {
        'b'
    } else if d == 12 {
        'c'
    } else if d == 13 {
        'd'
    } else if d == 14 {
        'e'
    } else {
        'f'
    }
}

fn digit_char_exec(d: u32) -> (c: char)
    requires
        d < 10,
    ensures
        c == digit_char(d as int),
{
    if d == 0 {
        '0'
    } else if d == 1 {
        '1'
    } else if d == 2 {
        '2'
    } else if d == 3 {
        '3'
    } else if d == 4 {
        '4'
    } else if d == 5 {
        '5'
    } else if d == 6 {
        '6'
    } else if d == 7 {
        '7'
    } else if d == 8 {
        '8'
    } else {
        '9'
    }
}

fn push_dec(out: &mut String, n: u32)
    ensures
        final(out)@ == old(out)@ + dec_digits(n as int),
    decreases n,
{
    if n < 10 {
        let c = digit_char_exec(n);
        push_char(out, c);
    } else {
        push_dec(out, n / 10);
        let c = digit_char_exec(n % 10);
        push_char(out, c);
        proof {
            assert((old(out)@ + dec_digits(n as int / 10)) + seq![digit_char(n as int % 10)] =~= old(
                out,
            )@ + dec_digits(n as int));
        }
    }
}

fn push_i32(out: &mut String, v: i32)
    ensures
        final(out)@ == old(out)@ + int_str(v as int),
{
    if v < 0 {
        push_char(out, '-');
        let m: u32 = if v == i32::MIN {
            0x8000_0000u32
        } else {
            (-v) as u32
        };
        push_dec(out, m);
        proof {
            assert((old(out)@ + seq!['-']) + dec_digits(m as int) =~= old(out)@ + int_str(
                v as int,
            ));
        }
    } else {
        push_dec(out, v as u32);
    }
}

fn push_escaped(out: &mut String, s: &String)
    ensures
        final(out)@ == old(out)@ + json_escape(s@),
{
    let st = s.as_str();
    let n = st.unicode_len();
    let mut i: usize = 0;
    proof {
        assert(s@.skip(0) =~= s@);
    }
    while i < n
        invariant
            0 <= i <= n,
            n == s@.len(),
            st@ == s@,
            old(out)@ + json_escape(s@) == out@ + json_escape(s@.skip(i as int)),
        decreases n - i,
    {
        let c = st.get_char(i);
        proof {
            assert(s@.skip(i as int)[0] == s@[i as int]);
            assert(s@.skip(i as int).skip(1) =~= s@.skip(i as int + 1));
        }
        let ghost mid = out@;
        if c == '"' {
            push_char(out, '\\');
            push_char(out, '"');
            proof {
                assert((mid + seq!['\\']) + seq!['"'] =~= mid + esc_char(c));
            }
        } else if c == '\\' {
            push_char(out, '\\');
            push_char(out, '\\');
            proof {
                assert((mid + seq!['\\']) + seq!['\\'] =~= mid + esc_char(c));
            }
        } else if c == '\n' {
            push_char(out, '\\');
            push_char(out, 'n');
            proof {
                assert((mid + seq!['\\']) + seq!['n'] =~= mid + esc_char(c));
            }
        } else if c == '\r' {
            push_char(out, '\\');
            push_char(out, 'r');
            proof {
                assert((mid + seq!['\\']) + seq!['r'] =~= mid + esc_char(c));
            }
        } else if c == '\t' {
            push_char(out, '\\');
            push_char(out, 't');
            proof {
                assert((mid + seq!['\\']) + seq!['t'] =~= mid + esc_char(c));
            }
        } else if c == '\u{0008}' {
            push_char(out, '\\');
            push_char(out, 'b');
            proof {
                assert((mid + seq!['\\']) + seq!['b'] =~= mid + esc_char(c));
            }
        } else if c == '\u{000C}' {
            push_char(out, '\\');
            push_char(out, 'f');
            proof {
                assert((mid + seq!['\\']) + seq!['f'] =~= mid + esc_char(c));
            }
        } else if (c as u32) < 0x20 {
            let v = c as u32;
            push_char(out, '\\');
            push_char(out, 'u');
            push_char(out, '0');
            push_char(out, '0');
            let h1 = hex_char_exec(v / 16);
            push_char(out, h1);
            let h2 = hex_char_exec(v % 16);
            push_char(out, h2);
            proof {
                assert((((((mid + seq!['\\']) + seq!['u']) + seq!['0']) + seq!['0']) + seq![h1])
                    + seq![h2] =~= mid + esc_char(c));
            }
        } else {
            push_char(out, c);
            proof {
                assert(mid + seq![c] =~= mid + esc_char(c));
            }
        }
        proof {
            assert(out@ + json_escape(s@.skip(i as int + 1)) =~= (mid + esc_char(c))
                + json_escape(s@.skip(i as int + 1)));
            assert((mid + esc_char(c)) + json_escape(s@.skip(i as int + 1)) =~= mid + (esc_char(c)
                + json_escape(s@.skip(i as int + 1))));
        }
        i = i + 1;
    }
    proof {
        assert(s@.skip(n as int) =~= Seq::<char>::empty());
        assert(out@ + json_escape(s@.skip(n as int)) =~= out@);
    }
}

/// Encodes one user as the JSON object of [`encode_user`].
pub fn user_to_json(u: &User) -> (r: String)
    ensures
        r@ == encode_user(u@),
{
    let mut out = String::from_str("{\"id\":");
    push_i32(&mut out, u.id);
    out.append(",\"name\":\"");
    push_escaped(&mut out, &u.name);
    out.append("\",\"email\":\"");
    push_escaped(&mut out, &u.email);
    out.append("\"}");
    proof {
        assert(out@ =~= encode_user(u@));
    }
    out
}

/// Encodes a sequence of users as the JSON array of [`encode_users`].
pub fn users_to_json(users: &Vec<User>) -> (r: String)
    ensures
        r@ == encode_users(users@.map_values(|u: User| u@)),
{
    let ghost ms = users@.map_values(|u: User| u@);
    let mut out = String::from_str("[");
    let n = users.len();
    if n > 0 {
        let first = user_to_json(&users[0]);
        out.append(first.as_str());
        let mut i: usize = 1;
        proof {
            assert(ms[0] == users@[0]@);
        }
        while i < n
            invariant
                1 <= i <= n,
                n == users@.len(),
                ms == users@.map_values(|u: User| u@),
                ms.len() == n,
                out@ + encode_rest(ms.skip(i as int)) + "]"@ =~= encode_users(ms),
            decreases n - i,
        {
            let ghost mid = out@;
            push_char(&mut out, ',');
            let item = user_to_json(&users[i]);
            out.append(item.as_str());
            proof {
                assert(ms.skip(i as int)[0] == ms[i as int]);
                assert(ms[i as int] == users@[i as int]@);
                assert(ms.skip(i as int).skip(1) =~= ms.skip(i as int + 1));
                assert(out@ + encode_rest(ms.skip(i as int + 1)) =~= mid + encode_rest(
                    ms.skip(i as int),
                ));
            }
            i = i + 1;
        }
        proof {
            assert(ms.skip(n as int) =~= Seq::<UserModel>::empty());
        }
        out.append("]");
        proof {
            assert(out@ =~= encode_users(ms));
        }
    } else {
        out.append("]");
        proof {
            assert(out@ =~= encode_users(ms));
        }
    }
    out
}

} // verus!
