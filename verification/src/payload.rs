//! Parsing of the create/update payload: a JSON object that must carry
//! string members `name` and `email`.
//!
//! The accepted grammar is a JSON object whose member values are strings
//! (with the short escapes and `\uXXXX` hex escapes; a lone surrogate is
//! rejected, and surrogate pairs are not combined) or unquoted scalars such
//! as numbers, `true`, `false` or `null`; scalar members are skipped,
//! unknown members are ignored, and a member seen twice keeps its last
//! value.  Parsing fails on anything else, and succeeds only when both
//! `name` and `email` are present as strings.
use vstd::prelude::*;
use crate::json::push_char;
use crate::request::is_ws_char;

verus! {

/// The payload of a create or update request: a name and an email.
pub struct UserPayload {
    pub name: String,
    pub email: String,
}

/// Where the parser stands between two characters.
#[derive(Clone, Copy)]
pub enum Mode {
    /// Before the opening brace.
    Start,
    /// After the opening brace: a first member or the closing brace.
    Member,
    /// After a comma: the next member's opening quote.
    NextKey,
    /// Inside a member name.
    Key,
    /// Inside a member name, after a backslash.
    KeyEsc,
    /// Inside a member name, reading the four digits of a hex escape.
    KeyHex,
    /// After a member name: the colon.
    Colon,
    /// After the colon: a string or scalar value.
    Value,
    /// Inside a string value.
    Str,
    /// Inside a string value, after a backslash.
    StrEsc,
    /// Inside a string value, reading the four digits of a hex escape.
    StrHex,
    /// Inside an unquoted scalar value.
    Scalar,
    /// After a member value: a comma or the closing brace.
    AfterVal,
    /// After the closing brace: trailing whitespace only.
    Done,
}

/// Mathematical parser state: mode, accumulators, and the members found.
#[verifier::ext_equal]
pub struct StateModel {
    pub mode: Mode,
    pub key: Seq<char>,
    pub val: Seq<char>,
    pub name: Option<Seq<char>>,
    pub email: Option<Seq<char>>,
    pub hex: Seq<char>,
}

/// Executable parser state; its view is the [`StateModel`].
pub struct ParseState {
    pub mode: Mode,
    pub key: String,
    pub val: String,
    pub name: Option<String>,
    pub email: Option<String>,
    pub hex: String,
}

impl View for ParseState {
    type V = StateModel;

    open spec fn view(&self) -> StateModel {
        StateModel {
            mode: self.mode,
            key: self.key@,
            val: self.val@,
            name: match self.name {
                Some(s) => Some(s@),
                None => None,
            },
            email: match self.email {
                Some(s) => Some(s@),
                None => None,
            },
            hex: self.hex@,
        }
    }
}

/// What a backslash escape stands for, if it is one the grammar knows.
pub open spec fn esc_map(e: char) -> Option<char> {
    if e == '"' {
        Some('"')
    } else if e == '\\' {
        Some('\\')
    } else if e == '/' {
        Some('/')
    } else if e == 'n' {
        Some('\n')
    } else if e == 't' {
        Some('\t')
    } else if e == 'r' {
        Some('\r')
    } else if e == 'b' {
        Some('\u{0008}')
    } else if e == 'f' {
        Some('\u{000C}')
    } else {
        None::<char>
    }
}

/// Whether `c` may stand in an unquoted scalar value.
pub open spec fn scalar_char(c: char) -> bool {
    &&& !is_ws_char(c)
    &&& c != '"'
    &&& c != '{'
    &&& c != '}'
    &&& c != '['
    &&& c != ']'
    &&& c != ','
    &&& c != ':'
    &&& c != '\\'
}

/// Whether `c` is a hexadecimal digit, in either case.
pub open spec fn is_hex_digit(c: char) -> bool {
    ||| 48 <= c as u32 && c as u32 <= 57
    ||| 65 <= c as u32 && c as u32 <= 70
    ||| 97 <= c as u32 && c as u32 <= 102
}

/// The value of the hexadecimal digit `c`.
pub open spec fn hex_digit_val(c: char) -> int {
    if 97 <= c as u32 {
        c as u32 - 87
    } else if 65 <= c as u32 {
        c as u32 - 55
    } else {
        c as u32 - 48
    }
}

/// The hex accumulator only ever holds hexadecimal digits.
pub open spec fn hex_ok(st: StateModel) -> bool {
    forall|k: int| 0 <= k < st.hex.len() ==> is_hex_digit(#[trigger] st.hex[k])
}

/// The code point named by four hexadecimal digits.
pub open spec fn hex4_val(h0: char, h1: char, h2: char, h3: char) -> int {
    hex_digit_val(h0) * 4096 + hex_digit_val(h1) * 256 + hex_digit_val(h2) * 16 + hex_digit_val(h3)
}

/// One step of the payload parser: the state after reading `c`, or `None`
/// when `c` cannot follow.
pub open spec fn step(st: StateModel, c: char) -> Option<StateModel> {
    match st.mode {
        Mode::Start => if is_ws_char(c) {
            Some(st)
        } else if c == '{' {
            Some(StateModel { mode: Mode::Member, ..st })
        } else {
            None::<StateModel>
        },
        Mode::Member => if is_ws_char(c) {
            Some(st)
        } else if c == '"' {
            Some(StateModel { mode: Mode::Key, key: Seq::<char>::empty(), ..st })
        } else if c == '}' {
            Some(StateModel { mode: Mode::Done, ..st })
        } else {
            None::<StateModel>
        },
        Mode::NextKey => if is_ws_char(c) {
            Some(st)
        } else if c == '"' {
            Some(StateModel { mode: Mode::Key, key: Seq::<char>::empty(), ..st })
        } else {
            None::<StateModel>
        },
        Mode::Key => if c == '"' {
            Some(StateModel { mode: Mode::Colon, ..st })
        } else if c == '\\' {
            Some(StateModel { mode: Mode::KeyEsc, ..st })
        } else {
            Some(StateModel { key: st.key + seq![c], ..st })
        },
        Mode::KeyEsc => if c == 'u' {
            Some(StateModel { mode: Mode::KeyHex, hex: Seq::<char>::empty(), ..st })
        } else {
            match esc_map(c) {
                Some(d) => Some(StateModel { mode: Mode::Key, key: st.key + seq![d], ..st }),
                None => None::<StateModel>,
            }
        },
        Mode::KeyHex => if is_hex_digit(c) {
            if st.hex.len() == 3 {
                let v = hex4_val(st.hex[0], st.hex[1], st.hex[2], c);
                if 0xD800 <= v < 0xE000 {
                    None::<StateModel>
                } else {
                    Some(
                        StateModel {
                            mode: Mode::Key,
                            key: st.key + seq![((v as u32) as char)],
                            hex: Seq::<char>::empty(),
                            ..st
                        },
                    )
                }
            } else {
                Some(StateModel { hex: st.hex + seq![c], ..st })
            }
        } else {
            None::<StateModel>
        },
        Mode::Colon => if is_ws_char(c) {
            Some(st)
        } else if c == ':' {
            Some(StateModel { mode: Mode::Value, ..st })
        } else {
            None::<StateModel>
        },
        Mode::Value => if is_ws_char(c) {
            Some(st)
        } else if c == '"' {
            Some(StateModel { mode: Mode::Str, val: Seq::<char>::empty(), ..st })
        } else if scalar_char(c) {
            Some(StateModel { mode: Mode::Scalar, ..st })
        } else {
            None::<StateModel>
        },
        Mode::Str => if c == '"' {
            Some(
                StateModel {
                    mode: Mode::AfterVal,
                    key: Seq::<char>::empty(),
                    val: Seq::<char>::empty(),
                    name: if st.key == "name"@ {
                        Some(st.val)
                    } else {
                        st.name
                    },
                    email: if st.key == "name"@ {
                        st.email
                    } else if st.key == "email"@ {
                        Some(st.val)
                    } else {
                        st.email
                    },
                    hex: st.hex,
                },
            )
        } else if c == '\\' {
            Some(StateModel { mode: Mode::StrEsc, ..st })
        } else {
            Some(StateModel { val: st.val + seq![c], ..st })
        },
        Mode::StrEsc => if c == 'u' {
            Some(StateModel { mode: Mode::StrHex, hex: Seq::<char>::empty(), ..st })
        } else {
            match esc_map(c) {
                Some(d) => Some(StateModel { mode: Mode::Str, val: st.val + seq![d], ..st }),
                None => None::<StateModel>,
            }
        },
        Mode::StrHex => if is_hex_digit(c) {
            if st.hex.len() == 3 {
                let v = hex4_val(st.hex[0], st.hex[1], st.hex[2], c);
                if 0xD800 <= v < 0xE000 {
                    None::<StateModel>
                } else {
                    Some(
                        StateModel {
                            mode: Mode::Str,
                            val: st.val + seq![((v as u32) as char)],
                            hex: Seq::<char>::empty(),
                            ..st
                        },
                    )
                }
            } else {
                Some(StateModel { hex: st.hex + seq![c], ..st })
            }
        } else {
            None::<StateModel>
        },
        Mode::Scalar => if scalar_char(c) {
            Some(st)
        } else if is_ws_char(c) {
            Some(StateModel { mode: Mode::AfterVal, ..st })
        } else if c == ',' {
            Some(StateModel { mode: Mode::NextKey, ..st })
        } else if c == '}' {
            Some(StateModel { mode: Mode::Done, ..st })
        } else {
            None::<StateModel>
        },
        Mode::AfterVal => if is_ws_char(c) {
            Some(st)
        } else if c == ',' {
            Some(StateModel { mode: Mode::NextKey, ..st })
        } else if c == '}' {
            Some(StateModel { mode: Mode::Done, ..st })
        } else {
            None::<StateModel>
        },
        Mode::Done => if is_ws_char(c) {
            Some(st)
        } else {
            None::<StateModel>
        },
    }
}

/// What a finished parse yields: the name and email, only when the whole
/// object was read and both members were present.
pub open spec fn finalize(st: StateModel) -> Option<(Seq<char>, Seq<char>)> {
    if st.mode is Done && st.name is Some && st.email is Some {
        Some((st.name->Some_0, st.email->Some_0))
    } else {
        None::<(Seq<char>, Seq<char>)>
    }
}

/// The parser state before any character has been read.
pub open spec fn init_state() -> StateModel {
    StateModel {
        mode: Mode::Start,
        key: Seq::<char>::empty(),
        val: Seq::<char>::empty(),
        name: None::<Seq<char>>,
        email: None::<Seq<char>>,
        hex: Seq::<char>::empty(),
    }
}

/// Runs the parser over `s` from position `i` in state `st`.
pub open spec fn run(s: Seq<char>, i: int, st: StateModel) -> Option<(Seq<char>, Seq<char>)>
    decreases s.len() - i,
{
    if 0 <= i < s.len() {
        match step(st, s[i]) {
            Some(st2) => run(s, i + 1, st2),
            None => None::<(Seq<char>, Seq<char>)>,
        }
    } else {
        finalize(st)
    }
}

/// The name and email carried by payload text `s`, or `None` when the
/// grammar rejects it.
pub open spec fn parse_payload(s: Seq<char>) -> Option<(Seq<char>, Seq<char>)> {
    run(s, 0, init_state())
}

/// Whether `a` and `b` hold the same characters.
fn str_eq(a: &str, b: &str) -> (r: bool)
    ensures
        r == (a@ == b@),
{
    let n = a.unicode_len();
    let m = b.unicode_len();
    if n != m {
        return false;
    }
    let mut i: usize = 0;
    while i < n
        invariant
            0 <= i <= n,
            n == a@.len(),
            n == b@.len(),
            forall|k: int| 0 <= k < i ==> a@[k] == b@[k],
        decreases n - i,
    {
        if a.get_char(i) != b.get_char(i) {
            return false;
        }
        i = i + 1;
    }
    proof {
        assert(a@ =~= b@);
    }
    true
}

fn esc_map_exec(e: char) -> (r: Option<char>)
    ensures
        r == esc_map(e),
{
    if e == '"' {
        Some('"')
    } else if e == '\\' {
        Some('\\')
    } else if e == '/' {
        Some('/')
    } else if e == 'n' {
        Some('\n')
    } else if e == 't' {
        Some('\t')
    } else if e == 'r' {
        Some('\r')
    } else if e == 'b' {
        Some('\u{0008}')
    } else if e == 'f' {
        Some('\u{000C}')
    } else {
        None
    }
}

fn ws_char_exec(c: char) -> (b: bool)
    ensures
        b == is_ws_char(c),
{
    c == ' ' || c == '\t' || c == '\r' || c == '\n'
}

fn is_hex_digit_exec(c: char) -> (b: bool)
    ensures
        b == is_hex_digit(c),
{
    let u = c as u32;
    (48 <= u && u <= 57) || (65 <= u && u <= 70) || (97 <= u && u <= 102)
}

fn hex_digit_val_exec(c: char) -> (r: u32)
    requires
        is_hex_digit(c),
    ensures
        r as int == hex_digit_val(c),
        r < 16,
{
    let u = c as u32;
    if 97 <= u {
        u - 87
    } else if 65 <= u {
        u - 55
    } else {
        u - 48
    }
}

/// Relies on char::from_u32: `Some` exactly when the value is a Unicode
/// scalar (not a surrogate, at most 0x10FFFF), and the character then has
/// exactly that value.
#[verifier::external_body]
pub(crate) fn char_from_u32(v: u32) -> (r: Option<char>)
    ensures
        r == (if (0xD800 <= v < 0xE000) || v > 0x10FFFF {
            None::<char>
        } else {
            Some(v as char)
        }),
{
    char::from_u32(v)
}

fn scalar_char_exec(c: char) -> (b: bool)
    ensures
        b == scalar_char(c),
{
    !ws_char_exec(c) && c != '"' && c != '{' && c != '}' && c != '[' && c != ']' && c != ','
        && c != ':' && c != '\\'
}

fn step_exec(st: ParseState, c: char) -> (r: Option<ParseState>)
    requires
        hex_ok(st@),
    ensures
        match r {
            Some(s2) => step(st@, c) == Some(s2@) && hex_ok(s2@),
            None => step(st@, c) is None,
        },
{
    let ParseState { mode, mut key, mut val, name, email, mut hex } = st;
    match mode {
        Mode::Start => if ws_char_exec(c) {
            Some(ParseState { mode: Mode::Start, key, val, name, email, hex })
        } else if c == '{' {
            Some(ParseState { mode: Mode::Member, key, val, name, email, hex })
        } else {
            None
        },
        Mode::Member => if ws_char_exec(c) {
            Some(ParseState { mode: Mode::Member, key, val, name, email, hex })
        } else if c == '"' {
            Some(ParseState { mode: Mode::Key, key: String::new(), val, name, email, hex })
        } else if c == '}' {
            Some(ParseState { mode: Mode::Done, key, val, name, email, hex })
        } else {
            None
        },
        Mode::NextKey => if ws_char_exec(c) {
            Some(ParseState { mode: Mode::NextKey, key, val, name, email, hex })
        } else if c == '"' {
            Some(ParseState { mode: Mode::Key, key: String::new(), val, name, email, hex })
        } else {
            None
        },
        Mode::Key => if c == '"' {
            Some(ParseState { mode: Mode::Colon, key, val, name, email, hex })
        } else if c == '\\' {
            Some(ParseState { mode: Mode::KeyEsc, key, val, name, email, hex })
        } else {
            push_char(&mut key, c);
            Some(ParseState { mode: Mode::Key, key, val, name, email, hex })
        },
        Mode::KeyEsc => if c == 'u' {
            Some(ParseState { mode: Mode::KeyHex, key, val, name, email, hex: String::new() })
        } else {
            match esc_map_exec(c) {
                Some(d) => {
                    push_char(&mut key, d);
                    Some(ParseState { mode: Mode::Key, key, val, name, email, hex })
                },
                None => None,
            }
        },
        Mode::KeyHex => if is_hex_digit_exec(c) {
            if hex.as_str().unicode_len() == 3 {
                let h0 = hex.as_str().get_char(0);
                let h1 = hex.as_str().get_char(1);
                let h2 = hex.as_str().get_char(2);
                let v: u32 = hex_digit_val_exec(h0) * 4096 + hex_digit_val_exec(h1) * 256
                    + hex_digit_val_exec(h2) * 16 + hex_digit_val_exec(c);
                match char_from_u32(v) {
                    Some(d) => {
                        push_char(&mut key, d);
                        Some(
                            ParseState {
                                mode: Mode::Key,
                                key,
                                val,
                                name,
                                email,
                                hex: String::new(),
                            },
                        )
                    },
                    None => None,
                }
            } else {
                push_char(&mut hex, c);
                Some(ParseState { mode: Mode::KeyHex, key, val, name, email, hex })
            }
        } else {
            None
        },
        Mode::Colon => if ws_char_exec(c) {
            Some(ParseState { mode: Mode::Colon, key, val, name, email, hex })
        } else if c == ':' {
            Some(ParseState { mode: Mode::Value, key, val, name, email, hex })
        } else {
            None
        },
        Mode::Value => if ws_char_exec(c) {
            Some(ParseState { mode: Mode::Value, key, val, name, email, hex })
        } else if c == '"' {
            Some(ParseState { mode: Mode::Str, key, val: String::new(), name, email, hex })
        } else if scalar_char_exec(c) {
            Some(ParseState { mode: Mode::Scalar, key, val, name, email, hex })
        } else {
            None
        },
        Mode::Str => if c == '"' {
            let name_hit = str_eq(key.as_str(), "name");
            let email_hit = str_eq(key.as_str(), "email");
            if name_hit {
                Some(
                    ParseState {
                        mode: Mode::AfterVal,
                        key: String::new(),
                        val: String::new(),
                        name: Some(val),
                        email,
                        hex,
                    },
                )
            } else if email_hit {
                Some(
                    ParseState {
                        mode: Mode::AfterVal,
                        key: String::new(),
                        val: String::new(),
                        name,
                        email: Some(val),
                        hex,
                    },
                )
            } else {
                Some(
                    ParseState {
                        mode: Mode::AfterVal,
                        key: String::new(),
                        val: String::new(),
                        name,
                        email,
                        hex,
                    },
                )
            }
        } else if c == '\\' {
            Some(ParseState { mode: Mode::StrEsc, key, val, name, email, hex })
        } else {
            push_char(&mut val, c);
            Some(ParseState { mode: Mode::Str, key, val, name, email, hex })
        },
        Mode::StrEsc => if c == 'u' {
            Some(ParseState { mode: Mode::StrHex, key, val, name, email, hex: String::new() })
        } else {
            match esc_map_exec(c) {
                Some(d) => {
                    push_char(&mut val, d);
                    Some(ParseState { mode: Mode::Str, key, val, name, email, hex })
                },
                None => None,
            }
        },
        Mode::StrHex => if is_hex_digit_exec(c) {
            if hex.as_str().unicode_len() == 3 {
                let h0 = hex.as_str().get_char(0);
                let h1 = hex.as_str().get_char(1);
                let h2 = hex.as_str().get_char(2);
                let v: u32 = hex_digit_val_exec(h0) * 4096 + hex_digit_val_exec(h1) * 256
                    + hex_digit_val_exec(h2) * 16 + hex_digit_val_exec(c);
                match char_from_u32(v) {
                    Some(d) => {
                        push_char(&mut val, d);
                        Some(
                            ParseState {
                                mode: Mode::Str,
                                key,
                                val,
                                name,
                                email,
                                hex: String::new(),
                            },
                        )
                    },
                    None => None,
                }
            } else {
                push_char(&mut hex, c);
                Some(ParseState { mode: Mode::StrHex, key, val, name, email, hex })
            }
        } else {
            None
        },
        Mode::Scalar => if scalar_char_exec(c) {
            Some(ParseState { mode: Mode::Scalar, key, val, name, email, hex })
        } else if ws_char_exec(c) {
            Some(ParseState { mode: Mode::AfterVal, key, val, name, email, hex })
        } else if c == ',' {
            Some(ParseState { mode: Mode::NextKey, key, val, name, email, hex })
        } else if c == '}' {
            Some(ParseState { mode: Mode::Done, key, val, name, email, hex })
        } else {
            None
        },
        Mode::AfterVal => if ws_char_exec(c) {
            Some(ParseState { mode: Mode::AfterVal, key, val, name, email, hex })
        } else if c == ',' {
            Some(ParseState { mode: Mode::NextKey, key, val, name, email, hex })
        } else if c == '}' {
            Some(ParseState { mode: Mode::Done, key, val, name, email, hex })
        } else {
            None
        },
        Mode::Done => if ws_char_exec(c) {
            Some(ParseState { mode: Mode::Done, key, val, name, email, hex })
        } else {
            None
        },
    }
}

/// Parses the message body as a user payload, exactly when the grammar of
/// [`parse_payload`] accepts it.
pub fn parse_user_payload(body: &str) -> (r: Option<UserPayload>)
    ensures
        match r {
            Some(p) => parse_payload(body@) == Some((p.name@, p.email@)),
            None => parse_payload(body@) is None,
        },
{
    let n = body.unicode_len();
    let mut st = ParseState {
        mode: Mode::Start,
        key: String::new(),
        val: String::new(),
        name: None,
        email: None,
        hex: String::new(),
    };
    proof {
        assert(st@ =~= init_state());
    }
    let mut i: usize = 0;
    while i < n
        invariant
            0 <= i <= n,
            n == body@.len(),
            hex_ok(st@),
            run(body@, i as int, st@) == parse_payload(body@),
        decreases n - i,
    {
        let c = body.get_char(i);
        match step_exec(st, c) {
            Some(s2) => {
                st = s2;
            },
            None => {
                return None;
            },
        }
        i = i + 1;
    }
    match st.mode {
        Mode::Done => {},
        _ => {
            return None;
        },
    }
    let nm = match st.name {
        Some(s) => s,
        None => {
            return None;
        },
    };
    let em = match st.email {
        Some(s) => s,
        None => {
            return None;
        },
    };
    Some(UserPayload { name: nm, email: em })
}

} // verus!
