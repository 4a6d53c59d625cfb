use vstd::prelude::*;

verus! {

/// The decimal digit character for `d`.
pub open spec fn digit_char(d: nat) -> char {
    if d == 0 { '0' }
    else if d == 1 { '1' }
    else if d == 2 { '2' }
    else if d == 3 { '3' }
    else if d == 4 { '4' }
    else if d == 5 { '5' }
    else if d == 6 { '6' }
    else if d == 7 { '7' }
    else if d == 8 { '8' }
    else { '9' }
}

/// The decimal notation of `n`, without leading zeros.
pub open spec fn decimal(n: nat) -> Seq<char>
    decreases n,
{
    if n < 10 {
        seq![digit_char(n)]
    } else {
        decimal(n / 10).push(digit_char(n % 10))
    }
}

/// The one-character text of the digit `d`.
fn digit_text(d: usize) -> (r: &'static str)
    requires
        d < 10,
    ensures
        r@ == seq![digit_char(d as nat)],
{
    proof {
        reveal_strlit("0");
        reveal_strlit("1");
        reveal_strlit("2");
        reveal_strlit("3");
        reveal_strlit("4");
        reveal_strlit("5");
        reveal_strlit("6");
        reveal_strlit("7");
        reveal_strlit("8");
        reveal_strlit("9");
    }
    let r = match d {
        0 => "0",
        1 => "1",
        2 => "2",
        3 => "3",
        4 => "4",
        5 => "5",
        6 => "6",
        7 => "7",
        8 => "8",
        _ => "9",
    };
    assert(r@ =~= seq![digit_char(d as nat)]);
    r
}

/// Appends the decimal notation of `n` to `out`.
fn push_decimal(out: &mut String, n: usize)
    ensures
        final(out)@ == old(out)@ + decimal(n as nat),
    decreases n,
{
    if n >= 10 {
        push_decimal(out, n / 10);
    }
    out.append(digit_text(n % 10));
    assert(old(out)@ + decimal(n as nat) =~= final(out)@) by {
        if n >= 10 {
            assert(decimal(n as nat) == decimal((n / 10) as nat).push(digit_char((n % 10) as nat)));
        }
    }
}

/// The JSON text of a wire message from `user_id`, given the JSON form of its
/// chat text, if any; `initial` marks the welcome of a new connection. An
/// absent text and a false `initial` are left out.
pub open spec fn wire_text(user_id: nat, text_json: Option<Seq<char>>, initial: bool) -> Seq<char> {
    let text_part = match text_json {
        Some(j) => ",\"text\":"@ + j,
        None => Seq::empty(),
    };
    let initial_part = if initial {
        ",\"initial\":true"@
    } else {
        Seq::empty()
    };
    "{\"userId\":"@ + decimal(user_id) + text_part + initial_part + "}"@
}

/// The lower-case hexadecimal digit for `d`.
pub open spec fn hex_digit(d: nat) -> char {
    if d < 10 {
        digit_char(d)
    } else if d == 10 {
        'a'
    } else if d == 11 {
        'b'
    } else if d == 12 {
        'c'
    } else if d == 13 {
        'd'
    } else if d == 14 {
        'e'
    } else {
        'f'
    }
}

/// How `c` is written inside a JSON string: quote and backslash are escaped
/// by a backslash, backspace, tab, line feed, form feed and carriage return
/// by their short escapes, the other control characters below U+0020 as
/// `\u00XX`; every other character stands for itself.
pub open spec fn json_escape(c: char) -> Seq<char> {
    if c == '"' {
        seq!['\\', '"']
    } else if c == '\\' {
        seq!['\\', '\\']
    } else if c == '\u{8}' {
        seq!['\\', 'b']
    } else if c == '\t' {
        seq!['\\', 't']
    } else if c == '\n' {
        seq!['\\', 'n']
    } else if c == '\u{c}' {
        seq!['\\', 'f']
    } else if c == '\r' {
        seq!['\\', 'r']
    } else if (c as u32) < 0x20 {
        seq!['\\', 'u', '0', '0', hex_digit((c as u32 / 16) as nat), hex_digit((c as u32 % 16) as nat)]
    } else {
        seq![c]
    }
}

/// The characters of `text`, each written as inside a JSON string.
pub open spec fn json_escaped(text: Seq<char>) -> Seq<char>
    decreases text.len(),
{
    if text.len() == 0 {
        Seq::empty()
    } else {
        json_escaped(text.drop_last()) + json_escape(text.last())
    }
}

/// The JSON string literal that stands for `text`: its escaped characters
/// between double quotes.
pub open spec fn json_string_of(text: Seq<char>) -> Seq<char> {
    seq!['"'] + json_escaped(text) + seq!['"']
}

/// Relies on `serde_json::to_string` on a `str` (`format_escaped_str` and its
/// `ESCAPE` table): the JSON string literal for `s`. It always succeeds: a `str`
/// serialises without error and the output goes to a `Vec<u8>`, whose writes
/// never fail.
#[verifier::external_body]
fn json_string(s: &str) -> (r: Result<String, serde_json::Error>)
    ensures
        r is Ok,
        r matches Ok(j) ==> j@ == json_string_of(s@),
{
    serde_json::to_string(s)
}

/// serde_json's error type, carried opaquely from `json_string`.
#[verifier::external_type_specification]
#[verifier::external_body]
pub struct ExJsonError(serde_json::Error);

/// A message as peers receive it: the welcome that tells a new connection its
/// own id, or a chat text relayed from `user_id`.
pub struct Envelope {
    pub user_id: usize,
    pub text: Option<String>,
    pub initial: bool,
}

/// The JSON text of a wire message, given the JSON form of its chat text
/// (see `wire_text`).
pub fn frame(user_id: usize, text_json: Option<&str>, initial: bool) -> (r: String)
    ensures
        r@ == wire_text(
            user_id as nat,
            match text_json {
                Some(j) => Some(j@),
                None => None,
            },
            initial,
        ),
{
    let mut r = String::from_str("{\"userId\":");
    push_decimal(&mut r, user_id);
    match text_json {
        Some(j) => {
            r.append(",\"text\":");
            r.append(j);
        },
        None => {},
    }
    if initial {
        r.append(",\"initial\":true");
    }
    r.append("}");
    assert(r@ =~= wire_text(
        user_id as nat,
        match text_json {
            Some(j) => Some(j@),
            None => None,
        },
        initial,
    ));
    r
}

impl Envelope {
    /// The welcome sent to a new connection: its own id, no text.
    pub fn welcome(user_id: usize) -> (r: Envelope)
        ensures
            r.user_id == user_id,
            r.text is None,
            r.initial,
    {
        Envelope { user_id, text: None, initial: true }
    }

    /// A chat text relayed from `user_id`.
    pub fn relay(user_id: usize, text: String) -> (r: Envelope)
        ensures
            r.user_id == user_id,
            r.text == Some(text),
            !r.initial,
    {
        Envelope { user_id, text: Some(text), initial: false }
    }

    /// The wire text of this message.
    pub fn encode(&self) -> (r: String)
        ensures
            r@ == wire_text(
                self.user_id as nat,
                match self.text {
                    Some(t) => Some(json_string_of(t@)),
                    None => None,
                },
                self.initial,
            ),
    {
        match &self.text {
            None => frame(self.user_id, None, self.initial),
            Some(t) => match json_string(t.as_str()) {
                Ok(j) => frame(self.user_id, Some(j.as_str()), self.initial),
                Err(_) => frame(self.user_id, None, self.initial),
            },
        }
    }
}

} // verus!
