//! Rendering messages into chat-template inputs.
//!
//! The template engine receives each message as a small JSON object,
//! `{"role":"...","content":"..."}`, with the string escaping JSON requires:
//! quote and backslash escaped, control characters as their short escapes or
//! `\u00XX`. The escaping is specified character by character and the
//! builder is proved against it.

use vstd::prelude::*;
use crate::api::Message;
use crate::strings::{chars_of, push_char};
use vstd::string::StringExecFns;

verus! {

/// The lower-case hex digit for one nibble.
pub open spec fn hex_digit_char(d: u32) -> char {
    if d == 0 {
        '0'
    } else if d == 1 {
        '1'
    } else if d == 2 {
        '2'
    } else if d == 3 {
        '3'
    } else if d == 4 {
        '4'
    } else if d == 5 {
        '5'
    } else if d == 6 {
        '6'
    } else if d == 7 {
        '7'
    } else if d == 8 {
        '8'
    } else if d == 9 {
        '9'
    } else if d == 10 {
        'a'
    } else if d == 11 {
        'b'
    } else if d == 12 {
        'c'
    } else if d == 13 {
        'd'
    } else if d == 14 {
        'e'
    } else {
        'f'
    }
}

/// How one character appears inside a JSON string literal.
pub open spec fn json_escape_char(c: char) -> Seq<char> {
    if c == '"' {
        seq!['\\', '"']
    } else if c == '\\' {
        seq!['\\', '\\']
    } else if c == '\u{0008}' {
        seq!['\\', 'b']
    } else if c == '\u{000C}' {
        seq!['\\', 'f']
    } else if c == '\n' {
        seq!['\\', 'n']
    } else if c == '\r' {
        seq!['\\', 'r']
    } else if c == '\t' {
        seq!['\\', 't']
    } else if (c as u32) < 0x20 {
        seq!['\\', 'u', '0', '0', hex_digit_char((c as u32) / 16), hex_digit_char((c as u32) % 16)]
    } else {
        seq![c]
    }
}

/// A whole string, escaped for a JSON string literal.
pub open spec fn json_escaped(s: Seq<char>) -> Seq<char>
    decreases s.len(),
{
    if s.len() == 0 {
        Seq::empty()
    } else {
        json_escape_char(s[0]) + json_escaped(s.drop_first())
    }
}

/// The JSON object a message is rendered to.
pub open spec fn spec_message_json(role: Seq<char>, content: Seq<char>) -> Seq<char> {
    "{\"role\":\""@ + json_escaped(role) + "\",\"content\":\""@ + json_escaped(content) + "\"}"@
}

fn hex_digit(d: u32) -> (r: char)
    requires
        d < 16,
    ensures
        r == hex_digit_char(d),
{
    match d {
        0 => '0',
        1 => '1',
        2 => '2',
        3 => '3',
        4 => '4',
        5 => '5',
        6 => '6',
        7 => '7',
        8 => '8',
        9 => '9',
        10 => 'a',
        11 => 'b',
        12 => 'c',
        13 => 'd',
        14 => 'e',
        _ => 'f',
    }
}

/// Append `s`, escaped, to `out`.
#[verifier::loop_isolation(false)]
fn append_escaped(out: &mut String, s: &str)
    ensures
        final(out)@ == old(out)@ + json_escaped(s@),
{
    let cs = chars_of(s);
    proof {
        assert(cs@.skip(0) =~= cs@);
    }
    let mut i: usize = 0;
    while i < cs.len()
        invariant
            i <= cs@.len(),
            out@ + json_escaped(cs@.skip(i as int)) == old(out)@ + json_escaped(cs@),
        decreases cs@.len() - i,
    {
        let c = cs[i];
        let ghost prev = out@;
        proof {
            assert(cs@.skip(i as int)[0] == cs@[i as int]);
            assert(cs@.skip(i as int).drop_first() =~= cs@.skip(i + 1));
            assert(json_escaped(cs@.skip(i as int).drop_first()) == json_escaped(
                cs@.skip(i + 1),
            ));
        }
        if c == '"' {
            push_char(out, '\\');
            push_char(out, '"');
        } else if c == '\\' {
            push_char(out, '\\');
            push_char(out, '\\');
        } else if c == '\u{0008}' {
            push_char(out, '\\');
            push_char(out, 'b');
        } else if c == '\u{000C}' {
            push_char(out, '\\');
            push_char(out, 'f');
        } else if c == '\n' {
            push_char(out, '\\');
            push_char(out, 'n');
        } else if c == '\r' {
            push_char(out, '\\');
            push_char(out, 'r');
        } else if c == '\t' {
            push_char(out, '\\');
            push_char(out, 't');
        } else if (c as u32) < 0x20 {
            let cu = c as u32;
            push_char(out, '\\');
            push_char(out, 'u');
            push_char(out, '0');
            push_char(out, '0');
            push_char(out, hex_digit(cu / 16));
            push_char(out, hex_digit(cu % 16));
        } else {
            push_char(out, c);
        }
        proof {
            assert(out@ =~= prev + json_escape_char(cs@[i as int]));
            assert(out@ + json_escaped(cs@.skip(i + 1)) =~= old(out)@ + json_escaped(cs@));
        }
        i = i + 1;
    }
    proof {
        assert(cs@.skip(cs@.len() as int) =~= Seq::<char>::empty());
        assert(final(out)@ =~= old(out)@ + json_escaped(cs@));
    }
}

/// The JSON object for one role/content pair.
pub fn message_json(role: &str, content: &str) -> (r: String)
    ensures
        r@ == spec_message_json(role@, content@),
{
    let mut out = String::new();
    out.append("{\"role\":\"");
    append_escaped(&mut out, role);
    out.append("\",\"content\":\"");
    append_escaped(&mut out, content);
    out.append("\"}");
    proof {
        assert(out@ =~= spec_message_json(role@, content@));
    }
    out
}

/// One role-tagged message as the template layer takes it; `to_json` is its
/// serialized form.
#[derive(Debug)]
pub struct Prompt {
    pub role: String,
    pub content: String,
}

impl Prompt {
    pub fn to_json(&self) -> (r: String)
        ensures
            r@ == spec_message_json(self.role@, self.content@),
    {
        message_json(self.role.as_str(), self.content.as_str())
    }
}

/// The template inputs for a request: the pre-rendered system message
/// first, then each request message as its JSON object.
pub fn build_prompt_vec(system_prompt: &String, messages: &Vec<Message>) -> (r: Vec<String>)
    ensures
        r@.len() == messages@.len() + 1,
        r@[0]@ == system_prompt@,
        forall|i: int|
            0 <= i < messages@.len() ==> #[trigger] r@[i + 1]@ == spec_message_json(
                messages@[i].role@,
                messages@[i].content@,
            ),
{
    let mut r: Vec<String> = Vec::new();
    r.push(system_prompt.clone());
    let mut i: usize = 0;
    while i < messages.len()
        invariant
            i <= messages@.len(),
            r@.len() == i + 1,
            r@[0]@ == system_prompt@,
            forall|j: int|
                0 <= j < i ==> #[trigger] r@[j + 1]@ == spec_message_json(
                    messages@[j].role@,
                    messages@[j].content@,
                ),
        decreases messages@.len() - i,
    {
        let m = &messages[i];
        r.push(message_json(m.role.as_str(), m.content.as_str()));
        i = i + 1;
    }
    r
}

} // verus!
