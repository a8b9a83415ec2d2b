//! Extracting the last JSON action from agent-style model output.
//!
//! A model reply may carry one or more `Action:` markers, each optionally
//! followed by a triple-backtick-fenced or bare JSON value. `get_last_json`
//! returns the last candidate that parses as JSON. The scan is specified by
//! `spec_scan`, and parseability by the named result of the JSON parser.

use vstd::prelude::*;
use crate::strings::{chars_of, string_of_chars};

verus! {

#[verifier::external_type_specification]
#[verifier::external_body]
pub struct ExJsonValue(serde_json::Value);

/// Whether serde's JSON grammar accepts the text; a function of the text
/// alone.
pub uninterp spec fn json_accepts(s: Seq<char>) -> bool;

/// The JSON value the text parses to, when `json_accepts` holds.
pub uninterp spec fn json_value_of(s: Seq<char>) -> serde_json::Value;

/// Relies on serde_json::from_str::<Value>: whether a text parses, and to
/// which value, depends on the text alone; the two are named `json_accepts`
/// and `json_value_of`.
#[verifier::external_body]
fn parse_json(s: &str) -> (r: Option<serde_json::Value>)
    ensures
        r is Some <==> json_accepts(s@),
        r matches Some(v) ==> v == json_value_of(s@),
{
    match serde_json::from_str::<serde_json::Value>(s) {
        Ok(v) => Some(v),
        Err(_) => None,
    }
}

/// The marker that announces an action.
pub open spec fn action_marker() -> Seq<char> {
    seq!['A', 'c', 't', 'i', 'o', 'n', ':']
}

/// A triple-backtick code fence.
pub open spec fn fence() -> Seq<char> {
    seq!['`', '`', '`']
}

/// The Unicode white-space characters, as `char::is_whitespace` lists them.
pub open spec fn is_ws(c: char) -> bool {
    ||| (0x09 <= (c as u32) && (c as u32) <= 0x0D)
    ||| (c as u32) == 0x20
    ||| (c as u32) == 0x85
    ||| (c as u32) == 0xA0
    ||| (c as u32) == 0x1680
    ||| (0x2000 <= (c as u32) && (c as u32) <= 0x200A)
    ||| (c as u32) == 0x2028
    ||| (c as u32) == 0x2029
    ||| (c as u32) == 0x202F
    ||| (c as u32) == 0x205F
    ||| (c as u32) == 0x3000
}

/// Whether `pat` occurs in `s` at position `i`.
pub open spec fn matches_at(s: Seq<char>, i: int, pat: Seq<char>) -> bool {
    0 <= i && i + pat.len() <= s.len() && s.subrange(i, i + pat.len()) == pat
}

/// The first position at or after `pos` where `pat` occurs, if any.
pub open spec fn first_at(s: Seq<char>, pos: int, pat: Seq<char>) -> Option<int>
    decreases s.len() - pos,
{
    if pat.len() == 0 || pos + pat.len() > s.len() {
        None
    } else if matches_at(s, pos, pat) {
        Some(pos)
    } else {
        first_at(s, pos + 1, pat)
    }
}

/// The first position at or after `i` holding a non-white-space character,
/// or the end of `s`.
pub open spec fn ws_end(s: Seq<char>, i: int) -> int
    decreases s.len() - i,
{
    if 0 <= i < s.len() && is_ws(s[i]) {
        ws_end(s, i + 1)
    } else {
        i
    }
}

/// One past the last non-white-space character before position `j`.
pub open spec fn trim_end_idx(s: Seq<char>, j: int) -> int
    decreases j,
{
    if 0 < j <= s.len() && is_ws(s[j - 1]) {
        trim_end_idx(s, j - 1)
    } else {
        j
    }
}

/// `s` with white space removed from both ends.
pub open spec fn spec_trim(s: Seq<char>) -> Seq<char> {
    let a = ws_end(s, 0);
    let b = trim_end_idx(s, s.len() as int);
    if a <= b {
        s.subrange(a, b)
    } else {
        Seq::empty()
    }
}

proof fn lemma_first_at_bounds(s: Seq<char>, pos: int, pat: Seq<char>)
    ensures
        first_at(s, pos, pat) matches Some(m) ==> pos <= m && m + pat.len() <= s.len()
            && matches_at(s, m, pat),
    decreases s.len() - pos,
{
    if pat.len() == 0 || pos + pat.len() > s.len() {
    } else if matches_at(s, pos, pat) {
    } else {
        lemma_first_at_bounds(s, pos + 1, pat);
    }
}

proof fn lemma_ws_end_bounds(s: Seq<char>, i: int)
    requires
        0 <= i <= s.len(),
    ensures
        i <= ws_end(s, i) <= s.len(),
    decreases s.len() - i,
{
    if 0 <= i < s.len() && is_ws(s[i]) {
        lemma_ws_end_bounds(s, i + 1);
    }
}

/// The candidate the scan settles on, starting at `pos` with `acc` as the
/// last parseable candidate seen so far: after each `Action:` marker and
/// any white space, a fenced candidate is the trimmed fence body and the
/// scan goes on behind the fence, while a bare `{` or `[` candidate is the
/// whole rest of the text and ends the scan.
pub open spec fn spec_scan(s: Seq<char>, pos: int, acc: Option<Seq<char>>) -> Option<Seq<char>>
    decreases s.len() - pos,
    via spec_scan_dec
{
    match first_at(s, pos, action_marker()) {
        Option::None => acc,
        Option::Some(m) => {
            let j = ws_end(s, m + 7);
            if j + 3 <= s.len() && matches_at(s, j, fence()) {
                match first_at(s, j + 3, fence()) {
                    Option::None => acc,
                    Option::Some(cend) => {
                        let cand = spec_trim(s.subrange(j + 3, cend));
                        spec_scan(
                            s,
                            cend + 3,
                            if json_accepts(cand) {
                                Some(cand)
                            } else {
                                acc
                            },
                        )
                    },
                }
            } else if j < s.len() && (s[j] == '{' || s[j] == '[') {
                let cand = s.subrange(j, s.len() as int);
                if json_accepts(cand) {
                    Some(cand)
                } else {
                    acc
                }
            } else {
                spec_scan(s, j, acc)
            }
        },
    }
}

#[via_fn]
proof fn spec_scan_dec(s: Seq<char>, pos: int, acc: Option<Seq<char>>) {
    lemma_first_at_bounds(s, pos, action_marker());
    match first_at(s, pos, action_marker()) {
        Option::None => {},
        Option::Some(m) => {
            lemma_ws_end_bounds(s, m + 7);
            let j = ws_end(s, m + 7);
            if j + 3 <= s.len() && matches_at(s, j, fence()) {
                lemma_first_at_bounds(s, j + 3, fence());
            }
        },
    }
}

fn is_ws_char(c: char) -> (b: bool)
    ensures
        b == is_ws(c),
{
    let u = c as u32;
    (0x09 <= u && u <= 0x0D) || u == 0x20 || u == 0x85 || u == 0xA0 || u == 0x1680 || (0x2000 <= u
        && u <= 0x200A) || u == 0x2028 || u == 0x2029 || u == 0x202F || u == 0x205F || u == 0x3000
}

fn marker_chars() -> (v: Vec<char>)
    ensures
        v@ == action_marker(),
{
    let mut v: Vec<char> = Vec::new();
    v.push('A');
    v.push('c');
    v.push('t');
    v.push('i');
    v.push('o');
    v.push('n');
    v.push(':');
    proof {
        assert(v@ =~= action_marker());
    }
    v
}

fn fence_chars() -> (v: Vec<char>)
    ensures
        v@ == fence(),
{
    let mut v: Vec<char> = Vec::new();
    v.push('`');
    v.push('`');
    v.push('`');
    proof {
        assert(v@ =~= fence());
    }
    v
}

#[verifier::loop_isolation(false)]
fn match_at_exec(cs: &Vec<char>, i: usize, pat: &Vec<char>) -> (b: bool)
    requires
        i + pat@.len() <= cs@.len(),
    ensures
        b == matches_at(cs@, i as int, pat@),
{
    let _total = cs.len();
    let mut k: usize = 0;
    while k < pat.len()
        invariant
            k <= pat@.len(),
            i + pat@.len() <= cs@.len(),
            forall|t: int| 0 <= t < k ==> cs@[i + t] == pat@[t],
        decreases pat@.len() - k,
    {
        assert(i + k < cs@.len());
        if cs[i + k] != pat[k] {
            proof {
                assert(cs@.subrange(i as int, i + pat@.len())[k as int] == cs@[i + k]);
            }
            return false;
        }
        k = k + 1;
    }
    proof {
        assert(cs@.subrange(i as int, i + pat@.len()) =~= pat@);
    }
    true
}

#[verifier::loop_isolation(false)]
fn find_at(cs: &Vec<char>, from: usize, pat: &Vec<char>) -> (r: Option<usize>)
    requires
        pat@.len() > 0,
        from <= cs@.len(),
    ensures
        match r {
            Some(m) => first_at(cs@, from as int, pat@) == Some(m as int) && from <= m && m
                + pat@.len() <= cs@.len() && matches_at(cs@, m as int, pat@),
            None => first_at(cs@, from as int, pat@) is None,
        },
{
    if pat.len() > cs.len() {
        return None;
    }
    let limit = cs.len() - pat.len();
    let mut i = from;
    while i <= limit
        invariant
            from <= i,
            i <= cs@.len(),
            limit == cs@.len() - pat@.len(),
            first_at(cs@, from as int, pat@) == first_at(cs@, i as int, pat@),
        decreases limit + 1 - i,
    {
        if match_at_exec(cs, i, pat) {
            proof {
                assert(first_at(cs@, i as int, pat@) == Some(i as int));
            }
            return Some(i);
        }
        proof {
            assert(first_at(cs@, i as int, pat@) == first_at(cs@, i + 1, pat@));
            assert(i < cs@.len());
        }
        i = i + 1;
    }
    proof {
        assert(first_at(cs@, i as int, pat@) is None);
    }
    None
}

#[verifier::loop_isolation(false)]
fn skip_ws(cs: &Vec<char>, from: usize) -> (j: usize)
    requires
        from <= cs@.len(),
    ensures
        j as int == ws_end(cs@, from as int),
        from <= j <= cs@.len(),
{
    let mut j = from;
    while j < cs.len() && is_ws_char(cs[j])
        invariant
            from <= j <= cs@.len(),
            ws_end(cs@, from as int) == ws_end(cs@, j as int),
        decreases cs@.len() - j,
    {
        proof {
            assert(ws_end(cs@, j as int) == ws_end(cs@, j + 1));
        }
        j = j + 1;
    }
    proof {
        assert(ws_end(cs@, j as int) == j as int);
    }
    j
}

#[verifier::loop_isolation(false)]
fn sub_chars(cs: &Vec<char>, a: usize, b: usize) -> (r: Vec<char>)
    requires
        a <= b <= cs@.len(),
    ensures
        r@ == cs@.subrange(a as int, b as int),
{
    let mut r: Vec<char> = Vec::new();
    let mut i = a;
    while i < b
        invariant
            a <= i <= b <= cs@.len(),
            r@ == cs@.subrange(a as int, i as int),
        decreases b - i,
    {
        r.push(cs[i]);
        proof {
            assert(cs@.subrange(a as int, i + 1) =~= cs@.subrange(a as int, i as int).push(
                cs@[i as int],
            ));
        }
        i = i + 1;
    }
    r
}

#[verifier::loop_isolation(false)]
fn trim_chars(cs: &Vec<char>) -> (r: Vec<char>)
    ensures
        r@ == spec_trim(cs@),
{
    let a = skip_ws(cs, 0);
    let mut b = cs.len();
    while b > 0 && is_ws_char(cs[b - 1])
        invariant
            b <= cs@.len(),
            trim_end_idx(cs@, cs@.len() as int) == trim_end_idx(cs@, b as int),
        decreases b,
    {
        proof {
            assert(trim_end_idx(cs@, b as int) == trim_end_idx(cs@, b - 1));
        }
        b = b - 1;
    }
    proof {
        assert(trim_end_idx(cs@, b as int) == b as int);
    }
    if a <= b {
        sub_chars(cs, a, b)
    } else {
        Vec::new()
    }
}

/// The last JSON value announced by an `Action:` marker in `input`: inside
/// a closed code fence the trimmed fence body is the candidate and the scan
/// goes on; a bare `{` or `[` right after the marker makes the whole rest
/// the final candidate. The latest candidate that parses wins.
#[verifier::loop_isolation(false)]
pub fn get_last_json(input: &str) -> (r: Option<serde_json::Value>)
    ensures
        match spec_scan(input@, 0, Option::None) {
            Option::Some(cand) => r matches Some(v) && json_accepts(cand) && v == json_value_of(
                cand,
            ),
            Option::None => r is None,
        },
{
    let cs = chars_of(input);
    let _total = cs.len();
    let marker = marker_chars();
    let fence_v = fence_chars();
    let mut last: Option<serde_json::Value> = None;
    let ghost mut acc: Option<Seq<char>> = Option::None;
    let mut pos: usize = 0;
    let mut done = false;
    while !done
        invariant
            pos <= cs@.len(),
            acc is None <==> last is None,
            acc matches Some(c) ==> json_accepts(c) && (last matches Some(v) && v
                == json_value_of(c)),
            !done ==> spec_scan(cs@, 0, Option::None) == spec_scan(cs@, pos as int, acc),
            done ==> spec_scan(cs@, 0, Option::None) == acc,
        decreases cs@.len() - pos + (if done {
            0int
        } else {
            1int
        }),
    {
        let ghost old_pos = pos as int;
        let ghost old_acc = acc;
        match find_at(&cs, pos, &marker) {
            None => {
                done = true;
            },
            Some(m) => {
                proof {
                    assert(action_marker().len() == 7);
                    assert(m + 7 <= cs@.len());
                }
                let j = skip_ws(&cs, m + 7);
                let is_fence = if cs.len() >= 3 && j <= cs.len() - 3 {
                    match_at_exec(&cs, j, &fence_v)
                } else {
                    false
                };
                if is_fence {
                    let cstart = j + 3;
                    match find_at(&cs, cstart, &fence_v) {
                        None => {
                            done = true;
                        },
                        Some(cend) => {
                            let inner = sub_chars(&cs, cstart, cend);
                            let cand = trim_chars(&inner);
                            let cand_s = string_of_chars(&cand);
                            match parse_json(cand_s.as_str()) {
                                Some(v) => {
                                    last = Some(v);
                                    proof {
                                        acc = Option::Some(spec_trim(inner@));
                                    }
                                },
                                None => {},
                            }
                            pos = cend + 3;
                        },
                    }
                } else if j < cs.len() && (cs[j] == '{' || cs[j] == '[') {
                    let rest = sub_chars(&cs, j, cs.len());
                    let rest_s = string_of_chars(&rest);
                    match parse_json(rest_s.as_str()) {
                        Some(v) => {
                            last = Some(v);
                            proof {
                                acc = Option::Some(cs@.subrange(j as int, cs@.len() as int));
                            }
                        },
                        None => {},
                    }
                    done = true;
                } else {
                    pos = j;
                }
            },
        }
        proof {
            assert(spec_scan(cs@, 0, Option::None) == (if done {
                acc
            } else {
                spec_scan(cs@, pos as int, acc)
            })) by {
                assert(spec_scan(cs@, old_pos, old_acc) == (if done {
                    acc
                } else {
                    spec_scan(cs@, pos as int, acc)
                }));
            }
        }
    }
    last
}

} // verus!
