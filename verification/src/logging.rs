//! The text of the debug log: one line per entry, with the elapsed time right
//! aligned in eight places and the category left-padded to fourteen characters.
//! Writing the lines to a file happens outside this library.

use vstd::prelude::*;
use crate::text::{append_chars, cat3, chars_of, decimal, push_decimal, string_from_chars};

verus! {

/// `n` spaces.
pub open spec fn spaces(n: nat) -> Seq<char> {
    Seq::new(n, |i: int| ' ')
}

/// `s` after enough spaces to make it `width` characters long.
pub open spec fn pad_left(s: Seq<char>, width: nat) -> Seq<char> {
    if s.len() < width {
        spaces((width - s.len()) as nat) + s
    } else {
        s
    }
}

/// `[     123ms] [      CATEGORY] message` and a line break.
pub open spec fn entry_line_of(elapsed_ms: u64, category: Seq<char>, msg: Seq<char>) -> Seq<char> {
    "["@ + pad_left(decimal(elapsed_ms as nat), 8) + "ms] ["@ + pad_left(category, 14) + "] "@ + msg
        + "\n"@
}

fn push_spaces(v: &mut Vec<char>, n: usize)
    ensures
        final(v)@ == old(v)@ + spaces(n as nat),
{
    let mut i: usize = 0;
    while i < n
        invariant
            i <= n,
            v@ == old(v)@ + spaces(i as nat),
        decreases n - i,
    {
        v.push(' ');
        i = i + 1;
        assert(v@ =~= old(v)@ + spaces(i as nat));
    }
}

/// One line of the debug log.
pub fn entry_line(elapsed_ms: u64, category: &str, msg: &str) -> (r: String)
    ensures
        r@ == entry_line_of(elapsed_ms, category@, msg@),
{
    let mut digits: Vec<char> = Vec::new();
    push_decimal(&mut digits, elapsed_ms);
    let cat_chars = chars_of(category);
    let msg_chars = chars_of(msg);
    let mut v: Vec<char> = Vec::new();
    v.push('[');
    if digits.len() < 8 {
        push_spaces(&mut v, 8 - digits.len());
    }
    append_chars(&mut v, digits.as_slice());
    let mid = chars_of("ms] [");
    append_chars(&mut v, mid.as_slice());
    if cat_chars.len() < 14 {
        push_spaces(&mut v, 14 - cat_chars.len());
    }
    append_chars(&mut v, cat_chars.as_slice());
    v.push(']');
    v.push(' ');
    append_chars(&mut v, msg_chars.as_slice());
    v.push('\n');
    proof {
        reveal_strlit("[");
        reveal_strlit("ms] [");
        reveal_strlit("] ");
        reveal_strlit("\n");
    }
    assert(v@ =~= entry_line_of(elapsed_ms, category@, msg@));
    string_from_chars(v.as_slice())
}

/// The message of a section divider in the log.
pub fn section_message(title: &str) -> (r: String)
    ensures
        r@ == "──── "@ + title@ + " ────"@,
{
    cat3("──── ", title, " ────")
}


/// Line breaks shown as `↵`.
pub open spec fn mark_breaks(s: Seq<char>) -> Seq<char> {
    s.map_values(|c: char| if c == '\n' { '↵' } else { c })
}

/// Raw command output as it goes into the log: line breaks marked and, past
/// `max` bytes, only the first `max` characters followed by `…[+N]`, where
/// `N` is the number of bytes beyond `max`.
pub open spec fn truncated_of(s: Seq<char>, byte_len: nat, max: nat) -> Seq<char> {
    if byte_len <= max {
        mark_breaks(s)
    } else {
        mark_breaks(if s.len() <= max { s } else { s.take(max as int) }) + "…[+"@
            + decimal((byte_len - max) as nat) + "]"@
    }
}

/// Shortens command output for the log.
pub fn truncate(s: &str, max: usize) -> (r: String)
    ensures
        r@ == truncated_of(s@, s.len() as nat, max as nat),
{
    let chars = chars_of(s);
    let n: usize = s.len();
    let mut v: Vec<char> = Vec::new();
    let mut i: usize = 0;
    let limit: usize = if n <= max { chars.len() } else if chars.len() <= max { chars.len() } else { max };
    while i < limit
        invariant
            i <= limit,
            limit <= chars@.len(),
            v@ == mark_breaks(chars@.take(i as int)),
        decreases limit - i,
    {
        let c = chars[i];
        v.push(if c == '\n' { '↵' } else { c });
        i = i + 1;
        assert(v@ =~= mark_breaks(chars@.take(i as int)));
    }
    if n > max {
        let tail = chars_of("…[+");
        append_chars(&mut v, tail.as_slice());
        push_decimal(&mut v, (n - max) as u64);
        v.push(']');
        proof {
            reveal_strlit("]");
        }
        assert(chars@.take(limit as int) =~= (if s@.len() <= max { s@ } else { s@.take(max as int) }));
        assert(v@ =~= truncated_of(s@, s.len() as nat, max as nat));
    } else {
        assert(chars@.take(limit as int) =~= s@);
    }
    string_from_chars(v.as_slice())
}

} // verus!
