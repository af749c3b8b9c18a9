//! Register name resolution: the name of an array register shows the
//! range of its index where the description left a placeholder.

use vstd::prelude::*;
use vstd::string::StringExecFns;
use crate::model::RegisterDescriptor;
use crate::text::{decimal_digits, decimal_text};

verus! {

/// `name` with `text` in place of each occurrence of `token`. Occurrences
/// are looked for from the left, each one behind the one before. An empty
/// token occurs nowhere.
pub open spec fn replaced(name: Seq<char>, token: Seq<char>, text: Seq<char>) -> Seq<char>
    decreases name.len(),
{
    if token.len() == 0 || name.len() < token.len() {
        name
    } else if name.subrange(0, token.len() as int) == token {
        text + replaced(name.subrange(token.len() as int, name.len() as int), token, text)
    } else {
        seq![name[0]] + replaced(name.subrange(1, name.len() as int), token, text)
    }
}

/// What stands for the index in the name of an array of `count` registers:
/// `<0..`, the count, `>`.
pub open spec fn index_range(count: nat) -> Seq<char> {
    seq!['<', '0', '.', '.'] + decimal_digits(count) + seq!['>']
}

/// The characters of `s`.
fn chars_of(s: &str) -> (chars: Vec<char>)
    ensures
        chars@ == s@,
{
    let mut chars: Vec<char> = Vec::new();
    for c in it: s.chars()
        invariant
            it.seq() == s@,
            chars@ == s@.take(it.index()),
    {
        chars.push(c);
    }
    chars
}

/// Tells whether `token` stands in `name` at place `at`.
fn stands_at(name: &Vec<char>, at: usize, token: &Vec<char>) -> (b: bool)
    requires
        at + token@.len() <= name@.len(),
    ensures
        b == (name@.subrange(at as int, at + token@.len()) == token@),
{
    let len = name.len();
    let mut i: usize = 0;
    while i < token.len()
        invariant
            at + token@.len() <= name@.len() == len,
            i <= token@.len(),
            forall|k: int| 0 <= k < i ==> name@[at + k] == #[trigger] token@[k],
        decreases token@.len() - i,
    {
        if name[at + i] != token[i] {
            return false;
        }
        i += 1;
    }
    assert(name@.subrange(at as int, at + token@.len()) =~= token@);
    true
}

/// Writes what stands for the index in the name of an array of `count`
/// registers.
pub fn index_range_text(count: u32) -> (s: String)
    ensures
        s@ == index_range(count as nat),
{
    let mut s = String::new();
    s.push('<');
    s.push('0');
    s.push('.');
    s.push('.');
    let digits = decimal_text(count as u64);
    s.append(digits.as_str());
    s.push('>');
    s
}

/// Puts `text` in place of each occurrence of `token` in `name`.
pub fn replace_token(name: &str, token: &str, text: &str) -> (s: String)
    ensures
        s@ == replaced(name@, token@, text@),
{
    let name_chars = chars_of(name);
    let token_chars = chars_of(token);
    let len = name_chars.len();
    let mut s = String::new();
    let mut at: usize = 0;
    proof {
        assert(name@.subrange(0, len as int) == name@);
    }
    while at < len
        invariant
            name_chars@ == name@,
            token_chars@ == token@,
            len == name@.len(),
            at <= len,
            s@ + replaced(name@.subrange(at as int, len as int), token@, text@) == replaced(
                name@,
                token@,
                text@,
            ),
        decreases len - at,
    {
        let ghost rest = name@.subrange(at as int, len as int);
        if token_chars.len() > 0 && token_chars.len() <= len - at && stands_at(
            &name_chars,
            at,
            &token_chars,
        ) {
            proof {
                assert(rest.subrange(0, token@.len() as int) == name@.subrange(
                    at as int,
                    at + token@.len(),
                ));
                assert(rest.subrange(token@.len() as int, rest.len() as int) == name@.subrange(
                    at + token@.len(),
                    len as int,
                ));
            }
            s.append(text);
            at += token_chars.len();
        } else {
            proof {
                let tail = name@.subrange(at + 1, len as int);
                assert(rest.subrange(1, rest.len() as int) == tail);
                if rest.len() >= token@.len() {
                    assert(rest.subrange(0, token@.len() as int) == name@.subrange(
                        at as int,
                        at + token@.len(),
                    ));
                }
            }
            s.push(name_chars[at]);
            at += 1;
        }
    }
    s
}

/// Writes the name of an array of `count` registers: `name` with the
/// range of the index in place of each occurrence of `token`.
pub fn expand_placeholder(name: &str, token: &str, count: u32) -> (s: String)
    ensures
        s@ == replaced(name@, token@, index_range(count as nat)),
{
    let range = index_range_text(count);
    replace_token(name, token, range.as_str())
}

/// The placeholder for the index in the name of an array register: `%s`.
pub open spec fn placeholder() -> Seq<char> {
    seq!['%', 's']
}

/// The name under which a register is shown: that of an array with the
/// range of the index in place of each placeholder, any other unchanged.
pub open spec fn resolved_name(name: Seq<char>, array_count: nat) -> Seq<char> {
    if array_count > 0 {
        replaced(name, placeholder(), index_range(array_count))
    } else {
        name
    }
}

impl RegisterDescriptor {
    /// Writes the name under which the register is shown.
    pub fn resolved_name(&self) -> (s: String)
        ensures
            s@ == resolved_name(self.name@, self.array_count as nat),
    {
        if self.array_count > 0 {
            proof {
                reveal_strlit("%s");
                assert("%s"@ =~= placeholder());
            }
            expand_placeholder(self.name.as_str(), "%s", self.array_count)
        } else {
            self.name.clone()
        }
    }
}

} // verus!
