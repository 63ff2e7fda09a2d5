//! The help lines that the pages show.

use crate::text::string_push;
use vstd::prelude::*;
use vstd::string::StringExecFns;

verus! {

/// The keys of a help line as they are shown: each between angle brackets, with a space
/// between one key and the next.
pub open spec fn keys_text(keys: Seq<&str>) -> Seq<char>
    decreases keys.len(),
{
    if keys.len() == 0 {
        Seq::empty()
    } else if keys.len() == 1 {
        seq!['<'] + keys[0]@ + seq!['>']
    } else {
        keys_text(keys.drop_last()) + seq![' ', '<'] + keys.last()@ + seq!['>']
    }
}

/// A help line: the keys, a colon, a space, and what the keys do.
pub open spec fn help_text(keys: Seq<&str>, desc: Seq<char>) -> Seq<char> {
    keys_text(keys) + seq![':', ' '] + desc
}

/// The help line for `keys` and what they do.
pub fn build_help(keys: &[&str], desc: &str) -> (line: String)
    ensures
        line@ == help_text(keys@, desc@),
{
    let mut line = String::new();
    let mut i: usize = 0;
    while i < keys.len()
        invariant
            i <= keys.len(),
            line@ == keys_text(keys@.take(i as int)),
        decreases keys.len() - i,
    {
        assert(keys@.take(i + 1).drop_last() == keys@.take(i as int));
        assert(keys@.take(i + 1).last() == keys@[i as int]);
        if i > 0 {
            string_push(&mut line, ' ');
        }
        string_push(&mut line, '<');
        line.append(keys[i]);
        string_push(&mut line, '>');
        assert(line@ =~= keys_text(keys@.take(i + 1)));
        i += 1;
    }
    assert(keys@.take(i as int) == keys@);
    string_push(&mut line, ':');
    string_push(&mut line, ' ');
    line.append(desc);
    assert(line@ =~= help_text(keys@, desc@));
    line
}

/// One help line for each pair of keys and what they do, in the same order.
pub fn build_helps(helps: &[(&[&str], &str)]) -> (lines: Vec<String>)
    ensures
        lines.len() == helps.len(),
        forall|i: int|
            0 <= i < helps.len() ==> (#[trigger] lines[i])@ == help_text(helps[i].0@, helps[i].1@),
{
    let mut lines: Vec<String> = Vec::new();
    let mut i: usize = 0;
    while i < helps.len()
        invariant
            i <= helps.len(),
            lines.len() == i,
            forall|j: int|
                0 <= j < i ==> (#[trigger] lines[j])@ == help_text(helps[j].0@, helps[j].1@),
        decreases helps.len() - i,
    {
        let line = build_help(helps[i].0, helps[i].1);
        lines.push(line);
        i += 1;
    }
    lines
}

/// One help line for each triple of keys, what they do and how much the line matters, each
/// with that number, in the same order.
pub fn build_short_helps(helps: &[(&[&str], &str, usize)]) -> (lines: Vec<(String, usize)>)
    ensures
        lines.len() == helps.len(),
        forall|i: int|
            0 <= i < helps.len() ==> {
                &&& (#[trigger] lines[i]).0@ == help_text(helps[i].0@, helps[i].1@)
                &&& lines[i].1 == helps[i].2
            },
{
    let mut lines: Vec<(String, usize)> = Vec::new();
    let mut i: usize = 0;
    while i < helps.len()
        invariant
            i <= helps.len(),
            lines.len() == i,
            forall|j: int|
                0 <= j < i ==> {
                    &&& (#[trigger] lines[j]).0@ == help_text(helps[j].0@, helps[j].1@)
                    &&& lines[j].1 == helps[j].2
                },
        decreases helps.len() - i,
    {
        let line = build_help(helps[i].0, helps[i].1);
        lines.push((line, helps[i].2));
        i += 1;
    }
    lines
}

} // verus!
