//! Counting open network connections per process from the listing printed by `lsof -i -n -P`.
use vstd::prelude::*;
use vstd::utf8::{decode_utf8, valid_utf8};
use std::collections::HashMap;
use crate::text::chars_of;

verus! {

broadcast use vstd::std_specs::hash::group_hash_axioms;

/// Characters with the Unicode `White_Space` property (what `char::is_whitespace` tests).
pub open spec fn is_whitespace(c: char) -> bool {
    let u = c as u32;
    (0x9 <= u <= 0xd) || u == 0x20 || u == 0x85 || u == 0xa0 || u == 0x1680
        || (0x2000 <= u <= 0x200a) || u == 0x2028 || u == 0x2029 || u == 0x202f
        || u == 0x205f || u == 0x3000
}

/// Number of leading characters of `s` that are not whitespace.
pub open spec fn word_len(s: Seq<char>) -> nat
    decreases s.len(),
{
    if s.len() == 0 || is_whitespace(s[0]) {
        0
    } else {
        1 + word_len(s.drop_first())
    }
}

/// Number of leading characters of `s` before the first line feed.
pub open spec fn line_len(s: Seq<char>) -> nat
    decreases s.len(),
{
    if s.len() == 0 || s[0] == '\n' {
        0
    } else {
        1 + line_len(s.drop_first())
    }
}

pub proof fn lemma_word_len_bound(s: Seq<char>)
    ensures
        word_len(s) <= s.len(),
    decreases s.len(),
{
    if s.len() > 0 && !is_whitespace(s[0]) {
        lemma_word_len_bound(s.drop_first());
    }
}

pub proof fn lemma_line_len_bound(s: Seq<char>)
    ensures
        line_len(s) <= s.len(),
    decreases s.len(),
{
    if s.len() > 0 && s[0] != '\n' {
        lemma_line_len_bound(s.drop_first());
    }
}

proof fn lemma_word_len_is(s: Seq<char>, n: int)
    requires
        0 <= n <= s.len(),
        forall|k: int| 0 <= k < n ==> !is_whitespace(#[trigger] s[k]),
        n == s.len() || is_whitespace(s[n]),
    ensures
        word_len(s) == n,
    decreases n,
{
    if n > 0 {
        assert forall|k: int| 0 <= k < n - 1 implies !is_whitespace(#[trigger] s.drop_first()[k]) by {
            assert(s.drop_first()[k] == s[k + 1]);
        }
        lemma_word_len_is(s.drop_first(), n - 1);
    }
}

proof fn lemma_line_len_is(s: Seq<char>, n: int)
    requires
        0 <= n <= s.len(),
        forall|k: int| 0 <= k < n ==> #[trigger] s[k] != '\n',
        n == s.len() || s[n] == '\n',
    ensures
        line_len(s) == n,
    decreases n,
{
    if n > 0 {
        assert forall|k: int| 0 <= k < n - 1 implies #[trigger] s.drop_first()[k] != '\n' by {
            assert(s.drop_first()[k] == s[k + 1]);
        }
        lemma_line_len_is(s.drop_first(), n - 1);
    }
}

/// The whitespace-separated words of `s`, in order (what `str::split_whitespace` yields).
pub open spec fn fields_of(s: Seq<char>) -> Seq<Seq<char>>
    decreases s.len(),
{
    if s.len() == 0 {
        seq![]
    } else if is_whitespace(s[0]) {
        fields_of(s.drop_first())
    } else {
        let n = word_len(s);
        proof {
            lemma_word_len_bound(s);
        }
        seq![s.take(n as int)] + fields_of(s.skip(n as int))
    }
}

/// A line without its line feed loses one trailing carriage return, if it has one.
pub open spec fn strip_cr(l: Seq<char>) -> Seq<char> {
    if l.len() > 0 && l.last() == '\r' {
        l.drop_last()
    } else {
        l
    }
}

/// The lines of `s` (what `str::lines` yields): split after each line feed, the line
/// feed and a carriage return just before it removed; a final line without a line
/// feed is kept as it is, and nothing follows a final line feed.
pub open spec fn lines_of(s: Seq<char>) -> Seq<Seq<char>>
    decreases s.len(),
{
    if s.len() == 0 {
        seq![]
    } else {
        let n = line_len(s);
        proof {
            lemma_line_len_bound(s);
        }
        if n == s.len() {
            seq![s]
        } else {
            seq![strip_cr(s.take(n as int))] + lines_of(s.skip(n + 1int))
        }
    }
}

/// An ASCII decimal digit.
pub open spec fn is_digit(c: char) -> bool {
    48 <= (c as u32) <= 57
}

/// The number written by the decimal digits `d`.
pub open spec fn decimal_value(d: Seq<char>) -> nat
    decreases d.len(),
{
    if d.len() == 0 {
        0
    } else {
        decimal_value(d.drop_last()) * 10 + ((d.last() as u32) - 48) as nat
    }
}

/// The part of `s` that should be digits: `s` without one leading `+`.
pub open spec fn unsigned_digits(s: Seq<char>) -> Seq<char> {
    if s.len() > 0 && s[0] == '+' {
        s.drop_first()
    } else {
        s
    }
}

/// Every character of `d` is a decimal digit.
pub open spec fn all_digits(d: Seq<char>) -> bool {
    forall|i: int| 0 <= i < d.len() ==> is_digit(#[trigger] d[i])
}

/// What `str::parse::<u32>` gives: an optional `+` followed by at least one
/// decimal digit and nothing else, whose value fits in a `u32`.
pub open spec fn parse_u32(s: Seq<char>) -> Option<u32> {
    let d = unsigned_digits(s);
    if d.len() == 0 || !all_digits(d) {
        None
    } else if decimal_value(d) > u32::MAX {
        None
    } else {
        Some(decimal_value(d) as u32)
    }
}

/// The process id on a listing line: its second word, read as a `u32`.
pub open spec fn line_pid(l: Seq<char>) -> Option<u32> {
    let f = fields_of(l);
    if f.len() > 1 {
        parse_u32(f[1])
    } else {
        None
    }
}

/// Number of lines of `ls` that carry process id `pid`.
pub open spec fn pid_count(ls: Seq<Seq<char>>, pid: u32) -> nat
    decreases ls.len(),
{
    if ls.len() == 0 {
        0
    } else {
        pid_count(ls.drop_last(), pid) + (if line_pid(ls.last()) == Some(pid) { 1nat } else { 0nat })
    }
}

/// The lines after the first, header line (none when there are no lines).
pub open spec fn body_lines(ls: Seq<Seq<char>>) -> Seq<Seq<char>> {
    if ls.len() == 0 {
        ls
    } else {
        ls.drop_first()
    }
}

/// `m` maps each process id to the number of listing lines that carry it, and holds
/// no other key; the first line of the listing is its header and is not counted.
pub open spec fn counts_connections(text: Seq<char>, m: Map<u32, usize>) -> bool {
    let ls = body_lines(lines_of(text));
    &&& forall|pid: u32| #[trigger] m.contains_key(pid) <==> pid_count(ls, pid) > 0
    &&& forall|pid: u32| #[trigger] m.contains_key(pid) ==> m[pid] == pid_count(ls, pid)
}

fn is_whitespace_exec(c: char) -> (res: bool)
    ensures
        res == is_whitespace(c),
{
    let u = c as u32;
    (0x9 <= u && u <= 0xd) || u == 0x20 || u == 0x85 || u == 0xa0 || u == 0x1680
        || (0x2000 <= u && u <= 0x200a) || u == 0x2028 || u == 0x2029 || u == 0x202f
        || u == 0x205f || u == 0x3000
}

/// The words of `line`, as `str::split_whitespace` finds them.
pub fn split_fields(line: &Vec<char>) -> (res: Vec<Vec<char>>)
    ensures
        res@.len() == fields_of(line@).len(),
        forall|k: int| 0 <= k < res@.len() ==> (#[trigger] res@[k])@ == fields_of(line@)[k],
{
    let mut res: Vec<Vec<char>> = Vec::new();
    let ghost mut done: Seq<Seq<char>> = seq![];
    let n = line.len();
    let mut i: usize = 0;
    assert(line@.skip(0) =~= line@);
    while i < n
        invariant
            n == line.len(),
            i <= n,
            fields_of(line@) == done + fields_of(line@.skip(i as int)),
            res@.len() == done.len(),
            forall|k: int| 0 <= k < res@.len() ==> (#[trigger] res@[k])@ == done[k],
        decreases n - i,
    {
        let ghost s = line@.skip(i as int);
        if is_whitespace_exec(line[i]) {
            assert(s.drop_first() =~= line@.skip(i + 1));
            i = i + 1;
        } else {
            let mut word: Vec<char> = Vec::new();
            let mut j: usize = i;
            while j < n && !is_whitespace_exec(line[j])
                invariant
                    n == line.len(),
                    i <= j <= n,
                    word@ == line@.subrange(i as int, j as int),
                    forall|k: int| i <= k < j ==> !is_whitespace(#[trigger] line@[k]),
                decreases n - j,
            {
                word.push(line[j]);
                assert(line@.subrange(i as int, j + 1) =~= line@.subrange(i as int, j as int).push(line@[j as int]));
                j = j + 1;
            }
            proof {
                assert forall|k: int| 0 <= k < j - i implies !is_whitespace(#[trigger] s[k]) by {
                    assert(s[k] == line@[i + k]);
                }
                if j < n {
                    assert(s[j - i] == line@[j as int]);
                }
                lemma_word_len_is(s, j - i);
                assert(s.take(j - i) =~= word@);
                assert(s.skip(j - i) =~= line@.skip(j as int));
                done = done.push(word@);
                assert(fields_of(s) == seq![word@] + fields_of(line@.skip(j as int)));
                assert(done.drop_last() + seq![word@] =~= done);
            }
            res.push(word);
            assert(fields_of(line@) =~= done + fields_of(line@.skip(j as int)));
            i = j;
        }
    }
    assert(line@.skip(n as int) =~= seq![]);
    assert(done + seq![] =~= done);
    res
}

proof fn lemma_decimal_prefix_step(d: Seq<char>, i: int)
    requires
        0 <= i < d.len(),
    ensures
        decimal_value(d.take(i + 1)) == decimal_value(d.take(i)) * 10 + ((d[i] as u32) - 48) as nat,
{
    assert(d.take(i + 1).drop_last() =~= d.take(i));
}

proof fn lemma_decimal_prefix_le(d: Seq<char>, i: int)
    requires
        0 <= i <= d.len(),
    ensures
        decimal_value(d.take(i)) <= decimal_value(d),
    decreases d.len(),
{
    if i < d.len() {
        assert(d.take(i) =~= d.drop_last().take(i));
        lemma_decimal_prefix_le(d.drop_last(), i);
    } else {
        assert(d.take(i) =~= d);
    }
}

/// Reads `s` as `str::parse::<u32>` does.
pub fn parse_u32_chars(s: &Vec<char>) -> (res: Option<u32>)
    ensures
        res == parse_u32(s@),
{
    let start: usize = if s.len() > 0 && s[0] == '+' { 1 } else { 0 };
    let ghost d = unsigned_digits(s@);
    assert(d =~= s@.skip(start as int));
    if start == s.len() {
        return None;
    }
    let mut acc: u64 = 0;
    let mut i: usize = start;
    while i < s.len()
        invariant
            start <= i <= s.len(),
            d == s@.skip(start as int),
            d == unsigned_digits(s@),
            acc == decimal_value(d.take(i - start)),
            acc <= u32::MAX,
            forall|k: int| 0 <= k < i - start ==> is_digit(#[trigger] d[k]),
        decreases s.len() - i,
    {
        let c = s[i];
        let u = c as u32;
        assert(d[i - start] == c);
        if u < 48 || u > 57 {
            assert(!is_digit(d[i - start]));
            assert(0 <= i - start < d.len());
            return None;
        }
        proof {
            lemma_decimal_prefix_step(d, i - start);
        }
        let next = acc * 10 + (u - 48) as u64;
        if next > u32::MAX as u64 {
            proof {
                if all_digits(d) {
                    lemma_decimal_prefix_le(d, i - start + 1);
                }
            }
            return None;
        }
        acc = next;
        i = i + 1;
    }
    assert(d.take(i - start) =~= d);
    Some(acc as u32)
}

/// The process id on one listing line, if its second word is a `u32`.
pub fn pid_on_line(line: &Vec<char>) -> (res: Option<u32>)
    ensures
        res == line_pid(line@),
{
    let f = split_fields(line);
    if f.len() > 1 {
        parse_u32_chars(&f[1])
    } else {
        None
    }
}

proof fn lemma_pid_count_bound(ls: Seq<Seq<char>>, pid: u32)
    ensures
        pid_count(ls, pid) <= ls.len(),
    decreases ls.len(),
{
    if ls.len() > 0 {
        lemma_pid_count_bound(ls.drop_last(), pid);
    }
}

proof fn lemma_lines_len_bound(s: Seq<char>)
    ensures
        lines_of(s).len() <= s.len(),
    decreases s.len(),
{
    if s.len() > 0 {
        lemma_line_len_bound(s);
        let n = line_len(s);
        if n < s.len() {
            lemma_lines_len_bound(s.skip(n + 1int));
        }
    }
}

/// Counts, per process id, the lines after the header of an `lsof` listing.
pub fn count_connections(text: &Vec<char>) -> (res: HashMap<u32, usize>)
    ensures
        counts_connections(text@, res@),
{
    let mut res: HashMap<u32, usize> = HashMap::new();
    let ghost mut done: Seq<Seq<char>> = seq![];
    let n = text.len();
    let mut pos: usize = 0;
    let mut first = true;
    assert(text@.skip(0) =~= text@);
    proof {
        lemma_lines_len_bound(text@);
    }
    while pos < n
        invariant
            n == text.len(),
            pos <= n,
            lines_of(text@) == done + lines_of(text@.skip(pos as int)),
            first == (done.len() == 0),
            done.len() <= pos,
            forall|pid: u32| #[trigger] res@.contains_key(pid) <==> pid_count(body_lines(done), pid) > 0,
            forall|pid: u32| #[trigger] res@.contains_key(pid) ==> res@[pid] == pid_count(body_lines(done), pid),
        decreases n - pos,
    {
        let ghost s = text@.skip(pos as int);
        let mut line: Vec<char> = Vec::new();
        let mut j: usize = pos;
        while j < n && text[j] != '\n'
            invariant
                n == text.len(),
                pos <= j <= n,
                line@ == text@.subrange(pos as int, j as int),
                forall|k: int| pos <= k < j ==> #[trigger] text@[k] != '\n',
            decreases n - j,
        {
            line.push(text[j]);
            assert(text@.subrange(pos as int, j + 1) =~= text@.subrange(pos as int, j as int).push(text@[j as int]));
            j = j + 1;
        }
        proof {
            assert forall|k: int| 0 <= k < j - pos implies #[trigger] s[k] != '\n' by {
                assert(s[k] == text@[pos + k]);
            }
            if j < n {
                assert(s[j - pos] == text@[j as int]);
            }
            lemma_line_len_is(s, j - pos);
            assert(s.take(j - pos) =~= line@);
        }
        let next: usize;
        if j < n {
            if line.len() > 0 && line[line.len() - 1] == '\r' {
                line.pop();
            }
            assert(line@ == strip_cr(s.take(j - pos)));
            assert(s.skip(j - pos + 1) =~= text@.skip(j + 1));
            next = j + 1;
        } else {
            assert(s.take(j - pos) =~= s);
            assert(text@.skip(j as int) =~= seq![]);
            next = j;
        }
        let ghost prev = done;
        proof {
            done = done.push(line@);
            assert(lines_of(text@) =~= done + lines_of(text@.skip(next as int)));
        }
        if !first {
            assert(body_lines(done) =~= body_lines(prev).push(line@));
            assert(body_lines(done).drop_last() =~= body_lines(prev));
            let p = pid_on_line(&line);
            match p {
                Some(pid) => {
                    proof {
                        lemma_pid_count_bound(body_lines(done), pid);
                    }
                    let c: usize = match res.get(&pid) {
                        Some(v) => *v,
                        None => 0,
                    };
                    res.insert(pid, c + 1);
                },
                None => {},
            }
            assert forall|q: u32| #[trigger] res@.contains_key(q) <==> pid_count(body_lines(done), q) > 0 by {}
        } else {
            assert(body_lines(done) =~= seq![]);
        }
        first = false;
        pos = next;
    }
    assert(text@.skip(n as int) =~= seq![]);
    assert(done + seq![] =~= done);
    res
}

/// Calls `String::from_utf8`; the contract claims that it succeeds exactly on
/// well-formed UTF-8 and then holds the decoded characters.
#[verifier::external_body]
fn string_from_utf8(bytes: Vec<u8>) -> (res: Option<String>)
    ensures
        res.is_some() == valid_utf8(bytes@),
        res matches Some(s) ==> s@ == decode_utf8(bytes@),
{
    String::from_utf8(bytes).ok()
}

/// Connections per process id in the raw output of `lsof -i -n -P`; output that is
/// not UTF-8 counts nothing.
pub fn connections_from_lsof(stdout: Vec<u8>) -> (res: HashMap<u32, usize>)
    ensures
        valid_utf8(stdout@) ==> counts_connections(decode_utf8(stdout@), res@),
        !valid_utf8(stdout@) ==> res@ == Map::<u32, usize>::empty(),
{
    match string_from_utf8(stdout) {
        Some(s) => {
            let chars = chars_of(s.as_str());
            count_connections(&chars)
        },
        None => {
            let m: HashMap<u32, usize> = HashMap::new();
            m
        },
    }
}

/// The process id of a listing line is its second word read as a `u32`, however
/// many words the line has; a line of fewer than two words carries no process id.
pub proof fn lemma_pid_is_second_word(l: Seq<char>)
    ensures
        fields_of(l).len() > 1 ==> line_pid(l) == parse_u32(fields_of(l)[1]),
        fields_of(l).len() <= 1 ==> line_pid(l) is None,
{
}

} // verus!
