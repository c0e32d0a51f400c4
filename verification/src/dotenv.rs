//! Reading the text of an environment file.
//!
//! The file itself is read, and the process environment set, by whoever
//! calls: here is only what lies between, from the text to the variables.

use crate::error::ConfigError;
use vstd::prelude::*;
use vstd::std_specs::iter::IteratorSpec;
use vstd::string::StrSliceExecFns;

verus! {

broadcast use vstd::string::group_string_axioms;

/// The characters of a text, one by one.
pub fn collect_chars(text: &str) -> (chars: Vec<char>)
    ensures
        chars@ == text@,
{
    let mut chars: Vec<char> = Vec::new();
    for c in it: text.chars()
        invariant
            it.seq() == text@,
            chars@ == text@.take(it.index()),
    {
        chars.push(c);
    }
    chars
}

/// The file that holds the environment of a development build.
pub const DEVELOPMENT_FILE: &'static str = ".env.development";

/// The file that holds the environment of a production build.
pub const PRODUCTION_FILE: &'static str = ".env.production";

/// The environment file of a build: the development file for a debug
/// build, the production file otherwise.
pub fn env_file(debug_build: bool) -> (path: &'static str)
    ensures
        path@ == if debug_build {
            DEVELOPMENT_FILE@
        } else {
            PRODUCTION_FILE@
        },
{
    if debug_build {
        DEVELOPMENT_FILE
    } else {
        PRODUCTION_FILE
    }
}

/// Position of the first `c` in `s`, or the length of `s` where `s` holds
/// no `c`.
pub open spec fn first_at(s: Seq<char>, c: char) -> nat
    decreases s.len(),
{
    if s.len() == 0 || s[0] == c {
        0
    } else {
        1 + first_at(s.skip(1), c)
    }
}

/// A line without the carriage return that may end it.
pub open spec fn strip_cr(line: Seq<char>) -> Seq<char> {
    if line.len() > 0 && line.last() == '\r' {
        line.drop_last()
    } else {
        line
    }
}

/// The lines of a text. A line ends at a line feed, or at a carriage return
/// followed by a line feed, neither of which belongs to it; the last line
/// needs no line ending, and a text that ends in one has no empty line
/// after it.
pub open spec fn lines(text: Seq<char>) -> Seq<Seq<char>>
    decreases text.len(),
{
    if text.len() == 0 {
        Seq::empty()
    } else {
        let end = first_at(text, '\n');
        if end < text.len() {
            seq![strip_cr(text.take(end as int))] + lines(text.skip(end as int + 1))
        } else {
            seq![text]
        }
    }
}

/// The variable that a line sets: the key is what stands before the first
/// `=`, the value what stands between the first `=` and the second, or the
/// end of the line. A line sets none if it has no `=`, if its key is empty,
/// or if key or value holds a NUL character.
pub open spec fn parse_line(line: Seq<char>) -> Option<(Seq<char>, Seq<char>)> {
    let eq = first_at(line, '=');
    if eq >= line.len() {
        None
    } else {
        let key = line.take(eq as int);
        let rest = line.skip(eq as int + 1);
        let value = rest.take(first_at(rest, '=') as int);
        if key.len() == 0 || key.contains('\0') || value.contains('\0') {
            None
        } else {
            Some((key, value))
        }
    }
}

/// The variables that a list of lines sets, in order, or the index of the
/// first line that sets none.
pub open spec fn parse_lines(ls: Seq<Seq<char>>) -> Result<Seq<(Seq<char>, Seq<char>)>, nat>
    decreases ls.len(),
{
    if ls.len() == 0 {
        Ok(Seq::empty())
    } else {
        match parse_lines(ls.drop_last()) {
            Err(i) => Err(i),
            Ok(vars) => match parse_line(ls.last()) {
                Some(var) => Ok(vars.push(var)),
                None => Err((ls.len() - 1) as nat),
            },
        }
    }
}

/// The keys and values of a list of variables, as characters.
pub open spec fn pairs_of(vars: Seq<(String, String)>) -> Seq<(Seq<char>, Seq<char>)> {
    vars.map_values(|var: (String, String)| (var.0@, var.1@))
}

/// `first_at` gives a position up to the length, before which no `c`
/// stands, and at which one stands unless it is the length.
pub proof fn lemma_first_at(s: Seq<char>, c: char)
    ensures
        first_at(s, c) <= s.len(),
        forall|i: int| 0 <= i < first_at(s, c) ==> s[i] != c,
        first_at(s, c) < s.len() ==> s[first_at(s, c) as int] == c,
    decreases s.len(),
{
    if s.len() > 0 && s[0] != c {
        lemma_first_at(s.skip(1), c);
        assert forall|i: int| 0 <= i < first_at(s, c) implies s[i] != c by {
            if i > 0 {
                assert(s.skip(1)[i - 1] == s[i]);
            }
        }
    }
}

/// A malformed line among the first lines is found whatever follows.
proof fn lemma_parse_lines_stops(head: Seq<Seq<char>>, tail: Seq<Seq<char>>)
    requires
        parse_lines(head) is Err,
    ensures
        parse_lines(head + tail) == parse_lines(head),
    decreases tail.len(),
{
    if tail.len() == 0 {
    } else {
        lemma_parse_lines_stops(head, tail.drop_last());
        assert((head + tail).drop_last() =~= head + tail.drop_last());
    }
}

/// Position of the first `c` in `chars[from..to]`, or `to`.
fn find(chars: &Vec<char>, from: usize, to: usize, c: char) -> (at: usize)
    requires
        from <= to <= chars.len(),
    ensures
        from <= at <= to,
        at - from == first_at(chars@.subrange(from as int, to as int), c),
{
    let mut at: usize = from;
    while at < to && chars[at] != c
        invariant
            from <= at <= to <= chars.len(),
            first_at(chars@.subrange(from as int, to as int), c) == (at - from) + first_at(
                chars@.subrange(at as int, to as int),
                c,
            ),
        decreases to - at,
    {
        assert(chars@.subrange(at as int, to as int).skip(1) =~= chars@.subrange(
            at + 1,
            to as int,
        ));
        at += 1;
    }
    at
}

/// Whether `chars[from..to]` holds a NUL character.
fn has_nul(chars: &Vec<char>, from: usize, to: usize) -> (found: bool)
    requires
        from <= to <= chars.len(),
    ensures
        found == chars@.subrange(from as int, to as int).contains('\0'),
{
    let at = find(chars, from, to, '\0');
    proof {
        let part = chars@.subrange(from as int, to as int);
        lemma_first_at(part, '\0');
    }
    at < to
}

/// Reads the variable that the line `chars[from..to]` of `content` sets.
fn read_line(content: &str, chars: &Vec<char>, from: usize, to: usize) -> (var: Option<
    (String, String),
>)
    requires
        chars@ == content@,
        from <= to <= chars.len(),
    ensures
        match var {
            Some(found) => parse_line(chars@.subrange(from as int, to as int)) == Some(
                (found.0@, found.1@),
            ),
            None => parse_line(chars@.subrange(from as int, to as int)) is None,
        },
{
    let ghost line = chars@.subrange(from as int, to as int);
    let eq = find(chars, from, to, '=');
    if eq == to {
        return None;
    }
    let stop = find(chars, eq + 1, to, '=');
    proof {
        let rest = line.skip(eq - from + 1);
        assert(rest =~= chars@.subrange(eq + 1, to as int));
        lemma_first_at(rest, '=');
        assert(line.take(eq - from) =~= chars@.subrange(from as int, eq as int));
        assert(rest.take(stop - eq - 1) =~= chars@.subrange(eq + 1, stop as int));
    }
    if eq == from || has_nul(chars, from, eq) || has_nul(chars, eq + 1, stop) {
        return None;
    }
    let key = content.substring_char(from, eq).to_owned();
    let value = content.substring_char(eq + 1, stop).to_owned();
    Some((key, value))
}

/// Reads the text of an environment file: one variable per line, as
/// `KEY=value`.
///
/// Gives the variables in the order of their lines, or the first line that
/// is malformed. The variables are for the caller to set.
pub fn load_env(content: &str) -> (r: Result<Vec<(String, String)>, ConfigError>)
    ensures
        match r {
            Ok(vars) => parse_lines(lines(content@)) matches Ok(found) && found == pairs_of(
                vars@,
            ),
            Err(e) => parse_lines(lines(content@)) matches Err(i) && e
                == ConfigError::MalformedLine(i as usize),
        },
{
    let chars = collect_chars(content);
    let len = chars.len();
    let mut vars: Vec<(String, String)> = Vec::new();
    let mut start: usize = 0;
    let ghost mut done: Seq<Seq<char>> = Seq::empty();
    proof {
        assert(content@.skip(0) =~= content@);
    }
    while start < len
        invariant
            chars@ == content@,
            len == chars.len(),
            start <= len,
            done.len() <= start,
            done.len() == vars.len(),
            lines(content@) == done + lines(content@.skip(start as int)),
            parse_lines(done) matches Ok(found) && found == pairs_of(vars@),
        decreases len - start,
    {
        let ghost rest = content@.skip(start as int);
        let end = find(&chars, start, len, '\n');
        let mut stop = end;
        if end < len && end > start && chars[end - 1] == '\r' {
            stop = end - 1;
        }
        let ghost line = chars@.subrange(start as int, stop as int);
        let next = if end < len {
            end + 1
        } else {
            len
        };
        proof {
            lemma_first_at(rest, '\n');
            if end < len {
                assert(strip_cr(rest.take(end - start)) =~= line);
                assert(rest.skip(end - start + 1) =~= content@.skip(next as int));
            }
            assert(lines(content@) =~= done.push(line) + lines(content@.skip(next as int)));
            assert(done.push(line).drop_last() =~= done);
        }
        match read_line(content, &chars, start, stop) {
            Some(var) => {
                vars.push(var);
            },
            None => {
                proof {
                    lemma_parse_lines_stops(done.push(line), lines(content@.skip(next as int)));
                }
                return Err(ConfigError::MalformedLine(vars.len()));
            },
        }
        proof {
            done = done.push(line);
        }
        start = next;
    }
    Ok(vars)
}

} // verus!
