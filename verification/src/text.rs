//! Character and string utilities shared by the link parsers, the vault
//! queries and the edit synthesizer: delimiter scans, substring extraction,
//! file-stem computation and decimal rendering.

use vstd::prelude::*;
use vstd::string::StrSliceExecFns;
use vstd::string::StringExecFns;

verus! {

/// The characters that may not appear in the display part of a markdown link.
pub open spec fn is_md_delim(c: char) -> bool {
    c == '[' || c == ']' || c == '(' || c == ')'
}

/// The characters that may not appear in the path part of a markdown link.
pub open spec fn is_path_delim(c: char) -> bool {
    is_md_delim(c) || c == '#'
}

/// The characters that end the target part of a wiki link.
pub open spec fn is_wiki_delim(c: char) -> bool {
    c == '[' || c == ']' || c == '|'
}

/// Which character class a scan stops at.
#[derive(Clone, Copy, PartialEq, Eq, Structural, Debug)]
pub enum Stop {
    MdDelim,
    PathDelim,
    WikiDelim,
}

pub open spec fn is_stop(stop: Stop, c: char) -> bool {
    match stop {
        Stop::MdDelim => is_md_delim(c),
        Stop::PathDelim => is_path_delim(c),
        Stop::WikiDelim => is_wiki_delim(c),
    }
}

/// Index of the first character at or after `from` in the stop class,
/// or the length of `s` if there is none.
pub open spec fn first_stop(s: Seq<char>, from: int, stop: Stop) -> int
    decreases s.len() - from when 0 <= from <= s.len()
{
    if from >= s.len() {
        s.len() as int
    } else if is_stop(stop, s[from]) {
        from
    } else {
        first_stop(s, from + 1, stop)
    }
}

pub proof fn lemma_first_stop_bounds(s: Seq<char>, from: int, stop: Stop)
    requires
        0 <= from <= s.len(),
    ensures
        from <= first_stop(s, from, stop) <= s.len(),
        forall|j: int| from <= j < first_stop(s, from, stop) ==> !is_stop(stop, s[j]),
        first_stop(s, from, stop) < s.len() ==> is_stop(stop, s[first_stop(s, from, stop)]),
    decreases s.len() - from,
{
    if from < s.len() && !is_stop(stop, s[from]) {
        lemma_first_stop_bounds(s, from + 1, stop);
    }
}

fn stop_char(stop: Stop, c: char) -> (r: bool)
    ensures
        r == is_stop(stop, c),
{
    match stop {
        Stop::MdDelim => c == '[' || c == ']' || c == '(' || c == ')',
        Stop::PathDelim => c == '[' || c == ']' || c == '(' || c == ')' || c == '#',
        Stop::WikiDelim => c == '[' || c == ']' || c == '|',
    }
}

/// Executable scan matching `first_stop`.
pub fn seek_stop(s: &str, from: usize, len: usize, stop: Stop) -> (r: usize)
    requires
        len == s@.len(),
        from <= len,
    ensures
        r as int == first_stop(s@, from as int, stop),
        from <= r <= len,
    decreases len - from,
{
    if from == len {
        from
    } else {
        let c = s.get_char(from);
        if stop_char(stop, c) {
            from
        } else {
            seek_stop(s, from + 1, len, stop)
        }
    }
}

/// Index of the first occurrence of `c` at or after `from`, or the length
/// of `s` if there is none.
pub open spec fn find_char(s: Seq<char>, from: int, c: char) -> int
    decreases s.len() - from when 0 <= from <= s.len()
{
    if from >= s.len() {
        s.len() as int
    } else if s[from] == c {
        from
    } else {
        find_char(s, from + 1, c)
    }
}

pub proof fn lemma_find_char_bounds(s: Seq<char>, from: int, c: char)
    requires
        0 <= from <= s.len(),
    ensures
        from <= find_char(s, from, c) <= s.len(),
        forall|j: int| from <= j < find_char(s, from, c) ==> s[j] != c,
        find_char(s, from, c) < s.len() ==> s[find_char(s, from, c)] == c,
    decreases s.len() - from,
{
    if from < s.len() && s[from] != c {
        lemma_find_char_bounds(s, from + 1, c);
    }
}

/// Executable scan matching `find_char`.
pub fn seek_char(s: &str, from: usize, len: usize, c: char) -> (r: usize)
    requires
        len == s@.len(),
        from <= len,
    ensures
        r as int == find_char(s@, from as int, c),
        from <= r <= len,
    decreases len - from,
{
    if from == len {
        from
    } else if s.get_char(from) == c {
        from
    } else {
        seek_char(s, from + 1, len, c)
    }
}

/// Whether `c` occurs in `s` at or after `from`.
pub fn contains_char(s: &str, from: usize, len: usize, c: char) -> (r: bool)
    requires
        len == s@.len(),
        from <= len,
    ensures
        r == (find_char(s@, from as int, c) < s@.len()),
{
    proof {
        lemma_find_char_bounds(s@, from as int, c);
    }
    seek_char(s, from, len, c) < len
}

/// Index of the last occurrence of `c` strictly before `upto`, or -1.
pub open spec fn rfind_char(s: Seq<char>, c: char, upto: int) -> int
    decreases upto when upto <= s.len()
{
    if upto <= 0 {
        -1
    } else if s[upto - 1] == c {
        upto - 1
    } else {
        rfind_char(s, c, upto - 1)
    }
}

/// Executable scan matching `rfind_char`; `None` stands for -1.
pub fn seek_char_back(s: &str, c: char, upto: usize) -> (r: Option<usize>)
    requires
        upto <= s@.len(),
    ensures
        match r {
            Some(i) => rfind_char(s@, c, upto as int) == i as int && i < upto,
            None => rfind_char(s@, c, upto as int) == -1,
        },
    decreases upto,
{
    if upto == 0 {
        None
    } else if s.get_char(upto - 1) == c {
        Some(upto - 1)
    } else {
        seek_char_back(s, c, upto - 1)
    }
}

/// The file name of a path: its final path component.
pub open spec fn base_of(path: Seq<char>) -> Seq<char> {
    path.subrange(rfind_char(path, '/', path.len() as int) + 1, path.len() as int)
}

/// Executable file-name computation matching `base_of`.
pub fn base(path: &str) -> (r: String)
    ensures
        r@ == base_of(path@),
{
    let len = path.unicode_len();
    let slash = seek_char_back(path, '/', len);
    let start = match slash {
        Some(i) => i + 1,
        None => 0,
    };
    path.substring_char(start, len).to_owned()
}

/// The file stem of a path: the part of the final path component up to its
/// last dot, the whole component when the dot is absent or leading.
pub open spec fn stem_of(path: Seq<char>) -> Seq<char> {
    let base = base_of(path);
    let d = rfind_char(base, '.', base.len() as int);
    if d > 0 {
        base.subrange(0, d)
    } else {
        base
    }
}

/// Executable file-stem computation matching `stem_of`.
pub fn stem(path: &str) -> (r: String)
    ensures
        r@ == stem_of(path@),
{
    let b = base(path);
    let blen = b.as_str().unicode_len();
    let dot = seek_char_back(b.as_str(), '.', blen);
    match dot {
        Some(d) if d > 0 => b.as_str().substring_char(0, d).to_owned(),
        _ => b,
    }
}

/// The decimal digit character for `d`.
pub open spec fn digit_char(d: int) -> char {
    if d == 0 { '0' }
    else if d == 1 { '1' }
    else if d == 2 { '2' }
    else if d == 3 { '3' }
    else if d == 4 { '4' }
    else if d == 5 { '5' }
    else if d == 6 { '6' }
    else if d == 7 { '7' }
    else if d == 8 { '8' }
    else { '9' }
}

/// The decimal rendering of a nonnegative integer, most significant digit
/// first, with no leading zeros (a single zero for 0).
pub open spec fn dec_str(n: int) -> Seq<char>
    decreases n when n >= 0
{
    if n < 10 {
        seq![digit_char(n)]
    } else {
        dec_str(n / 10).push(digit_char(n % 10))
    }
}

fn digit_str(d: u64) -> (r: &'static str)
    requires
        d < 10,
    ensures
        r@ == seq![digit_char(d as int)],
{
    proof {
        reveal_strlit("0");
        reveal_strlit("1");
        reveal_strlit("2");
        reveal_strlit("3");
        reveal_strlit("4");
        reveal_strlit("5");
        reveal_strlit("6");
        reveal_strlit("7");
        reveal_strlit("8");
        reveal_strlit("9");
    }
    let r = match d {
        0 => "0",
        1 => "1",
        2 => "2",
        3 => "3",
        4 => "4",
        5 => "5",
        6 => "6",
        7 => "7",
        8 => "8",
        _ => "9",
    };
    proof {
        assert(r@ =~= seq![digit_char(d as int)]);
    }
    r
}

/// Renders `n` in decimal, matching `dec_str`.
pub fn u64_string(n: u64) -> (r: String)
    ensures
        r@ == dec_str(n as int),
    decreases n,
{
    if n < 10 {
        let r = digit_str(n).to_owned();
        r
    } else {
        let mut s = u64_string(n / 10);
        s.append(digit_str(n % 10));
        proof {
            assert(s@ =~= dec_str(n as int));
        }
        s
    }
}

} // verus!
