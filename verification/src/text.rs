//! Low-level scanning of the status tool's free-form text: splitting
//! output into lines, lines into whitespace-separated fields, trimming,
//! and the small lexical helpers the section parsers build on.

use vstd::prelude::*;
use vstd::string::*;

verus! {

/// Blank characters that may separate fields inside one line: the
/// Unicode white-space set, so that fields, blank rows and trimming
/// read a line exactly as the usual whitespace splitting would.
/// Carriage returns count too, so output with Windows-style line
/// endings scans the same way.
pub open spec fn is_space(c: char) -> bool {
    let u = c as u32;
    (9 <= u && u <= 13) || u == 32 || u == 0x85 || u == 0xA0 || u == 0x1680 || (0x2000 <= u && u
        <= 0x200A) || u == 0x2028 || u == 0x2029 || u == 0x202F || u == 0x205F || u == 0x3000
}

/// Index of the first newline in `s`, or `s.len()` if there is none.
pub open spec fn newline_idx(s: Seq<char>) -> int
    decreases s.len(),
{
    if s.len() == 0 {
        0
    } else if s[0] == '\n' {
        0
    } else {
        1 + newline_idx(s.skip(1))
    }
}

pub proof fn lemma_newline_idx_is(s: Seq<char>, k: int)
    requires
        0 <= k <= s.len(),
        forall|j: int| 0 <= j < k ==> s[j] != '\n',
        k < s.len() ==> s[k] == '\n',
    ensures
        newline_idx(s) == k,
    decreases s.len(),
{
    if s.len() > 0 && s[0] != '\n' {
        assert forall|j: int| 0 <= j < k - 1 implies s.skip(1)[j] != '\n' by {
            assert(s.skip(1)[j] == s[j + 1]);
        }
        if k - 1 < s.skip(1).len() {
            assert(s.skip(1)[k - 1] == s[k]);
        }
        lemma_newline_idx_is(s.skip(1), k - 1);
    }
}

/// The lines of `s`: maximal newline-free stretches, a trailing newline
/// producing no empty final line.
pub open spec fn spec_lines(s: Seq<char>) -> Seq<Seq<char>>
    decreases s.len(),
{
    if s.len() == 0 {
        Seq::empty()
    } else {
        let i = newline_idx(s);
        if 0 <= i < s.len() {
            seq![s.take(i)] + spec_lines(s.skip(i + 1))
        } else {
            seq![s]
        }
    }
}

/// Splits status output into its lines.
pub fn split_lines(s: &str) -> (r: Vec<String>)
    ensures
        r@.map_values(|l: String| l@) == spec_lines(s@),
{
    let n: usize = s.unicode_len();
    let mut out: Vec<String> = Vec::new();
    let mut i: usize = 0;
    let mut done: bool = false;
    proof {
        assert(s@.skip(0) =~= s@);
        assert(out@.map_values(|l: String| l@) + spec_lines(s@) =~= spec_lines(s@));
    }
    while !done
        invariant
            i <= n,
            n == s@.len(),
            !done ==> out@.map_values(|l: String| l@) + spec_lines(s@.skip(i as int))
                == spec_lines(s@),
            done ==> out@.map_values(|l: String| l@) == spec_lines(s@),
        decreases n - i + (if done { 0int } else { 1int }),
    {
        if i == n {
            proof {
                assert(s@.skip(i as int) =~= Seq::<char>::empty());
                assert(out@.map_values(|l: String| l@) + Seq::<Seq<char>>::empty()
                    =~= out@.map_values(|l: String| l@));
            }
            done = true;
        } else {
            let ghost suf: Seq<char> = s@.skip(i as int);
            let mut j: usize = i;
            while j < n && s.get_char(j) != '\n'
                invariant
                    i <= j <= n,
                    n == s@.len(),
                    forall|k: int| i <= k < j ==> s@[k] != '\n',
                decreases n - j,
            {
                j = j + 1;
            }
            proof {
                assert forall|k: int| 0 <= k < j - i implies suf[k] != '\n' by {
                    assert(suf[k] == s@[i + k]);
                }
                if j < n {
                    assert(suf[j - i] == s@[j as int]);
                }
                lemma_newline_idx_is(suf, j - i);
            }
            let line: String = String::from_str(s.substring_char(i, j));
            proof {
                assert(line@ =~= suf.take(j - i));
            }
            let ghost prev: Seq<Seq<char>> = out@.map_values(|l: String| l@);
            out.push(line);
            proof {
                assert(out@.map_values(|l: String| l@) =~= prev.push(line@));
            }
            if j == n {
                proof {
                    assert(spec_lines(suf) == seq![suf]);
                    assert(suf =~= suf.take(j - i));
                    assert(prev.push(line@) =~= prev + seq![suf]);
                }
                done = true;
            } else {
                proof {
                    assert(spec_lines(suf) == seq![suf.take(j - i)] + spec_lines(
                        suf.skip(j - i + 1)));
                    assert(suf.skip(j - i + 1) =~= s@.skip(j + 1));
                    assert(prev.push(line@) + spec_lines(s@.skip(j + 1))
                        =~= prev + spec_lines(suf));
                }
                i = j + 1;
            }
        }
    }
    out
}

/// Runtime form of [`is_space`].
pub fn char_is_space(c: char) -> (r: bool)
    ensures
        r == is_space(c),
{
    let u: u32 = c as u32;
    (9 <= u && u <= 13) || u == 32 || u == 0x85 || u == 0xA0 || u == 0x1680 || (0x2000 <= u && u
        <= 0x200A) || u == 0x2028 || u == 0x2029 || u == 0x202F || u == 0x205F || u == 0x3000
}

/// Index of the first blank character in `s`, or `s.len()` if there is none.
pub open spec fn space_idx(s: Seq<char>) -> int
    decreases s.len(),
{
    if s.len() == 0 {
        0
    } else if is_space(s[0]) {
        0
    } else {
        1 + space_idx(s.skip(1))
    }
}

pub proof fn lemma_space_idx_is(s: Seq<char>, k: int)
    requires
        0 <= k <= s.len(),
        forall|j: int| 0 <= j < k ==> !is_space(s[j]),
        k < s.len() ==> is_space(s[k]),
    ensures
        space_idx(s) == k,
    decreases s.len(),
{
    if s.len() > 0 && !is_space(s[0]) {
        assert forall|j: int| 0 <= j < k - 1 implies !is_space(s.skip(1)[j]) by {
            assert(s.skip(1)[j] == s[j + 1]);
        }
        if k - 1 < s.skip(1).len() {
            assert(s.skip(1)[k - 1] == s[k]);
        }
        lemma_space_idx_is(s.skip(1), k - 1);
    }
}

/// The whitespace-separated fields of one line, in order.
pub open spec fn spec_fields(s: Seq<char>) -> Seq<Seq<char>>
    decreases s.len(),
{
    if s.len() == 0 {
        Seq::empty()
    } else if is_space(s[0]) {
        spec_fields(s.skip(1))
    } else {
        let j = space_idx(s);
        if 1 <= j <= s.len() {
            seq![s.take(j)] + spec_fields(s.skip(j))
        } else {
            seq![s]
        }
    }
}

/// Splits one line into its whitespace-separated fields.
pub fn split_fields(s: &str) -> (r: Vec<String>)
    ensures
        r@.map_values(|f: String| f@) == spec_fields(s@),
{
    let n: usize = s.unicode_len();
    let mut out: Vec<String> = Vec::new();
    let mut i: usize = 0;
    proof {
        assert(s@.skip(0) =~= s@);
        assert(out@.map_values(|f: String| f@) + spec_fields(s@) =~= spec_fields(s@));
    }
    while i < n
        invariant
            i <= n,
            n == s@.len(),
            out@.map_values(|f: String| f@) + spec_fields(s@.skip(i as int)) == spec_fields(s@),
        decreases n - i,
    {
        let ghost suf: Seq<char> = s@.skip(i as int);
        let c: char = s.get_char(i);
        if char_is_space(c) {
            proof {
                assert(suf[0] == s@[i as int]);
                assert(spec_fields(suf) == spec_fields(suf.skip(1)));
                assert(suf.skip(1) =~= s@.skip(i + 1));
            }
            i = i + 1;
        } else {
            let mut j: usize = i + 1;
            while j < n && !char_is_space(s.get_char(j))
                invariant
                    i < j <= n,
                    n == s@.len(),
                    forall|k: int| i <= k < j ==> !is_space(s@[k]),
                decreases n - j,
            {
                j = j + 1;
            }
            proof {
                assert forall|k: int| 0 <= k < j - i implies !is_space(suf[k]) by {
                    assert(suf[k] == s@[i + k]);
                }
                if j < n {
                    assert(suf[j - i] == s@[j as int]);
                }
                lemma_space_idx_is(suf, j - i);
                assert(spec_fields(suf) == seq![suf.take(j - i)] + spec_fields(suf.skip(j - i)));
            }
            let field: String = String::from_str(s.substring_char(i, j));
            proof {
                assert(field@ =~= suf.take(j - i));
            }
            let ghost prev: Seq<Seq<char>> = out@.map_values(|f: String| f@);
            out.push(field);
            proof {
                assert(out@.map_values(|f: String| f@) =~= prev.push(field@));
                assert(suf.skip(j - i) =~= s@.skip(j as int));
                assert(prev.push(field@) + spec_fields(s@.skip(j as int))
                    =~= prev + spec_fields(suf));
            }
            i = j;
        }
    }
    proof {
        assert(s@.skip(n as int) =~= Seq::<char>::empty());
        assert(out@.map_values(|f: String| f@) + Seq::<Seq<char>>::empty()
            =~= out@.map_values(|f: String| f@));
    }
    out
}

/// A table separator: a line opening with a long rule of dashes.
pub open spec fn is_sep_line(l: Seq<char>) -> bool {
    l.len() >= 17 && forall|k: int| 0 <= k < 17 ==> l[k] == '-'
}

/// Index of the first separator line, or nothing if no line qualifies.
pub open spec fn spec_sep_idx(lines: Seq<Seq<char>>) -> Option<int>
    decreases lines.len(),
{
    if lines.len() == 0 {
        None
    } else if is_sep_line(lines[0]) {
        Some(0int)
    } else {
        match spec_sep_idx(lines.skip(1)) {
            Some(i) => Some(i + 1),
            None => None,
        }
    }
}

pub proof fn lemma_sep_idx_is(lines: Seq<Seq<char>>, k: int)
    requires
        0 <= k <= lines.len(),
        forall|j: int| 0 <= j < k ==> !is_sep_line(lines[j]),
        k < lines.len() ==> is_sep_line(lines[k]),
    ensures
        k < lines.len() ==> spec_sep_idx(lines) == Some(k),
        k == lines.len() ==> spec_sep_idx(lines) == None::<int>,
    decreases lines.len(),
{
    if lines.len() > 0 && !is_sep_line(lines[0]) {
        assert forall|j: int| 0 <= j < k - 1 implies !is_sep_line(lines.skip(1)[j]) by {
            assert(lines.skip(1)[j] == lines[j + 1]);
        }
        if k - 1 < lines.skip(1).len() {
            assert(lines.skip(1)[k - 1] == lines[k]);
        }
        lemma_sep_idx_is(lines.skip(1), k - 1);
    }
}

/// Does this line open with the dash rule that separates a table's
/// header from its data rows?
pub fn line_is_separator(l: &str) -> (r: bool)
    ensures
        r == is_sep_line(l@),
{
    let n: usize = l.unicode_len();
    if n < 17 {
        return false;
    }
    let mut k: usize = 0;
    while k < 17
        invariant
            k <= 17,
            n == l@.len(),
            n >= 17,
            forall|j: int| 0 <= j < k ==> l@[j] == '-',
        decreases 17 - k,
    {
        if l.get_char(k) != '-' {
            return false;
        }
        k = k + 1;
    }
    true
}

/// Finds the first separator line, scanning from the top.
pub fn find_sep_idx(lines: &Vec<String>) -> (r: Option<usize>)
    ensures
        match r {
            Some(i) => i < lines@.len() && spec_sep_idx(lines@.map_values(|l: String| l@))
                == Some(i as int),
            None => spec_sep_idx(lines@.map_values(|l: String| l@)) == None::<int>,
        },
{
    let ghost view: Seq<Seq<char>> = lines@.map_values(|l: String| l@);
    let mut i: usize = 0;
    while i < lines.len()
        invariant
            i <= lines@.len(),
            view == lines@.map_values(|l: String| l@),
            forall|j: int| 0 <= j < i ==> !is_sep_line(view[j]),
        decreases lines@.len() - i,
    {
        if line_is_separator(&lines[i]) {
            proof {
                lemma_sep_idx_is(view, i as int);
            }
            return Some(i);
        }
        i = i + 1;
    }
    proof {
        lemma_sep_idx_is(view, lines@.len() as int);
    }
    None
}

/// A line with nothing but blank characters on it.
pub open spec fn is_blank(l: Seq<char>) -> bool {
    forall|k: int| 0 <= k < l.len() ==> is_space(l[k])
}

/// Does this line hold only blank characters?
pub fn line_is_blank(l: &str) -> (r: bool)
    ensures
        r == is_blank(l@),
{
    let n: usize = l.unicode_len();
    let mut k: usize = 0;
    while k < n
        invariant
            k <= n,
            n == l@.len(),
            forall|j: int| 0 <= j < k ==> is_space(l@[j]),
        decreases n - k,
    {
        let c: char = l.get_char(k);
        if !char_is_space(c) {
            return false;
        }
        k = k + 1;
    }
    true
}

/// Index of the first character that is not blank, or `s.len()`.
pub open spec fn first_nonspace(s: Seq<char>) -> int
    decreases s.len(),
{
    if s.len() == 0 {
        0
    } else if !is_space(s[0]) {
        0
    } else {
        1 + first_nonspace(s.skip(1))
    }
}

/// One past the index of the last character that is not blank, or 0.
pub open spec fn last_nonspace_end(s: Seq<char>) -> int
    decreases s.len(),
{
    if s.len() == 0 {
        0
    } else if !is_space(s.last()) {
        s.len() as int
    } else {
        last_nonspace_end(s.drop_last())
    }
}

/// `s` with leading and trailing blanks removed.
pub open spec fn spec_trim(s: Seq<char>) -> Seq<char> {
    let a = first_nonspace(s);
    let b = last_nonspace_end(s);
    if 0 <= a <= b <= s.len() {
        s.subrange(a, b)
    } else {
        Seq::empty()
    }
}

pub proof fn lemma_first_nonspace_is(s: Seq<char>, k: int)
    requires
        0 <= k <= s.len(),
        forall|j: int| 0 <= j < k ==> is_space(s[j]),
        k < s.len() ==> !is_space(s[k]),
    ensures
        first_nonspace(s) == k,
    decreases s.len(),
{
    if s.len() > 0 && is_space(s[0]) {
        assert forall|j: int| 0 <= j < k - 1 implies is_space(s.skip(1)[j]) by {
            assert(s.skip(1)[j] == s[j + 1]);
        }
        if k - 1 < s.skip(1).len() {
            assert(s.skip(1)[k - 1] == s[k]);
        }
        lemma_first_nonspace_is(s.skip(1), k - 1);
    }
}

pub proof fn lemma_last_nonspace_end_is(s: Seq<char>, k: int)
    requires
        0 <= k <= s.len(),
        forall|j: int| k <= j < s.len() ==> is_space(s[j]),
        k > 0 ==> !is_space(s[k - 1]),
    ensures
        last_nonspace_end(s) == k,
    decreases s.len(),
{
    if s.len() > 0 && is_space(s.last()) {
        assert forall|j: int| k <= j < s.drop_last().len() implies is_space(s.drop_last()[j]) by {
            assert(s.drop_last()[j] == s[j]);
        }
        if k > 0 {
            assert(s.drop_last()[k - 1] == s[k - 1]);
        }
        lemma_last_nonspace_end_is(s.drop_last(), k);
    }
}

/// Strips leading and trailing blanks from a line.
pub fn trim(s: &str) -> (r: String)
    ensures
        r@ == spec_trim(s@),
{
    let n: usize = s.unicode_len();
    let mut a: usize = 0;
    while a < n && char_is_space(s.get_char(a))
        invariant
            a <= n,
            n == s@.len(),
            forall|j: int| 0 <= j < a ==> is_space(s@[j]),
        decreases n - a,
    {
        a = a + 1;
    }
    proof {
        lemma_first_nonspace_is(s@, a as int);
    }
    if a == n {
        proof {
            lemma_last_nonspace_end_is(s@, 0);
            assert(spec_trim(s@) =~= Seq::<char>::empty());
        }
        let r: String = String::new();
        return r;
    }
    let mut b: usize = n;
    while b > a && char_is_space(s.get_char(b - 1))
        invariant
            a <= b <= n,
            n == s@.len(),
            forall|j: int| b <= j < n ==> is_space(s@[j]),
        decreases b,
    {
        b = b - 1;
    }
    proof {
        if b == a {
            assert(!is_space(s@[a as int]));
            assert(false);
        }
        lemma_last_nonspace_end_is(s@, b as int);
    }
    String::from_str(s.substring_char(a, b))
}

/// Does `l` begin with `p`?
pub open spec fn starts_with(l: Seq<char>, p: Seq<char>) -> bool {
    l.len() >= p.len() && l.take(p.len() as int) == p
}

/// Does the line begin with the given prefix?
pub fn str_starts_with(l: &str, p: &str) -> (r: bool)
    ensures
        r == starts_with(l@, p@),
{
    let n: usize = l.unicode_len();
    let m: usize = p.unicode_len();
    if n < m {
        return false;
    }
    let mut k: usize = 0;
    while k < m
        invariant
            k <= m <= n,
            n == l@.len(),
            m == p@.len(),
            forall|j: int| 0 <= j < k ==> l@[j] == p@[j],
        decreases m - k,
    {
        if l.get_char(k) != p.get_char(k) {
            proof {
                assert(l@.take(m as int)[k as int] != p@[k as int]);
            }
            return false;
        }
        k = k + 1;
    }
    proof {
        assert(l@.take(m as int) =~= p@);
    }
    true
}

/// The part of `s` after its last colon; all of `s` if it has none.
pub open spec fn last_colon_seg(s: Seq<char>) -> Seq<char>
    decreases s.len(),
{
    if s.len() == 0 {
        s
    } else if s.last() == ':' {
        Seq::empty()
    } else {
        last_colon_seg(s.drop_last()).push(s.last())
    }
}

pub proof fn lemma_last_colon_seg_is(s: Seq<char>, k: int)
    requires
        0 <= k <= s.len(),
        forall|j: int| k <= j < s.len() ==> s[j] != ':',
        k > 0 ==> s[k - 1] == ':',
    ensures
        last_colon_seg(s) == s.skip(k),
    decreases s.len(),
{
    if s.len() == 0 {
        assert(s.skip(k) =~= s);
    } else if k == s.len() {
        assert(s.last() == ':');
        assert(s.skip(k) =~= Seq::<char>::empty());
    } else {
        assert(s.last() != ':');
        assert forall|j: int| k <= j < s.drop_last().len() implies s.drop_last()[j] != ':' by {
            assert(s.drop_last()[j] == s[j]);
        }
        if k > 0 {
            assert(s.drop_last()[k - 1] == s[k - 1]);
        }
        lemma_last_colon_seg_is(s.drop_last(), k);
        assert(s.drop_last().skip(k).push(s.last()) =~= s.skip(k));
    }
}

/// Takes the final colon-delimited segment of a field, discarding any
/// `node:` style prefix; a field without a colon is handed back whole.
pub fn last_colon_segment(s: &str) -> (r: String)
    ensures
        r@ == last_colon_seg(s@),
{
    let n: usize = s.unicode_len();
    let mut k: usize = n;
    while k > 0 && s.get_char(k - 1) != ':'
        invariant
            k <= n,
            n == s@.len(),
            forall|j: int| k <= j < n ==> s@[j] != ':',
        decreases k,
    {
        k = k - 1;
    }
    proof {
        lemma_last_colon_seg_is(s@, k as int);
        assert(s@.skip(k as int) =~= s@.subrange(k as int, n as int));
    }
    String::from_str(s.substring_char(k, n))
}

/// An ASCII decimal digit.
pub open spec fn is_digit(c: char) -> bool {
    48 <= c as u32 <= 57
}

pub open spec fn digit_val(c: char) -> int {
    c as u32 - 48
}

/// Value of a string of decimal digits, most significant first.
pub open spec fn digits_val(s: Seq<char>) -> int
    decreases s.len(),
{
    if s.len() == 0 {
        0
    } else {
        digits_val(s.drop_last()) * 10 + digit_val(s.last())
    }
}

pub open spec fn all_digits(s: Seq<char>) -> bool {
    s.len() > 0 && forall|k: int| 0 <= k < s.len() ==> is_digit(s[k])
}

/// The number a field denotes: an optional sign, then decimal digits,
/// rejected when empty, malformed, or out of the `i32` range.
pub open spec fn spec_parse_i32(s: Seq<char>) -> Option<i32> {
    let neg = s.len() > 0 && s[0] == '-';
    let ds = if s.len() > 0 && (s[0] == '-' || s[0] == '+') {
        s.skip(1)
    } else {
        s
    };
    if all_digits(ds) {
        let v = if neg {
            -digits_val(ds)
        } else {
            digits_val(ds)
        };
        if i32::MIN as int <= v <= i32::MAX as int {
            Some(v as i32)
        } else {
            None
        }
    } else {
        None
    }
}

pub proof fn lemma_digits_val_nonneg(s: Seq<char>)
    requires
        forall|k: int| 0 <= k < s.len() ==> is_digit(s[k]),
    ensures
        digits_val(s) >= 0,
    decreases s.len(),
{
    if s.len() > 0 {
        assert forall|k: int| 0 <= k < s.drop_last().len() implies is_digit(s.drop_last()[k]) by {
            assert(s.drop_last()[k] == s[k]);
        }
        lemma_digits_val_nonneg(s.drop_last());
    }
}

/// Parses a field as a decimal `i32`, the way a process id is read.
pub fn parse_i32(s: &str) -> (r: Option<i32>)
    ensures
        r == spec_parse_i32(s@),
{
    let n: usize = s.unicode_len();
    let mut start: usize = 0;
    let mut neg: bool = false;
    if n > 0 {
        let c0: char = s.get_char(0);
        if c0 == '-' {
            neg = true;
            start = 1;
        } else if c0 == '+' {
            start = 1;
        }
    }
    let ghost ds: Seq<char> = if start == 1 {
        s@.skip(1)
    } else {
        s@
    };
    proof {
        if start == 0 {
            assert(ds =~= s@.skip(0));
        }
    }
    if start == n {
        return None;
    }
    let mut acc: u64 = 0;
    let mut over: bool = false;
    let mut k: usize = start;
    while k < n
        invariant
            start <= k <= n,
            n == s@.len(),
            ds == s@.skip(start as int),
            ds == (if s@.len() > 0 && (s@[0] == '-' || s@[0] == '+') {
                s@.skip(1)
            } else {
                s@
            }),
            neg == (s@.len() > 0 && s@[0] == '-'),
            ds.len() == n - start,
            forall|j: int| 0 <= j < k - start ==> is_digit(ds[j]),
            !over ==> acc == digits_val(ds.take(k - start)) && acc <= 0x8000_0000,
            over ==> digits_val(ds.take(k - start)) > 0x8000_0000,
        decreases n - k,
    {
        let c: char = s.get_char(k);
        proof {
            assert(ds[k - start] == s@[k as int]);
        }
        let cv: u32 = c as u32;
        if cv < 48 || cv > 57 {
            proof {
                assert(!is_digit(ds[k - start]));
            }
            return None;
        }
        let d: u32 = cv - 48;
        proof {
            assert(ds.take(k - start + 1).drop_last() =~= ds.take(k - start));
            assert(ds.take(k - start + 1).last() == ds[k - start]);
            assert(digits_val(ds.take(k - start + 1)) == digits_val(ds.take(k - start)) * 10
                + digit_val(ds[k - start]));
        }
        if over {
            proof {
                lemma_digits_val_nonneg(ds.take(k - start));
            }
        } else {
            let next: u64 = acc * 10 + d as u64;
            if next > 0x8000_0000 {
                over = true;
            } else {
                acc = next;
            }
        }
        k = k + 1;
    }
    proof {
        assert(ds.take(n - start) =~= ds);
        assert(all_digits(ds));
    }
    if over {
        proof {
            assert(digits_val(ds) > 0x8000_0000);
        }
        return None;
    }
    if neg {
        let v: i64 = -(acc as i64);
        Some(v as i32)
    } else {
        if acc > 0x7FFF_FFFF {
            return None;
        }
        Some(acc as i32)
    }
}

/// The fields joined back together with single spaces between them.
pub open spec fn join_spaces(parts: Seq<Seq<char>>) -> Seq<char>
    decreases parts.len(),
{
    if parts.len() == 0 {
        Seq::empty()
    } else if parts.len() == 1 {
        parts[0]
    } else {
        parts[0] + seq![' '] + join_spaces(parts.skip(1))
    }
}

pub proof fn lemma_join_push(ps: Seq<Seq<char>>, p: Seq<char>)
    ensures
        ps.len() == 0 ==> join_spaces(ps.push(p)) == p,
        ps.len() > 0 ==> join_spaces(ps.push(p)) == join_spaces(ps) + seq![' '] + p,
    decreases ps.len(),
{
    if ps.len() == 0 {
        assert(ps.push(p)[0] == p);
    } else {
        assert(ps.push(p).skip(1) =~= ps.skip(1).push(p));
        lemma_join_push(ps.skip(1), p);
        assert(ps.push(p)[0] == ps[0]);
        if ps.len() == 1 {
            assert(join_spaces(ps.push(p)) == ps[0] + seq![' '] + p);
        } else {
            assert(ps[0] + seq![' '] + (join_spaces(ps.skip(1)) + seq![' '] + p) =~= (ps[0]
                + seq![' '] + join_spaces(ps.skip(1))) + seq![' '] + p);
        }
    }
}

/// Joins fields with single spaces, the shape handed to the
/// timestamp formats.
pub fn join_with_spaces(parts: &Vec<String>) -> (r: String)
    ensures
        r@ == join_spaces(parts@.map_values(|p: String| p@)),
{
    let ghost ps: Seq<Seq<char>> = parts@.map_values(|p: String| p@);
    let mut out: String = String::new();
    let mut i: usize = 0;
    proof {
        assert(ps.take(0) =~= Seq::<Seq<char>>::empty());
    }
    while i < parts.len()
        invariant
            i <= parts@.len(),
            ps == parts@.map_values(|p: String| p@),
            out@ == join_spaces(ps.take(i as int)),
        decreases parts@.len() - i,
    {
        if i > 0 {
            out.append(" ");
            proof {
                reveal_strlit(" ");
                assert(" "@ =~= seq![' ']);
            }
        }
        out.append(parts[i].as_str());
        proof {
            assert(ps.take(i + 1) =~= ps.take(i as int).push(ps[i as int]));
            lemma_join_push(ps.take(i as int), ps[i as int]);
        }
        i = i + 1;
    }
    proof {
        assert(ps.take(parts@.len() as int) =~= ps);
    }
    out
}

} // verus!
