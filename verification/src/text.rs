//! Character-level string helpers with exact specifications.

use vstd::prelude::*;
use vstd::std_specs::iter::IteratorSpec;

verus! {

/// Whether `c` has the Unicode `White_Space` property.
pub open spec fn is_white_space(c: char) -> bool {
    let v = c as u32;
    ||| 0x9 <= v <= 0xD
    ||| v == 0x20
    ||| v == 0x85
    ||| v == 0xA0
    ||| v == 0x1680
    ||| 0x2000 <= v <= 0x200A
    ||| v == 0x2028
    ||| v == 0x2029
    ||| v == 0x202F
    ||| v == 0x205F
    ||| v == 0x3000
}

/// `s` without its leading white space.
pub open spec fn trim_start(s: Seq<char>) -> Seq<char>
    decreases s.len(),
{
    if s.len() > 0 && is_white_space(s[0]) {
        trim_start(s.drop_first())
    } else {
        s
    }
}

/// `s` without its trailing white space.
pub open spec fn trim_end(s: Seq<char>) -> Seq<char>
    decreases s.len(),
{
    if s.len() > 0 && is_white_space(s.last()) {
        trim_end(s.drop_last())
    } else {
        s
    }
}

/// `s` without leading and trailing white space.
pub open spec fn trim(s: Seq<char>) -> Seq<char> {
    trim_end(trim_start(s))
}

/// Whether `s` begins with `prefix`.
pub open spec fn starts_with(s: Seq<char>, prefix: Seq<char>) -> bool {
    prefix.len() <= s.len() && s.take(prefix.len() as int) == prefix
}

/// The index of the first line feed of `s` at or after `j`, or the length
/// of `s` when there is none.
pub open spec fn newline_index(s: Seq<char>, j: int) -> int
    decreases s.len() - j,
{
    if j >= s.len() || j < 0 {
        s.len() as int
    } else if s[j] == '\n' {
        j
    } else {
        newline_index(s, j + 1)
    }
}

/// `line` without one trailing carriage return.
pub open spec fn strip_cr(line: Seq<char>) -> Seq<char> {
    if line.len() > 0 && line.last() == '\r' {
        line.drop_last()
    } else {
        line
    }
}

/// The lines of `s`: split at each line feed, a carriage return right before
/// a line feed dropped with it, and no empty line after a final line feed.
pub open spec fn split_lines(s: Seq<char>) -> Seq<Seq<char>>
    decreases s.len(),
{
    if s.len() == 0 {
        seq![]
    } else {
        let k = newline_index(s, 0);
        if 0 <= k < s.len() {
            seq![strip_cr(s.take(k))] + split_lines(s.skip(k + 1))
        } else {
            seq![s]
        }
    }
}

/// Whether `c` does not occur in `s`.
pub open spec fn lacks_char(s: Seq<char>, c: char) -> bool {
    forall|i: int| 0 <= i < s.len() ==> #[trigger] s[i] != c
}

/// `s` ending with a line feed: unchanged when empty or already ending
/// with one.
pub open spec fn with_final_newline(s: Seq<char>) -> Seq<char> {
    if s.len() == 0 || s.last() == '\n' {
        s
    } else {
        s.push('\n')
    }
}

/// The first line feed at or after `j` is at `newline_index(s, j)`.
pub proof fn lemma_newline_index(s: Seq<char>, j: int)
    requires
        0 <= j <= s.len(),
    ensures
        j <= newline_index(s, j) <= s.len(),
        newline_index(s, j) < s.len() ==> s[newline_index(s, j)] == '\n',
        forall|i: int| j <= i < newline_index(s, j) ==> #[trigger] s[i] != '\n',
    decreases s.len() - j,
{
    if j < s.len() && s[j] != '\n' {
        lemma_newline_index(s, j + 1);
    }
}

/// The lines of `a + b`, where `a` is empty or ends with a line feed, are
/// those of `a` followed by those of `b`.
pub proof fn lemma_split_lines_concat(a: Seq<char>, b: Seq<char>)
    requires
        a.len() == 0 || a.last() == '\n',
    ensures
        split_lines(a + b) == split_lines(a) + split_lines(b),
    decreases a.len(),
{
    if a.len() == 0 {
        assert(a + b =~= b);
        assert(split_lines(a) + split_lines(b) =~= split_lines(b));
    } else {
        let ab = a + b;
        lemma_newline_index(a, 0);
        lemma_newline_index(ab, 0);
        let k = newline_index(a, 0);
        assert(a[a.len() - 1] == '\n');
        assert(k < a.len());
        assert(ab[k] == '\n');
        assert(newline_index(ab, 0) == k) by {
            if newline_index(ab, 0) < k {
                assert(ab[newline_index(ab, 0)] == a[newline_index(ab, 0)]);
            }
            if newline_index(ab, 0) > k {
                assert(ab[k] != '\n');
            }
        }
        assert(ab.take(k) =~= a.take(k));
        let rest = a.skip(k + 1);
        assert(ab.skip(k + 1) =~= rest + b);
        if rest.len() > 0 {
            assert(rest.last() == a.last());
        }
        lemma_split_lines_concat(rest, b);
        assert(split_lines(ab) =~= split_lines(a) + split_lines(b));
    }
}

/// Ending a text without carriage returns with a line feed does not
/// change its lines.
pub proof fn lemma_split_lines_final_newline(s: Seq<char>)
    requires
        lacks_char(s, '\r'),
    ensures
        split_lines(with_final_newline(s)) == split_lines(s),
    decreases s.len(),
{
    if s.len() > 0 && s.last() != '\n' {
        let t = s.push('\n');
        lemma_newline_index(s, 0);
        lemma_newline_index(t, 0);
        let k = newline_index(s, 0);
        assert(newline_index(t, 0) == k) by {
            if newline_index(t, 0) < k {
                assert(t[newline_index(t, 0)] == s[newline_index(t, 0)]);
            }
            if newline_index(t, 0) > k {
                assert(t[k] == '\n');
            }
        }
        if k < s.len() {
            let rest = s.skip(k + 1);
            assert(k + 1 < s.len()) by {
                if k + 1 == s.len() {
                    assert(s.last() == s[k]);
                }
            }
            assert(t.take(k) =~= s.take(k));
            assert(t.skip(k + 1) =~= rest.push('\n'));
            assert(rest.last() == s.last());
            assert(lacks_char(rest, '\r')) by {
                assert forall|i: int| 0 <= i < rest.len() implies #[trigger] rest[i] != '\r' by {
                    assert(rest[i] == s[i + k + 1]);
                }
            }
            lemma_split_lines_final_newline(rest);
            assert(split_lines(t) =~= split_lines(s));
        } else {
            assert(s.len() > 0 && s[s.len() - 1] != '\r');
            assert(t.take(k) =~= s);
            assert(t.skip(k + 1) =~= Seq::<char>::empty());
            assert(strip_cr(s) == s);
            assert(split_lines(t.skip(k + 1)) == Seq::<Seq<char>>::empty());
            assert(split_lines(t) == seq![strip_cr(t.take(k))] + split_lines(t.skip(k + 1)));
            assert(split_lines(t) =~= seq![s]);
            assert(split_lines(s) == seq![s]);
        }
    }
}

/// A character missing from a text is missing from each of its lines.
pub proof fn lemma_split_lines_lack(s: Seq<char>, c: char)
    requires
        lacks_char(s, c),
    ensures
        forall|i: int| 0 <= i < split_lines(s).len() ==> lacks_char(#[trigger] split_lines(s)[i], c),
    decreases s.len(),
{
    if s.len() > 0 {
        lemma_newline_index(s, 0);
        let k = newline_index(s, 0);
        if k < s.len() {
            let rest = s.skip(k + 1);
            lemma_split_lines_lack(rest, c);
            let first = strip_cr(s.take(k));
            assert(lacks_char(first, c)) by {
                assert forall|i: int| 0 <= i < first.len() implies #[trigger] first[i] != c by {
                    assert(first[i] == s[i]);
                }
            }
            assert forall|i: int| 0 <= i < split_lines(s).len() implies lacks_char(
                #[trigger] split_lines(s)[i],
                c,
            ) by {
                if i > 0 {
                    assert(split_lines(s)[i] == split_lines(rest)[i - 1]);
                }
            }
        }
    }
}

/// A character missing from a text is missing from the text trimmed.
pub proof fn lemma_trim_lack(s: Seq<char>, c: char)
    requires
        lacks_char(s, c),
    ensures
        lacks_char(trim_start(s), c),
        lacks_char(trim_end(s), c),
        lacks_char(trim(s), c),
    decreases s.len(),
{
    if s.len() > 0 {
        assert(lacks_char(s.drop_first(), c)) by {
            assert forall|i: int| 0 <= i < s.drop_first().len() implies #[trigger] s.drop_first()[i]
                != c by {
                assert(s.drop_first()[i] == s[i + 1]);
            }
        }
        assert(lacks_char(s.drop_last(), c)) by {
            assert forall|i: int| 0 <= i < s.drop_last().len() implies #[trigger] s.drop_last()[i]
                != c by {
                assert(s.drop_last()[i] == s[i]);
            }
        }
        lemma_trim_lack(s.drop_first(), c);
        lemma_trim_lack(s.drop_last(), c);
    }
    lemma_trim_end_lack(trim_start(s), c);
}

proof fn lemma_trim_end_lack(s: Seq<char>, c: char)
    requires
        lacks_char(s, c),
    ensures
        lacks_char(trim_end(s), c),
    decreases s.len(),
{
    if s.len() > 0 && is_white_space(s.last()) {
        assert(lacks_char(s.drop_last(), c)) by {
            assert forall|i: int| 0 <= i < s.drop_last().len() implies #[trigger] s.drop_last()[i]
                != c by {
                assert(s.drop_last()[i] == s[i]);
            }
        }
        lemma_trim_end_lack(s.drop_last(), c);
    }
}

/// The characters of a string slice, in order.
pub(crate) fn chars_of(s: &str) -> (r: Vec<char>)
    ensures
        r@ == s@,
{
    broadcast use vstd::string::axiom_spec_iter, vstd::string::next_postcondition;

    let mut out: Vec<char> = Vec::new();
    let mut it = s.chars();
    loop
        invariant
            out@ + it.remaining() == s@,
            it.decrease() is Some,
        ensures
            out@ == s@,
        decreases it.decrease()->0,
    {
        match it.next() {
            Some(c) => {
                proof {
                    assert(out@.push(c) + it.remaining() =~= s@);
                }
                out.push(c);
            },
            None => {
                proof {
                    assert(out@ =~= s@);
                }
                break;
            },
        }
    }
    out
}

/// A string made of the given characters.
///
/// Collects the characters into a `String` (`FromIterator<char>`); the
/// contract claims the string holds exactly these characters, in order.
#[verifier::external_body]
pub(crate) fn string_from_chars(chars: &[char]) -> (r: String)
    ensures
        r@ == chars@,
{
    chars.iter().collect()
}

/// Whether `c` has the Unicode `White_Space` property.
pub fn is_white_space_char(c: char) -> (r: bool)
    ensures
        r == is_white_space(c),
{
    let v = c as u32;
    (0x9 <= v && v <= 0xD) || v == 0x20 || v == 0x85 || v == 0xA0 || v == 0x1680 || (0x2000 <= v && v
        <= 0x200A) || v == 0x2028 || v == 0x2029 || v == 0x202F || v == 0x205F || v == 0x3000
}

proof fn lemma_trim_start_skip(s: Seq<char>, i: int)
    requires
        0 <= i <= s.len(),
        forall|k: int| 0 <= k < i ==> is_white_space(#[trigger] s[k]),
    ensures
        trim_start(s) == trim_start(s.skip(i)),
    decreases i,
{
    if i > 0 {
        assert(s.skip(1) =~= s.drop_first());
        lemma_trim_start_skip(s.drop_first(), i - 1);
        assert(s.drop_first().skip(i - 1) =~= s.skip(i));
    } else {
        assert(s.skip(0) =~= s);
    }
}

proof fn lemma_trim_end_take(s: Seq<char>, j: int)
    requires
        0 <= j <= s.len(),
        forall|k: int| j <= k < s.len() ==> is_white_space(#[trigger] s[k]),
    ensures
        trim_end(s) == trim_end(s.take(j)),
    decreases s.len() - j,
{
    if j < s.len() {
        assert(s.take(s.len() - 1) =~= s.drop_last());
        lemma_trim_end_take(s.drop_last(), j);
        assert(s.drop_last().take(j) =~= s.take(j));
    } else {
        assert(s.take(j) =~= s);
    }
}

/// Index range `[start, end)` of `s` that remains after trimming white
/// space at both ends.
pub fn trim_bounds(s: &[char]) -> (r: (usize, usize))
    ensures
        r.0 <= r.1 <= s@.len(),
        s@.subrange(r.0 as int, r.1 as int) == trim(s@),
        trim_start(s@) == s@.skip(r.0 as int),
{
    let mut start: usize = 0;
    while start < s.len() && is_white_space_char(s[start])
        invariant
            start <= s@.len(),
            forall|k: int| 0 <= k < start ==> is_white_space(#[trigger] s@[k]),
        decreases s@.len() - start,
    {
        start = start + 1;
    }
    proof {
        lemma_trim_start_skip(s@, start as int);
        let t = s@.skip(start as int);
        if t.len() > 0 {
            assert(t[0] == s@[start as int]);
        }
    }
    let ghost t = s@.skip(start as int);
    let mut end: usize = s.len();
    while end > start && is_white_space_char(s[end - 1])
        invariant
            start <= end <= s@.len(),
            t == s@.skip(start as int),
            forall|k: int| end - start <= k < t.len() ==> is_white_space(#[trigger] t[k]),
        decreases end - start,
    {
        end = end - 1;
    }
    proof {
        lemma_trim_end_take(t, end - start);
        let u = t.take(end - start);
        if u.len() > 0 {
            assert(u.last() == s@[end - 1]);
        }
        assert(u =~= s@.subrange(start as int, end as int));
    }
    (start, end)
}

/// Whether `s` begins with `prefix`.
pub fn has_prefix(s: &[char], prefix: &[char]) -> (r: bool)
    ensures
        r == starts_with(s@, prefix@),
{
    if prefix.len() > s.len() {
        return false;
    }
    let mut i: usize = 0;
    while i < prefix.len()
        invariant
            i <= prefix@.len() <= s@.len(),
            forall|k: int| 0 <= k < i ==> s@[k] == prefix@[k],
        decreases prefix@.len() - i,
    {
        if s[i] != prefix[i] {
            proof {
                assert(s@.take(prefix@.len() as int)[i as int] != prefix@[i as int]);
            }
            return false;
        }
        i = i + 1;
    }
    proof {
        assert(s@.take(prefix@.len() as int) =~= prefix@);
    }
    true
}

/// The characters of `s` from index `a` up to `b`.
pub fn copy_range(s: &[char], a: usize, b: usize) -> (r: Vec<char>)
    requires
        a <= b <= s@.len(),
    ensures
        r@ == s@.subrange(a as int, b as int),
{
    let mut out: Vec<char> = Vec::new();
    let mut i: usize = a;
    while i < b
        invariant
            a <= i <= b <= s@.len(),
            out@ == s@.subrange(a as int, i as int),
        decreases b - i,
    {
        out.push(s[i]);
        i = i + 1;
        proof {
            assert(out@ =~= s@.subrange(a as int, i as int));
        }
    }
    out
}

/// The character sequences of a sequence of strings.
pub open spec fn string_views(v: Seq<String>) -> Seq<Seq<char>> {
    v.map_values(|s: String| s@)
}

proof fn lemma_newline_scan(s: Seq<char>, j: int)
    requires
        0 <= j <= s.len(),
        forall|k: int| 0 <= k < j ==> #[trigger] s[k] != '\n',
    ensures
        newline_index(s, 0) == newline_index(s, j),
    decreases j,
{
    if j > 0 {
        lemma_newline_scan(s, j - 1);
    }
}

/// The lines of `s`, as `str::lines` gives them.
pub fn lines_of(s: &str) -> (r: Vec<String>)
    ensures
        string_views(r@) == split_lines(s@),
{
    let chars = chars_of(s);
    let n = chars.len();
    let mut lines: Vec<String> = Vec::new();
    let mut start: usize = 0;
    proof {
        assert(s@.skip(0) =~= s@);
        assert(string_views(lines@) + split_lines(s@) =~= split_lines(s@));
    }
    while start < n
        invariant
            start <= n == chars@.len(),
            chars@ == s@,
            split_lines(s@) == string_views(lines@) + split_lines(s@.skip(start as int)),
        decreases n - start,
    {
        let ghost rest = s@.skip(start as int);
        let mut j: usize = start;
        while j < n && chars[j] != '\n'
            invariant
                start <= j <= n == chars@.len(),
                rest == chars@.skip(start as int),
                forall|k: int| 0 <= k < j - start ==> #[trigger] rest[k] != '\n',
            decreases n - j,
        {
            j = j + 1;
        }
        proof {
            lemma_newline_scan(rest, j - start);
        }
        let ghost old_lines = lines@;
        if j < n {
            let end = if j > start && chars[j - 1] == '\r' {
                j - 1
            } else {
                j
            };
            let line = copy_range(chars.as_slice(), start, end);
            lines.push(string_from_chars(line.as_slice()));
            proof {
                assert(rest.take(j - start) =~= chars@.subrange(start as int, j as int));
                assert(strip_cr(rest.take(j - start)) =~= chars@.subrange(start as int, end as int));
                assert(rest.skip(j - start + 1) =~= s@.skip(j + 1));
                assert(string_views(lines@) =~= string_views(old_lines).push(
                    chars@.subrange(start as int, end as int),
                ));
                assert(split_lines(rest) == seq![strip_cr(rest.take(j - start))] + split_lines(
                    rest.skip(j - start + 1),
                ));
            }
            start = j + 1;
        } else {
            let line = copy_range(chars.as_slice(), start, n);
            lines.push(string_from_chars(line.as_slice()));
            proof {
                assert(rest =~= chars@.subrange(start as int, n as int));
                assert(string_views(lines@) =~= string_views(old_lines).push(rest));
                assert(s@.skip(n as int) =~= Seq::<char>::empty());
            }
            start = n;
        }
    }
    proof {
        assert(s@.skip(n as int) =~= Seq::<char>::empty());
        assert(string_views(lines@) + seq![] =~= string_views(lines@));
    }
    lines
}

} // verus!
