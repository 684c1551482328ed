//! Character-level text primitives: searching, trimming, splitting into lines
//! and joining, all stated over `Seq<char>`.
use vstd::prelude::*;
use vstd::string::StringSliceAdditionalSpecFns;

verus! {

// ---------------------------------------------------------------------------
// Specifications
// ---------------------------------------------------------------------------

/// `needle` occurs in `hay` starting at index `i`.
pub open spec fn matches_at(hay: Seq<char>, needle: Seq<char>, i: int) -> bool {
    &&& 0 <= i
    &&& i + needle.len() <= hay.len()
    &&& hay.subrange(i, i + needle.len()) == needle
}

/// `needle` occurs somewhere in `hay`.
pub open spec fn contains_seq(hay: Seq<char>, needle: Seq<char>) -> bool {
    exists|i: int| matches_at(hay, needle, i)
}

/// `i` is the first index at which `needle` occurs in `hay`.
pub open spec fn is_first_match(hay: Seq<char>, needle: Seq<char>, i: int) -> bool {
    &&& matches_at(hay, needle, i)
    &&& forall|j: int| 0 <= j < i ==> !matches_at(hay, needle, j)
}

/// `hay` begins with `prefix`.
pub open spec fn starts_with_seq(hay: Seq<char>, prefix: Seq<char>) -> bool {
    matches_at(hay, prefix, 0)
}

/// ASCII letters `a..=z` and `A..=Z`.
pub open spec fn is_ascii_alpha(c: char) -> bool {
    ('a' <= c && c <= 'z') || ('A' <= c && c <= 'Z')
}

/// The characters with the Unicode `White_Space` property.
pub open spec fn is_white_space(c: char) -> bool {
    ||| ('\t' <= c && c <= '\r')
    ||| c == ' '
    ||| c == '\u{85}'
    ||| c == '\u{a0}'
    ||| c == '\u{1680}'
    ||| ('\u{2000}' <= c && c <= '\u{200a}')
    ||| c == '\u{2028}'
    ||| c == '\u{2029}'
    ||| c == '\u{202f}'
    ||| c == '\u{205f}'
    ||| c == '\u{3000}'
}

/// `s` without its leading white space.
pub open spec fn trim_start_seq(s: Seq<char>) -> Seq<char>
    decreases s.len(),
{
    if s.len() > 0 && is_white_space(s[0]) {
        trim_start_seq(s.drop_first())
    } else {
        s
    }
}

/// `s` without its trailing white space.
pub open spec fn trim_end_seq(s: Seq<char>) -> Seq<char>
    decreases s.len(),
{
    if s.len() > 0 && is_white_space(s.last()) {
        trim_end_seq(s.drop_last())
    } else {
        s
    }
}

/// `s` without leading and trailing white space.
pub open spec fn trim_seq(s: Seq<char>) -> Seq<char> {
    trim_end_seq(trim_start_seq(s))
}

/// A line terminated by `\n` loses one `\r` that stands before the `\n`.
pub open spec fn strip_cr(line: Seq<char>) -> Seq<char> {
    if line.len() > 0 && line.last() == '\r' {
        line.drop_last()
    } else {
        line
    }
}

/// Reading `s` from the left: the lines closed by a `\n` so far, and the
/// text after the last `\n`.
pub open spec fn line_scan(s: Seq<char>) -> (Seq<Seq<char>>, Seq<char>)
    decreases s.len(),
{
    if s.len() == 0 {
        (Seq::empty(), Seq::empty())
    } else {
        let (done, cur) = line_scan(s.drop_last());
        if s.last() == '\n' {
            (done.push(strip_cr(cur)), Seq::empty())
        } else {
            (done, cur.push(s.last()))
        }
    }
}

/// The lines of `s`: split at each `\n` (a `\r` just before it is dropped);
/// a final line without `\n` counts when it is not empty.
pub open spec fn lines_seq(s: Seq<char>) -> Seq<Seq<char>> {
    let (done, cur) = line_scan(s);
    if cur.len() > 0 {
        done.push(cur)
    } else {
        done
    }
}

/// The elements of `parts` with `sep` between each two of them.
pub open spec fn join_seq(parts: Seq<Seq<char>>, sep: Seq<char>) -> Seq<char>
    decreases parts.len(),
{
    if parts.len() == 0 {
        Seq::empty()
    } else if parts.len() == 1 {
        parts[0]
    } else {
        join_seq(parts.drop_last(), sep) + sep + parts.last()
    }
}

// ---------------------------------------------------------------------------
// Conversions
// ---------------------------------------------------------------------------

/// The characters of `s`, in order.
pub fn chars_of(s: &str) -> (v: Vec<char>)
    ensures
        v@ == s@,
{
    let mut v: Vec<char> = Vec::new();
    for c in it: s.chars()
        invariant
            v@ == it.seq().take(it.index() as int),
    {
        v.push(c);
    }
    v
}

/// The length of the UTF-8 encoding of `s`.
pub fn byte_len(s: &str) -> (n: usize)
    ensures
        n == s.spec_bytes().len(),
{
    s.as_bytes().len()
}

/// Appends a character to a string (std's `String::push`): the string
/// afterwards holds its old characters followed by `ch`.
pub assume_specification[ String::push ](s: &mut String, ch: char)
    ensures
        final(s)@ == old(s)@.push(ch),
;

/// The characters `cs` as a `String`.
pub fn string_from_chars(cs: &[char]) -> (s: String)
    ensures
        s@ == cs@,
{
    let mut s = String::new();
    let n = cs.len();
    for i in 0..n
        invariant
            n == cs@.len(),
            s@ == cs@.take(i as int),
    {
        s.push(cs[i]);
        assert(cs@.take(i + 1) == cs@.take(i as int).push(cs@[i as int]));
    }
    assert(cs@.take(n as int) == cs@);
    s
}

/// Appends `cs` to `out`.
pub fn push_all(out: &mut Vec<char>, cs: &Vec<char>)
    ensures
        final(out)@ == old(out)@ + cs@,
{
    let ghost start = out@;
    let n = cs.len();
    for i in 0..n
        invariant
            n == cs@.len(),
            out@ == start + cs@.take(i as int),
    {
        out.push(cs[i]);
        assert(cs@.take(i + 1) == cs@.take(i as int).push(cs@[i as int]));
    }
    assert(cs@.take(n as int) == cs@);
}

// ---------------------------------------------------------------------------
// Searching
// ---------------------------------------------------------------------------

/// Whether `needle` occurs in `hay` at index `i`.
pub fn matches_at_exec(hay: &Vec<char>, needle: &Vec<char>, i: usize) -> (b: bool)
    ensures
        b == matches_at(hay@, needle@, i as int),
{
    if needle.len() > hay.len() || i > hay.len() - needle.len() {
        return false;
    }
    let n = needle.len();
    let mut k: usize = 0;
    while k < n
        invariant
            n == needle@.len(),
            i + n <= hay@.len(),
            i + n <= hay.len(),
            k <= n,
            forall|t: int| 0 <= t < k ==> hay@[i + t] == needle@[t],
        decreases n - k,
    {
        if hay[i + k] != needle[k] {
            assert(hay@.subrange(i as int, i + n)[k as int] != needle@[k as int]);
            return false;
        }
        k += 1;
    }
    assert(hay@.subrange(i as int, i + n) =~= needle@);
    true
}

/// The first index at which `needle` occurs in `hay`, if any.
pub fn find_chars(hay: &Vec<char>, needle: &Vec<char>) -> (r: Option<usize>)
    ensures
        match r {
            Some(i) => is_first_match(hay@, needle@, i as int),
            None => !contains_seq(hay@, needle@),
        },
{
    if needle.len() > hay.len() {
        assert forall|j: int| !matches_at(hay@, needle@, j) by {}
        return None;
    }
    if needle.len() == 0 {
        assert(hay@.subrange(0, 0) =~= needle@);
        return Some(0);
    }
    let last = hay.len() - needle.len();
    let mut i: usize = 0;
    while i <= last
        invariant
            last + needle@.len() == hay@.len(),
            last < hay.len(),
            i <= last + 1,
            forall|j: int| 0 <= j < i ==> !matches_at(hay@, needle@, j),
        decreases last + 1 - i,
    {
        if matches_at_exec(hay, needle, i) {
            return Some(i);
        }
        i += 1;
    }
    assert forall|j: int| !matches_at(hay@, needle@, j) by {
        if 0 <= j && j + needle@.len() <= hay@.len() {
            assert(j <= last);
        }
    }
    None
}

/// Whether `needle` occurs in `hay`.
pub fn contains_str(hay: &Vec<char>, needle: &str) -> (b: bool)
    ensures
        b == contains_seq(hay@, needle@),
{
    let n = chars_of(needle);
    match find_chars(hay, &n) {
        Some(_) => true,
        None => false,
    }
}

/// Whether `hay` begins with `prefix`.
pub fn starts_with_str(hay: &Vec<char>, prefix: &str) -> (b: bool)
    ensures
        b == starts_with_seq(hay@, prefix@),
{
    let p = chars_of(prefix);
    matches_at_exec(hay, &p, 0)
}

/// Whether two strings hold the same characters.
pub fn str_eq(a: &str, b: &str) -> (r: bool)
    ensures
        r == (a@ == b@),
{
    let x = chars_of(a);
    let y = chars_of(b);
    if x.len() != y.len() {
        return false;
    }
    let r = matches_at_exec(&x, &y, 0);
    assert(x@.subrange(0, y@.len() as int) == x@);
    r
}

// ---------------------------------------------------------------------------
// Character classes
// ---------------------------------------------------------------------------

/// Whether `c` is an ASCII letter.
pub fn is_ascii_alpha_exec(c: char) -> (b: bool)
    ensures
        b == is_ascii_alpha(c),
{
    ('a' <= c && c <= 'z') || ('A' <= c && c <= 'Z')
}

/// Whether `c` has the Unicode `White_Space` property.
pub fn is_white_space_exec(c: char) -> (b: bool)
    ensures
        b == is_white_space(c),
{
    ('\t' <= c && c <= '\r') || c == ' ' || c == '\u{85}' || c == '\u{a0}' || c == '\u{1680}'
        || ('\u{2000}' <= c && c <= '\u{200a}') || c == '\u{2028}' || c == '\u{2029}' || c
        == '\u{202f}' || c == '\u{205f}' || c == '\u{3000}'
}

// ---------------------------------------------------------------------------
// Trimming
// ---------------------------------------------------------------------------

proof fn lemma_trim_start_skip(s: Seq<char>, i: int)
    requires
        0 <= i <= s.len(),
        forall|j: int| 0 <= j < i ==> is_white_space(s[j]),
    ensures
        trim_start_seq(s) == trim_start_seq(s.skip(i)),
    decreases i,
{
    if i > 0 {
        assert(s.skip(1) == s.drop_first());
        lemma_trim_start_skip(s.drop_first(), i - 1);
        assert(s.drop_first().skip(i - 1) == s.skip(i));
    } else {
        assert(s.skip(0) == s);
    }
}

proof fn lemma_trim_end_take(s: Seq<char>, k: int)
    requires
        0 <= k <= s.len(),
        forall|j: int| k <= j < s.len() ==> is_white_space(s[j]),
    ensures
        trim_end_seq(s) == trim_end_seq(s.take(k)),
    decreases s.len() - k,
{
    if k < s.len() {
        lemma_trim_end_take(s.drop_last(), k);
        assert(s.drop_last().take(k) == s.take(k));
    } else {
        assert(s.take(k) == s);
    }
}

/// `cs` without leading and trailing white space.
pub fn trim_chars(cs: &Vec<char>) -> (r: Vec<char>)
    ensures
        r@ == trim_seq(cs@),
{
    let n = cs.len();
    let mut a: usize = 0;
    while a < n && is_white_space_exec(cs[a])
        invariant
            n == cs@.len(),
            a <= n,
            forall|j: int| 0 <= j < a ==> is_white_space(cs@[j]),
        decreases n - a,
    {
        a += 1;
    }
    proof {
        lemma_trim_start_skip(cs@, a as int);
    }
    let ghost t = cs@.skip(a as int);
    assert(trim_start_seq(t) == t);
    let mut b: usize = n;
    while b > a && is_white_space_exec(cs[b - 1])
        invariant
            n == cs@.len(),
            a <= b <= n,
            forall|j: int| b <= j < n ==> is_white_space(cs@[j]),
        decreases b - a,
    {
        b -= 1;
    }
    let mut r: Vec<char> = Vec::new();
    let mut i: usize = a;
    while i < b
        invariant
            a <= i <= b <= n,
            n == cs@.len(),
            r@ == cs@.subrange(a as int, i as int),
        decreases b - i,
    {
        r.push(cs[i]);
        assert(cs@.subrange(a as int, i + 1) == cs@.subrange(a as int, i as int).push(cs@[i as int]));
        i += 1;
    }
    proof {
        let k = (b - a) as int;
        assert forall|j: int| k <= j < t.len() implies is_white_space(t[j]) by {
            assert(t[j] == cs@[a + j]);
        }
        lemma_trim_end_take(t, k);
        assert(t.take(k) == r@);
        if r@.len() > 0 {
            assert(r@.last() == cs@[b - 1]);
        }
    }
    r
}

// ---------------------------------------------------------------------------
// Lines
// ---------------------------------------------------------------------------

/// The lines of `cs` (see `lines_seq`).
pub fn lines_chars(cs: &Vec<char>) -> (r: Vec<Vec<char>>)
    ensures
        r@.len() == lines_seq(cs@).len(),
        forall|i: int| 0 <= i < r@.len() ==> #[trigger] r@[i]@ == lines_seq(cs@)[i],
{
    let n = cs.len();
    let mut done: Vec<Vec<char>> = Vec::new();
    let mut cur: Vec<char> = Vec::new();
    let mut i: usize = 0;
    while i < n
        invariant
            n == cs@.len(),
            i <= n,
            done@.len() == line_scan(cs@.take(i as int)).0.len(),
            forall|k: int|
                0 <= k < done@.len() ==> #[trigger] done@[k]@ == line_scan(
                    cs@.take(i as int),
                ).0[k],
            cur@ == line_scan(cs@.take(i as int)).1,
        decreases n - i,
    {
        let c = cs[i];
        assert(cs@.take(i + 1).drop_last() == cs@.take(i as int));
        if c == '\n' {
            let len = cur.len();
            if len > 0 && cur[len - 1] == '\r' {
                cur.pop();
            }
            let mut fresh: Vec<char> = Vec::new();
            std::mem::swap(&mut cur, &mut fresh);
            done.push(fresh);
        } else {
            cur.push(c);
        }
        i += 1;
    }
    assert(cs@.take(n as int) == cs@);
    if cur.len() > 0 {
        done.push(cur);
    }
    done
}

/// The elements of `parts` from index `start` on, with `sep` between each
/// two of them.
pub fn join_chars_from(parts: &Vec<Vec<char>>, start: usize, sep: &str) -> (r: Vec<char>)
    requires
        start <= parts@.len(),
    ensures
        r@ == join_seq(parts@.map_values(|p: Vec<char>| p@).skip(start as int), sep@),
{
    let ghost views = parts@.map_values(|p: Vec<char>| p@).skip(start as int);
    let sep_cs = chars_of(sep);
    let mut r: Vec<char> = Vec::new();
    let n = parts.len();
    let mut i: usize = start;
    while i < n
        invariant
            start <= i <= n,
            n == parts@.len(),
            views.len() == n - start,
            forall|k: int| 0 <= k < n - start ==> #[trigger] views[k] == parts@[k + start]@,
            sep_cs@ == sep@,
            r@ == join_seq(views.take(i - start), sep@),
        decreases n - i,
    {
        assert(views.take(i + 1 - start).drop_last() == views.take(i - start));
        if i != start {
            push_all(&mut r, &sep_cs);
        }
        push_all(&mut r, &parts[i]);
        i += 1;
    }
    assert(views.take(n - start) == views);
    r
}

// ---------------------------------------------------------------------------
// Laws
// ---------------------------------------------------------------------------

/// `c` does not occur in `s`.
pub open spec fn free_of(s: Seq<char>, c: char) -> bool {
    forall|k: int| 0 <= k < s.len() ==> s[k] != c
}

proof fn lemma_line_scan_free_of_newline(s: Seq<char>)
    ensures
        forall|i: int|
            0 <= i < line_scan(s).0.len() ==> free_of(#[trigger] line_scan(s).0[i], '\n'),
        free_of(line_scan(s).1, '\n'),
    decreases s.len(),
{
    if s.len() > 0 {
        lemma_line_scan_free_of_newline(s.drop_last());
        let (done, cur) = line_scan(s.drop_last());
        if s.last() == '\n' {
            let l = strip_cr(cur);
            assert(free_of(l, '\n')) by {
                if cur.len() > 0 && cur.last() == '\r' {
                    assert forall|k: int| 0 <= k < l.len() implies l[k] != '\n' by {
                        assert(l[k] == cur[k]);
                    }
                }
            }
            assert forall|i: int| 0 <= i < done.push(l).len() implies free_of(
                #[trigger] done.push(l)[i],
                '\n',
            ) by {
                if i < done.len() {
                    assert(done.push(l)[i] == done[i]);
                }
            }
        } else {
            assert forall|i: int| 0 <= i < done.len() implies free_of(#[trigger] done[i], '\n') by {}
        }
    }
}

/// No line of a text holds a newline.
pub proof fn law_lines_hold_no_newline(s: Seq<char>)
    ensures
        forall|i: int| 0 <= i < lines_seq(s).len() ==> free_of(#[trigger] lines_seq(s)[i], '\n'),
{
    lemma_line_scan_free_of_newline(s);
    let (done, cur) = line_scan(s);
    if cur.len() > 0 {
        assert forall|i: int| 0 <= i < done.push(cur).len() implies free_of(
            #[trigger] done.push(cur)[i],
            '\n',
        ) by {
            if i < done.len() {
                assert(done.push(cur)[i] == done[i]);
            }
        }
    }
}

/// `a` is empty or ends with a newline: text appended to it starts a line.
pub open spec fn ends_line(a: Seq<char>) -> bool {
    a.len() == 0 || a.last() == '\n'
}

proof fn lemma_line_scan_append(a: Seq<char>, b: Seq<char>)
    requires
        ends_line(a),
    ensures
        line_scan(a + b).0 == line_scan(a).0 + line_scan(b).0,
        line_scan(a + b).1 == line_scan(b).1,
    decreases b.len(),
{
    if b.len() == 0 {
        assert(a + b == a);
        assert(line_scan(a).0 + Seq::<Seq<char>>::empty() == line_scan(a).0);
        if a.len() > 0 {
            assert(line_scan(a).1 == Seq::<char>::empty());
        }
    } else {
        assert((a + b).drop_last() == a + b.drop_last());
        assert((a + b).last() == b.last());
        lemma_line_scan_append(a, b.drop_last());
        let (d0, c0) = line_scan(b.drop_last());
        if b.last() == '\n' {
            assert(line_scan(a).0 + d0.push(strip_cr(c0)) == (line_scan(a).0 + d0).push(
                strip_cr(c0),
            ));
        }
    }
}

proof fn lemma_line_scan_free(l: Seq<char>)
    requires
        free_of(l, '\n'),
    ensures
        line_scan(l).0.len() == 0,
        line_scan(l).1 == l,
    decreases l.len(),
{
    if l.len() > 0 {
        assert(free_of(l.drop_last(), '\n')) by {
            assert forall|k: int| 0 <= k < l.drop_last().len() implies l.drop_last()[k] != '\n' by {
                assert(l.drop_last()[k] == l[k]);
            }
        }
        lemma_line_scan_free(l.drop_last());
        assert(l.drop_last().push(l.last()) == l);
    }
}

/// The lines of a text that ends where a line ends, followed by more text,
/// are the lines of the first text followed by the lines of the second.
pub proof fn law_lines_of_concatenation(a: Seq<char>, b: Seq<char>)
    requires
        ends_line(a),
    ensures
        lines_seq(a + b) == lines_seq(a) + lines_seq(b),
{
    lemma_line_scan_append(a, b);
    let (da, ca) = line_scan(a);
    let (db, cb) = line_scan(b);
    if a.len() > 0 {
        assert(ca == Seq::<char>::empty());
    }
    assert(lines_seq(a) == da);
    if cb.len() > 0 {
        assert(da + db.push(cb) == (da + db).push(cb));
    }
}

/// A newline-terminated text without other newlines is one line, without
/// the newline and without one carriage return just before it.
pub proof fn law_lines_of_terminated_line(l: Seq<char>)
    requires
        free_of(l, '\n'),
    ensures
        lines_seq(l.push('\n')) == seq![
            if l.len() > 0 && l.last() == '\r' {
                l.drop_last()
            } else {
                l
            },
        ],
{
    lemma_line_scan_free(l);
    assert(l.push('\n').drop_last() == l);
}

/// A non-empty text without newlines is one line, kept whole.
pub proof fn law_lines_of_unterminated_line(l: Seq<char>)
    requires
        free_of(l, '\n'),
        l.len() > 0,
    ensures
        lines_seq(l) == seq![l],
{
    lemma_line_scan_free(l);
}

/// The empty text has no lines.
pub proof fn law_lines_of_empty()
    ensures
        lines_seq(Seq::<char>::empty()).len() == 0,
{
}

proof fn lemma_trim_start_shape(s: Seq<char>) -> (a: int)
    ensures
        0 <= a <= s.len(),
        trim_start_seq(s) == s.skip(a),
        forall|k: int| 0 <= k < a ==> is_white_space(s[k]),
        a < s.len() ==> !is_white_space(s[a]),
    decreases s.len(),
{
    if s.len() > 0 && is_white_space(s[0]) {
        let a0 = lemma_trim_start_shape(s.drop_first());
        assert(s.drop_first().skip(a0) == s.skip(a0 + 1));
        assert forall|k: int| 0 <= k < a0 + 1 implies is_white_space(s[k]) by {
            if k > 0 {
                assert(s[k] == s.drop_first()[k - 1]);
            }
        }
        if a0 + 1 < s.len() {
            assert(s[a0 + 1] == s.drop_first()[a0]);
        }
        a0 + 1
    } else {
        assert(s.skip(0) == s);
        0
    }
}

proof fn lemma_trim_end_shape(s: Seq<char>) -> (b: int)
    ensures
        0 <= b <= s.len(),
        trim_end_seq(s) == s.take(b),
        forall|k: int| b <= k < s.len() ==> is_white_space(s[k]),
        b > 0 ==> !is_white_space(s[b - 1]),
    decreases s.len(),
{
    if s.len() > 0 && is_white_space(s.last()) {
        let b0 = lemma_trim_end_shape(s.drop_last());
        assert(s.drop_last().take(b0) == s.take(b0));
        assert forall|k: int| b0 <= k < s.len() implies is_white_space(s[k]) by {
            if k < s.len() - 1 {
                assert(s[k] == s.drop_last()[k]);
            }
        }
        if b0 > 0 {
            assert(s[b0 - 1] == s.drop_last()[b0 - 1]);
        }
        b0
    } else {
        assert(s.take(s.len() as int) == s);
        s.len() as int
    }
}

/// Trimming removes exactly the white space at both ends: the result is a
/// stretch of the text, everything before and after it is white space, and
/// a non-empty result neither starts nor ends with white space.
pub proof fn law_trim_removes_only_outer_white_space(s: Seq<char>)
    ensures
        exists|a: int, b: int|
            {
                &&& 0 <= a <= b <= s.len()
                &&& trim_seq(s) == s.subrange(a, b)
                &&& forall|k: int| 0 <= k < a ==> is_white_space(#[trigger] s[k])
                &&& forall|k: int| b <= k < s.len() ==> is_white_space(#[trigger] s[k])
            },
        trim_seq(s).len() > 0 ==> !is_white_space(trim_seq(s)[0]) && !is_white_space(
            trim_seq(s).last(),
        ),
{
    let a = lemma_trim_start_shape(s);
    let t = s.skip(a);
    let b = lemma_trim_end_shape(t);
    assert(t.take(b) == s.subrange(a, a + b));
    assert forall|k: int| a + b <= k < s.len() implies is_white_space(#[trigger] s[k]) by {
        assert(s[k] == t[k - a]);
    }
    if b > 0 {
        assert(trim_seq(s)[0] == s[a]);
        assert(trim_seq(s).last() == t[b - 1]);
    }
    assert(0 <= a <= a + b <= s.len());
}

/// Each element is free of newlines and does not end with a carriage return.
pub open spec fn plain_lines(ls: Seq<Seq<char>>) -> bool {
    forall|i: int|
        0 <= i < ls.len() ==> free_of(#[trigger] ls[i], '\n') && (ls[i].len() == 0 || ls[i].last()
            != '\r')
}

proof fn lemma_lines_of_joined_terminated(ls: Seq<Seq<char>>)
    requires
        ls.len() > 0,
        plain_lines(ls),
    ensures
        lines_seq(join_seq(ls, seq!['\n']).push('\n')) == ls,
    decreases ls.len(),
{
    let last = ls.last();
    assert(free_of(ls[ls.len() - 1], '\n'));
    law_lines_of_terminated_line(last);
    if ls.len() == 1 {
        assert(join_seq(ls, seq!['\n']) == ls[0]);
        assert(ls == seq![last]);
    } else {
        let init = ls.drop_last();
        assert(plain_lines(init)) by {
            assert forall|i: int| 0 <= i < init.len() implies free_of(#[trigger] init[i], '\n') && (
            init[i].len() == 0 || init[i].last() != '\r') by {
                assert(init[i] == ls[i]);
            }
        }
        lemma_lines_of_joined_terminated(init);
        let a = join_seq(init, seq!['\n']).push('\n');
        assert(join_seq(ls, seq!['\n']).push('\n') == a + last.push('\n'));
        law_lines_of_concatenation(a, last.push('\n'));
        assert(init + seq![last] == ls);
    }
}

/// Joining lines with newlines and splitting the result into lines gives
/// the lines back, when none holds a newline, none ends with a carriage
/// return, and the last is not empty.
pub proof fn law_lines_undo_join(ls: Seq<Seq<char>>)
    requires
        ls.len() > 0,
        plain_lines(ls),
        ls.last().len() > 0,
    ensures
        lines_seq(join_seq(ls, "\n"@)) == ls,
{
    reveal_strlit("\n");
    assert("\n"@ == seq!['\n']);
    let last = ls.last();
    assert(free_of(ls[ls.len() - 1], '\n'));
    law_lines_of_unterminated_line(last);
    if ls.len() == 1 {
        assert(ls == seq![last]);
    } else {
        let init = ls.drop_last();
        assert(plain_lines(init)) by {
            assert forall|i: int| 0 <= i < init.len() implies free_of(#[trigger] init[i], '\n') && (
            init[i].len() == 0 || init[i].last() != '\r') by {
                assert(init[i] == ls[i]);
            }
        }
        lemma_lines_of_joined_terminated(init);
        let a = join_seq(init, seq!['\n']).push('\n');
        assert(join_seq(ls, seq!['\n']) == a + last);
        law_lines_of_concatenation(a, last);
        assert(init + seq![last] == ls);
    }
}

} // verus!
