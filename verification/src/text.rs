//! Character-level text utilities: whitespace, trimming, prefixes, line splitting.
//!
//! Text is handled as sequences of `char`; the executable functions work on
//! `Vec<char>` and slices and are specified over `Seq<char>`.
use vstd::prelude::*;

verus! {

/// The Unicode `White_Space` property, which `char::is_whitespace` tests.
pub open spec fn spec_is_whitespace(c: char) -> bool {
    let u = c as u32;
    ||| 0x09 <= u <= 0x0D
    ||| u == 0x20
    ||| u == 0x85
    ||| u == 0xA0
    ||| u == 0x1680
    ||| 0x2000 <= u <= 0x200A
    ||| u == 0x2028
    ||| u == 0x2029
    ||| u == 0x202F
    ||| u == 0x205F
    ||| u == 0x3000
}

/// Whether `c` has the Unicode `White_Space` property.
pub fn is_whitespace(c: char) -> (r: bool)
    ensures
        r == spec_is_whitespace(c),
{
    let u = c as u32;
    (0x09 <= u && u <= 0x0D) || u == 0x20 || u == 0x85 || u == 0xA0 || u == 0x1680 || (0x2000
        <= u && u <= 0x200A) || u == 0x2028 || u == 0x2029 || u == 0x202F || u == 0x205F || u
        == 0x3000
}

/// Number of whitespace characters at the start of `s`.
pub open spec fn leading_ws(s: Seq<char>) -> nat
    decreases s.len(),
{
    if s.len() == 0 || !spec_is_whitespace(s[0]) {
        0
    } else {
        1 + leading_ws(s.drop_first())
    }
}

/// Number of whitespace characters at the end of `s`.
pub open spec fn trailing_ws(s: Seq<char>) -> nat
    decreases s.len(),
{
    if s.len() == 0 || !spec_is_whitespace(s.last()) {
        0
    } else {
        1 + trailing_ws(s.drop_last())
    }
}

/// `s` without its leading whitespace (`str::trim_start`).
pub open spec fn trim_start(s: Seq<char>) -> Seq<char> {
    s.skip(leading_ws(s) as int)
}

/// `s` without its trailing whitespace (`str::trim_end`).
pub open spec fn trim_end(s: Seq<char>) -> Seq<char> {
    s.take(s.len() - trailing_ws(s))
}

/// `s` without leading and trailing whitespace (`str::trim`).
pub open spec fn trim(s: Seq<char>) -> Seq<char> {
    trim_end(trim_start(s))
}

/// Every character of `s` is whitespace.
pub open spec fn is_blank(s: Seq<char>) -> bool {
    forall|i: int| 0 <= i < s.len() ==> spec_is_whitespace(#[trigger] s[i])
}

/// `p` is a prefix of `s` (`str::starts_with`).
pub open spec fn has_prefix(s: Seq<char>, p: Seq<char>) -> bool {
    p.len() <= s.len() && s.take(p.len() as int) == p
}

/// `p` occurs in `s` at position `i`.
pub open spec fn occurs_at(s: Seq<char>, p: Seq<char>, i: int) -> bool {
    0 <= i && i + p.len() <= s.len() && s.subrange(i, i + p.len()) == p
}

/// `p` occurs somewhere in `s` (`str::contains`).
pub open spec fn has_infix(s: Seq<char>, p: Seq<char>) -> bool {
    exists|i: int| occurs_at(s, p, i)
}

/// The character sequences of a vector of lines.
pub open spec fn views(ls: Seq<Vec<char>>) -> Seq<Seq<char>> {
    ls.map_values(|l: Vec<char>| l@)
}

/// A line without its carriage return, if it ends with one.
pub open spec fn strip_cr(l: Seq<char>) -> Seq<char> {
    if l.len() > 0 && l.last() == '\r' {
        l.drop_last()
    } else {
        l
    }
}

/// The finished lines and the open line after reading the first `k` characters of `s`.
pub open spec fn line_scan(s: Seq<char>, k: nat) -> (Seq<Seq<char>>, Seq<char>)
    recommends
        k <= s.len(),
    decreases k,
{
    if k == 0 {
        (seq![], seq![])
    } else {
        let (done, open) = line_scan(s, (k - 1) as nat);
        if s[k - 1] == '\n' {
            (done.push(strip_cr(open)), seq![])
        } else {
            (done, open.push(s[k - 1]))
        }
    }
}

/// The lines of `s` as `str::lines` yields them: split at `\n`, a `\r` before the
/// `\n` removed, and no empty line after a final line ending.
pub open spec fn spec_lines(s: Seq<char>) -> Seq<Seq<char>> {
    let (done, open) = line_scan(s, s.len());
    if open.len() > 0 {
        done.push(open)
    } else {
        done
    }
}

/// Each line followed by a newline, concatenated.
pub open spec fn terminated(ls: Seq<Seq<char>>) -> Seq<char>
    decreases ls.len(),
{
    if ls.len() == 0 {
        seq![]
    } else {
        terminated(ls.drop_last()) + ls.last() + seq!['\n']
    }
}

/// The lines joined with `\n` between them.
pub open spec fn joined(ls: Seq<Seq<char>>) -> Seq<char> {
    if ls.len() == 0 {
        seq![]
    } else {
        terminated(ls.drop_last()) + ls.last()
    }
}

/// `s` with every trailing `\n` removed (`str::trim_end_matches('\n')`).
pub open spec fn trim_newlines(s: Seq<char>) -> Seq<char>
    decreases s.len(),
{
    if s.len() > 0 && s.last() == '\n' {
        trim_newlines(s.drop_last())
    } else {
        s
    }
}

/// The last character of `s` is a newline.
pub open spec fn ends_with_newline(s: Seq<char>) -> bool {
    s.len() > 0 && s.last() == '\n'
}

pub proof fn lemma_leading_ws_bound(s: Seq<char>)
    ensures
        leading_ws(s) <= s.len(),
        forall|i: int| 0 <= i < leading_ws(s) ==> spec_is_whitespace(#[trigger] s[i]),
        leading_ws(s) < s.len() ==> !spec_is_whitespace(s[leading_ws(s) as int]),
    decreases s.len(),
{
    if s.len() > 0 && spec_is_whitespace(s[0]) {
        lemma_leading_ws_bound(s.drop_first());
        assert forall|i: int| 0 <= i < leading_ws(s) implies spec_is_whitespace(#[trigger] s[i]) by {
            if i > 0 {
                assert(s[i] == s.drop_first()[i - 1]);
            }
        }
    }
}

pub proof fn lemma_trailing_ws_bound(s: Seq<char>)
    ensures
        trailing_ws(s) <= s.len(),
        forall|i: int|
            s.len() - trailing_ws(s) <= i < s.len() ==> spec_is_whitespace(#[trigger] s[i]),
        trailing_ws(s) < s.len() ==> !spec_is_whitespace(s[s.len() - trailing_ws(s) - 1]),
    decreases s.len(),
{
    if s.len() > 0 && spec_is_whitespace(s.last()) {
        lemma_trailing_ws_bound(s.drop_last());
        assert forall|i: int|
            s.len() - trailing_ws(s) <= i < s.len() implies spec_is_whitespace(#[trigger] s[i]) by {
            if i < s.len() - 1 {
                assert(s[i] == s.drop_last()[i]);
            }
        }
    }
}

/// `leading_ws` is the length of the longest whitespace prefix.
pub proof fn lemma_leading_ws_char(s: Seq<char>, k: int)
    requires
        0 <= k <= s.len(),
        forall|i: int| 0 <= i < k ==> spec_is_whitespace(#[trigger] s[i]),
        k == s.len() || !spec_is_whitespace(s[k]),
    ensures
        leading_ws(s) == k,
    decreases s.len(),
{
    if k > 0 {
        assert forall|i: int| 0 <= i < k - 1 implies spec_is_whitespace(
            #[trigger] s.drop_first()[i],
        ) by {
            assert(s.drop_first()[i] == s[i + 1]);
        }
        if k - 1 < s.drop_first().len() {
            assert(s.drop_first()[k - 1] == s[k]);
        }
        lemma_leading_ws_char(s.drop_first(), k - 1);
    }
}

/// `trailing_ws` is the length of the longest whitespace suffix.
pub proof fn lemma_trailing_ws_char(s: Seq<char>, k: int)
    requires
        0 <= k <= s.len(),
        forall|i: int| s.len() - k <= i < s.len() ==> spec_is_whitespace(#[trigger] s[i]),
        k == s.len() || !spec_is_whitespace(s[s.len() - k - 1]),
    ensures
        trailing_ws(s) == k,
    decreases s.len(),
{
    if k > 0 {
        let t = s.drop_last();
        assert forall|i: int| t.len() - (k - 1) <= i < t.len() implies spec_is_whitespace(
            #[trigger] t[i],
        ) by {
            assert(t[i] == s[i]);
        }
        if k - 1 < t.len() {
            assert(t[t.len() - (k - 1) - 1] == s[s.len() - k - 1]);
        }
        lemma_trailing_ws_char(t, k - 1);
    }
}

/// Index of the first non-whitespace character of `s` (its length if there is none).
pub fn leading_ws_len(s: &[char]) -> (n: usize)
    ensures
        n == leading_ws(s@),
{
    let mut i: usize = 0;
    while i < s.len() && is_whitespace(s[i])
        invariant
            i <= s@.len(),
            forall|j: int| 0 <= j < i ==> spec_is_whitespace(#[trigger] s@[j]),
        decreases s.len() - i,
    {
        i = i + 1;
    }
    proof {
        lemma_leading_ws_char(s@, i as int);
    }
    i
}

/// Number of whitespace characters at the end of `s`.
pub fn trailing_ws_len(s: &[char]) -> (n: usize)
    ensures
        n == trailing_ws(s@),
{
    let mut k: usize = 0;
    while k < s.len() && is_whitespace(s[s.len() - 1 - k])
        invariant
            k <= s@.len(),
            forall|j: int| s@.len() - k <= j < s@.len() ==> spec_is_whitespace(#[trigger] s@[j]),
        decreases s.len() - k,
    {
        k = k + 1;
    }
    proof {
        lemma_trailing_ws_char(s@, k as int);
    }
    k
}

/// A copy of `s[from..to]`.
pub fn slice_chars(s: &[char], from: usize, to: usize) -> (r: Vec<char>)
    requires
        from <= to <= s@.len(),
    ensures
        r@ == s@.subrange(from as int, to as int),
{
    let mut r: Vec<char> = Vec::new();
    let mut i = from;
    while i < to
        invariant
            from <= i <= to,
            to <= s@.len(),
            r@ == s@.subrange(from as int, i as int),
        decreases to - i,
    {
        r.push(s[i]);
        i = i + 1;
        assert(r@ =~= s@.subrange(from as int, i as int));
    }
    r
}

/// Appends all of `s` to `out`.
pub fn push_all(out: &mut Vec<char>, s: &[char])
    ensures
        final(out)@ == old(out)@ + s@,
{
    let ghost start = out@;
    let mut i: usize = 0;
    while i < s.len()
        invariant
            i <= s@.len(),
            out@ == start + s@.take(i as int),
        decreases s.len() - i,
    {
        out.push(s[i]);
        i = i + 1;
        assert(out@ =~= start + s@.take(i as int));
    }
    assert(s@.take(s@.len() as int) =~= s@);
}

/// `s` without leading whitespace.
pub fn trimmed_start(s: &[char]) -> (r: Vec<char>)
    ensures
        r@ == trim_start(s@),
{
    let n = leading_ws_len(s);
    proof {
        lemma_leading_ws_bound(s@);
    }
    slice_chars(s, n, s.len())
}

/// `s` without trailing whitespace.
pub fn trimmed_end(s: &[char]) -> (r: Vec<char>)
    ensures
        r@ == trim_end(s@),
{
    let n = trailing_ws_len(s);
    proof {
        lemma_trailing_ws_bound(s@);
    }
    slice_chars(s, 0, s.len() - n)
}

/// `s` without leading and trailing whitespace.
pub fn trimmed(s: &[char]) -> (r: Vec<char>)
    ensures
        r@ == trim(s@),
{
    let a = trimmed_start(s);
    trimmed_end(a.as_slice())
}

/// Whether every character of `s` is whitespace.
pub fn blank(s: &[char]) -> (r: bool)
    ensures
        r == is_blank(s@),
{
    let mut i: usize = 0;
    while i < s.len()
        invariant
            i <= s@.len(),
            forall|j: int| 0 <= j < i ==> spec_is_whitespace(#[trigger] s@[j]),
        decreases s.len() - i,
    {
        if !is_whitespace(s[i]) {
            return false;
        }
        i = i + 1;
    }
    true
}

/// Whether `p` occurs in `s` at position `at`.
pub fn matches_at(s: &[char], p: &[char], at: usize) -> (r: bool)
    ensures
        r == occurs_at(s@, p@, at as int),
{
    if p.len() > s.len() || at > s.len() - p.len() {
        return false;
    }
    let slen = s.len();
    let mut i: usize = 0;
    while i < p.len()
        invariant
            i <= p@.len(),
            slen == s@.len(),
            at + p@.len() <= s@.len(),
            forall|j: int| 0 <= j < i ==> s@[at + j] == p@[j],
        decreases p.len() - i,
    {
        assert(at + i < s@.len());
        if s[at + i] != p[i] {
            assert(s@.subrange(at as int, at + p@.len())[i as int] != p@[i as int]);
            return false;
        }
        i = i + 1;
    }
    assert(s@.subrange(at as int, at + p@.len()) =~= p@);
    true
}

/// Whether `s` starts with `p`.
pub fn starts_with(s: &[char], p: &[char]) -> (r: bool)
    ensures
        r == has_prefix(s@, p@),
{
    let r = matches_at(s, p, 0);
    proof {
        if p@.len() <= s@.len() {
            assert(s@.take(p@.len() as int) =~= s@.subrange(0, p@.len() as int));
        }
    }
    r
}

/// Whether `p` occurs anywhere in `s`.
pub fn contains(s: &[char], p: &[char]) -> (r: bool)
    ensures
        r == has_infix(s@, p@),
{
    if p.len() > s.len() {
        return false;
    }
    let mut i: usize = 0;
    while i <= s.len() - p.len()
        invariant
            p@.len() <= s@.len(),
            i <= s@.len() - p@.len() + 1,
            forall|j: int| 0 <= j < i ==> !occurs_at(s@, p@, j),
        decreases s.len() - p.len() + 1 - i,
    {
        if matches_at(s, p, i) {
            return true;
        }
        if i == s.len() - p.len() {
            return false;
        }
        i = i + 1;
    }
    false
}

/// Whether `a` and `b` hold the same characters.
pub fn same_chars(a: &[char], b: &[char]) -> (r: bool)
    ensures
        r == (a@ == b@),
{
    if a.len() != b.len() {
        return false;
    }
    let mut i: usize = 0;
    while i < a.len()
        invariant
            i <= a@.len(),
            a@.len() == b@.len(),
            forall|j: int| 0 <= j < i ==> a@[j] == b@[j],
        decreases a.len() - i,
    {
        if a[i] != b[i] {
            return false;
        }
        i = i + 1;
    }
    assert(a@ =~= b@);
    true
}

pub proof fn lemma_line_scan_step(s: Seq<char>, k: nat)
    requires
        k < s.len(),
    ensures
        line_scan(s, k + 1) == (if s[k as int] == '\n' {
            (line_scan(s, k).0.push(strip_cr(line_scan(s, k).1)), Seq::<char>::empty())
        } else {
            (line_scan(s, k).0, line_scan(s, k).1.push(s[k as int]))
        }),
{
}

/// Splits `s` into lines as `str::lines` does.
pub fn split_lines(s: &[char]) -> (r: Vec<Vec<char>>)
    ensures
        views(r@) == spec_lines(s@),
{
    let mut done: Vec<Vec<char>> = Vec::new();
    let mut open: Vec<char> = Vec::new();
    let mut k: usize = 0;
    while k < s.len()
        invariant
            k <= s@.len(),
            views(done@) == line_scan(s@, k as nat).0,
            open@ == line_scan(s@, k as nat).1,
        decreases s.len() - k,
    {
        proof {
            lemma_line_scan_step(s@, k as nat);
        }
        if s[k] == '\n' {
            let n = open.len();
            if n > 0 && open[n - 1] == '\r' {
                open.pop();
            }
            let line = open;
            open = Vec::new();
            let ghost before = done@;
            done.push(line);
            assert(views(done@) =~= views(before).push(line@));
        } else {
            open.push(s[k]);
        }
        k = k + 1;
    }
    if open.len() > 0 {
        let ghost before = done@;
        done.push(open);
        assert(views(done@) =~= views(before).push(open@));
    }
    done
}

/// The characters of a string slice.
pub fn chars_of(s: &str) -> (r: Vec<char>)
    ensures
        r@ == s@,
{
    let mut r: Vec<char> = Vec::new();
    for c in it: s.chars()
        invariant
            r@ == it.seq().take(it.index() as int),
    {
        r.push(c);
    }
    r
}

pub proof fn lemma_terminated_joined(ls: Seq<Seq<char>>)
    requires
        ls.len() > 0,
    ensures
        terminated(ls) == joined(ls) + seq!['\n'],
{
}

pub proof fn lemma_joined_push(ls: Seq<Seq<char>>, l: Seq<char>)
    ensures
        joined(ls.push(l)) == terminated(ls) + l,
{
    assert(ls.push(l).drop_last() =~= ls);
}

/// The lines joined with `\n` between them.
pub fn join_lines(ls: &Vec<Vec<char>>) -> (r: Vec<char>)
    ensures
        r@ == joined(views(ls@)),
{
    let mut out: Vec<char> = Vec::new();
    let mut j: usize = 0;
    while j < ls.len()
        invariant
            j <= ls@.len(),
            j > 0 ==> out@ == joined(views(ls@.take(j as int))),
            j == 0 ==> out@.len() == 0,
        decreases ls.len() - j,
    {
        let ghost before = out@;
        proof {
            assert(views(ls@.take(j + 1)) =~= views(ls@.take(j as int)).push(ls@[j as int]@));
            lemma_joined_push(views(ls@.take(j as int)), ls@[j as int]@);
            if j > 0 {
                lemma_terminated_joined(views(ls@.take(j as int)));
            }
        }
        if j > 0 {
            out.push('\n');
        }
        push_all(&mut out, ls[j].as_slice());
        j = j + 1;
        assert(out@ =~= joined(views(ls@.take(j as int))));
    }
    assert(ls@.take(j as int) =~= ls@);
    if j == 0 {
        assert(views(ls@) =~= Seq::<Seq<char>>::empty());
        assert(out@ =~= joined(views(ls@)));
    }
    out
}

/// Each line followed by `\n`, concatenated.
pub fn terminate_lines(ls: &Vec<Vec<char>>) -> (r: Vec<char>)
    ensures
        r@ == terminated(views(ls@)),
{
    let mut out: Vec<char> = Vec::new();
    let mut j: usize = 0;
    assert(views(ls@.take(0)) =~= Seq::<Seq<char>>::empty());
    while j < ls.len()
        invariant
            j <= ls@.len(),
            out@ == terminated(views(ls@.take(j as int))),
        decreases ls.len() - j,
    {
        proof {
            assert(views(ls@.take(j + 1)) =~= views(ls@.take(j as int)).push(ls@[j as int]@));
            assert(views(ls@.take(j + 1)).drop_last() =~= views(ls@.take(j as int)));
        }
        push_all(&mut out, ls[j].as_slice());
        out.push('\n');
        j = j + 1;
    }
    assert(ls@.take(j as int) =~= ls@);
    out
}

/// `s` with every trailing newline removed.
pub fn strip_trailing_newlines(s: Vec<char>) -> (r: Vec<char>)
    ensures
        r@ == trim_newlines(s@),
    decreases s@.len(),
{
    let mut s = s;
    let n = s.len();
    if n > 0 && s[n - 1] == '\n' {
        let ghost before = s@;
        s.pop();
        assert(s@ =~= before.drop_last());
        strip_trailing_newlines(s)
    } else {
        s
    }
}

/// `s` has no carriage return.
pub open spec fn no_cr(s: Seq<char>) -> bool {
    forall|i: int| 0 <= i < s.len() ==> s[i] != '\r'
}

/// `s` has no newline.
pub open spec fn no_newline(s: Seq<char>) -> bool {
    forall|i: int| 0 <= i < s.len() ==> s[i] != '\n'
}

/// Scanning depends only on the characters scanned.
pub proof fn lemma_line_scan_prefix(s: Seq<char>, t: Seq<char>, k: nat)
    requires
        k <= s.len(),
        k <= t.len(),
        s.take(k as int) == t.take(k as int),
    ensures
        line_scan(s, k) == line_scan(t, k),
    decreases k,
{
    if k > 0 {
        assert(s.take(k - 1) =~= s.take(k as int).take(k - 1));
        assert(t.take(k - 1) =~= t.take(k as int).take(k - 1));
        assert(s[k - 1] == s.take(k as int)[k - 1]);
        assert(t[k - 1] == t.take(k as int)[k - 1]);
        lemma_line_scan_prefix(s, t, (k - 1) as nat);
    }
}

/// Scanning characters other than newlines extends the open line.
pub proof fn lemma_line_scan_run(s: Seq<char>, k: nat, m: nat)
    requires
        k + m <= s.len(),
        no_newline(s.subrange(k as int, (k + m) as int)),
    ensures
        line_scan(s, k + m) == (line_scan(s, k).0, line_scan(s, k).1 + s.subrange(
            k as int,
            (k + m) as int,
        )),
    decreases m,
{
    if m == 0 {
        assert(line_scan(s, k).1 + s.subrange(k as int, k as int) =~= line_scan(s, k).1);
    } else {
        assert(no_newline(s.subrange(k as int, k + m - 1))) by {
            assert forall|i: int| 0 <= i < m - 1 implies #[trigger] s.subrange(k as int, k + m - 1)[i]
                != '\n' by {
                assert(s.subrange(k as int, k + m - 1)[i] == s.subrange(k as int, (k + m) as int)[i]);
            }
        }
        lemma_line_scan_run(s, k, (m - 1) as nat);
        assert(s[k + m - 1] == s.subrange(k as int, (k + m) as int)[m - 1]);
        assert(line_scan(s, k).1 + s.subrange(k as int, k + m - 1) + seq![s[k + m - 1]]
            =~= line_scan(s, k).1 + s.subrange(k as int, (k + m) as int));
    }
}

/// Scanning each line followed by a newline gives back the lines.
pub proof fn lemma_scan_terminated(ls: Seq<Seq<char>>)
    requires
        forall|j: int| 0 <= j < ls.len() ==> no_newline(#[trigger] ls[j]) && no_cr(ls[j]),
    ensures
        line_scan(terminated(ls), terminated(ls).len()) == (ls, Seq::<char>::empty()),
    decreases ls.len(),
{
    if ls.len() > 0 {
        let prev = ls.drop_last();
        let l = ls.last();
        assert forall|j: int| 0 <= j < prev.len() implies no_newline(#[trigger] prev[j]) && no_cr(
            prev[j],
        ) by {
            assert(prev[j] == ls[j]);
        }
        lemma_scan_terminated(prev);
        let t0 = terminated(prev);
        let t = terminated(ls);
        assert(t == t0 + l + seq!['\n']);
        assert(t.take(t0.len() as int) =~= t0.take(t0.len() as int));
        lemma_line_scan_prefix(t, t0, t0.len());
        assert(t0.take(t0.len() as int) =~= t0);
        assert(t.subrange(t0.len() as int, (t0.len() + l.len()) as int) =~= l);
        lemma_line_scan_run(t, t0.len(), l.len());
        lemma_line_scan_step(t, t0.len() + l.len());
        assert(t[(t0.len() + l.len()) as int] == '\n');
        assert(Seq::<char>::empty() + l =~= l);
        if l.len() > 0 {
            assert(l.last() != '\r');
        }
        assert(prev.push(l) =~= ls);
    }
}

/// The lines of the joined lines are the lines, when none holds a line break (and, for
/// the joined form, the last one is not empty).
pub proof fn lemma_lines_of_joined(ls: Seq<Seq<char>>)
    requires
        forall|j: int| 0 <= j < ls.len() ==> no_newline(#[trigger] ls[j]) && no_cr(ls[j]),
    ensures
        (ls.len() == 0 || ls.last().len() > 0) ==> spec_lines(joined(ls)) == ls,
        ls.len() > 0 ==> spec_lines(terminated(ls)) == ls,
{
    if ls.len() > 0 {
        let prev = ls.drop_last();
        let l = ls.last();
        assert forall|j: int| 0 <= j < prev.len() implies no_newline(#[trigger] prev[j]) && no_cr(
            prev[j],
        ) by {
            assert(prev[j] == ls[j]);
        }
        lemma_scan_terminated(prev);
        lemma_scan_terminated(ls);
        let t0 = terminated(prev);
        let jn = joined(ls);
        assert(jn == t0 + l);
        assert(jn.take(t0.len() as int) =~= t0.take(t0.len() as int));
        lemma_line_scan_prefix(jn, t0, t0.len());
        assert(t0.take(t0.len() as int) =~= t0);
        assert(jn.subrange(t0.len() as int, (t0.len() + l.len()) as int) =~= l);
        lemma_line_scan_run(jn, t0.len(), l.len());
        assert(Seq::<char>::empty() + l =~= l);
        assert(prev.push(l) =~= ls);
    } else {
        assert(joined(ls) =~= Seq::<char>::empty());
        assert(line_scan(Seq::<char>::empty(), 0) == (Seq::<Seq<char>>::empty(), Seq::<char>::empty()));
        assert(spec_lines(joined(ls)) =~= ls);
    }
}

/// The text is its lines joined, plus its final newline.
pub proof fn lemma_joined_lines(s: Seq<char>)
    requires
        no_cr(s),
    ensures
        s == joined(spec_lines(s)) + (if ends_with_newline(s) {
            seq!['\n']
        } else {
            Seq::<char>::empty()
        }),
        forall|j: int|
            0 <= j < spec_lines(s).len() ==> no_newline(#[trigger] spec_lines(s)[j]) && no_cr(
                spec_lines(s)[j],
            ),
        spec_lines(s).len() > 0 ==> spec_lines(s).last().len() > 0 || ends_with_newline(s),
        ends_with_newline(s) ==> spec_lines(s).len() > 0,
{
    lemma_scan_shape(s, s.len());
    let (done, open) = line_scan(s, s.len());
    assert(s.take(s.len() as int) =~= s);
    if open.len() > 0 {
        lemma_joined_push(done, open);
        assert(done.push(open).drop_last() =~= done);
        assert(s.last() == open.last());
        assert forall|j: int| 0 <= j < done.push(open).len() implies no_newline(
            #[trigger] done.push(open)[j],
        ) && no_cr(done.push(open)[j]) by {
            if j < done.len() {
                assert(done.push(open)[j] == done[j]);
            }
        }
        assert(s =~= joined(spec_lines(s)) + Seq::<char>::empty());
    } else if done.len() > 0 {
        lemma_terminated_joined(done);
        assert(s == terminated(done) + open);
        assert(s =~= terminated(done));
        assert(s.last() == '\n');
    } else {
        assert(s =~= Seq::<char>::empty());
        assert(joined(done) =~= Seq::<char>::empty());
    }
}

/// While scanning, the text read so far is the finished lines, each with its newline, then
/// the open line.
pub proof fn lemma_scan_shape(s: Seq<char>, k: nat)
    requires
        k <= s.len(),
        no_cr(s),
    ensures
        s.take(k as int) == terminated(line_scan(s, k).0) + line_scan(s, k).1,
        no_newline(line_scan(s, k).1),
        no_cr(line_scan(s, k).1),
        forall|j: int|
            0 <= j < line_scan(s, k).0.len() ==> no_newline(#[trigger] line_scan(s, k).0[j])
                && no_cr(line_scan(s, k).0[j]),
    decreases k,
{
    if k == 0 {
        assert(s.take(0) =~= Seq::<char>::empty());
        assert(terminated(Seq::<Seq<char>>::empty()) + Seq::<char>::empty() =~= Seq::<
            char,
        >::empty());
    } else {
        lemma_scan_shape(s, (k - 1) as nat);
        let (done, open) = line_scan(s, (k - 1) as nat);
        let c = s[k - 1];
        assert(s.take(k as int) =~= s.take(k - 1) + seq![c]);
        if c == '\n' {
            if open.len() > 0 {
                assert(open.last() != '\r');
            }
            assert(strip_cr(open) == open);
            assert(done.push(open).drop_last() =~= done);
            assert(terminated(done.push(open)) + Seq::<char>::empty() =~= terminated(done) + open
                + seq!['\n']);
            assert forall|j: int| 0 <= j < done.push(open).len() implies no_newline(
                #[trigger] done.push(open)[j],
            ) && no_cr(done.push(open)[j]) by {
                if j < done.len() {
                    assert(done.push(open)[j] == done[j]);
                }
            }
        } else {
            assert(terminated(done) + open.push(c) =~= terminated(done) + open + seq![c]);
            assert(no_newline(open.push(c))) by {
                assert forall|i: int| 0 <= i < open.push(c).len() implies open.push(c)[i]
                    != '\n' by {
                    if i < open.len() {
                        assert(open.push(c)[i] == open[i]);
                    }
                }
            }
            assert(no_cr(open.push(c))) by {
                assert forall|i: int| 0 <= i < open.push(c).len() implies open.push(c)[i]
                    != '\r' by {
                    if i < open.len() {
                        assert(open.push(c)[i] == open[i]);
                    }
                }
            }
        }
    }
}

/// The string made of the given characters.
///
/// Trusted: collects the characters with `std`'s `FromIterator<char>` for `String`,
/// whose result holds exactly those characters in order.
#[verifier::external_body]
pub(crate) fn string_of(s: &[char]) -> (r: String)
    ensures
        r@ == s@,
{
    s.iter().collect()
}

} // verus!
