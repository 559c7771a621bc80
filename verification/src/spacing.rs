//! Line spacing of the rendered text and whitespace-insensitive comparison.
use vstd::prelude::*;

use crate::text::{
    chars_of, contains, ends_with_newline, joined, lemma_joined_lines, lemma_lines_of_joined,
    line_scan, no_cr, no_newline, terminated, has_infix, has_prefix, is_whitespace, push_all,
    same_chars, spec_is_whitespace, spec_lines, split_lines, starts_with, string_of,
    strip_trailing_newlines, trim, trim_newlines, trimmed, views,
};

verus! {

/// A line, not indented, that starts a function (`fn ...` or `pub... fn ...`).
pub open spec fn is_top_level_fn(line: Seq<char>) -> bool {
    let t = trim(line);
    !(line.len() > 0 && (line[0] == ' ' || line[0] == '\t')) && (has_prefix(t, "fn "@) || (
    has_prefix(t, "pub"@) && has_infix(t, " fn "@)))
}

/// The text ends with an empty line.
pub open spec fn ends_with_blank_line(s: Seq<char>) -> bool {
    s.len() >= 2 && s[s.len() - 1] == '\n' && s[s.len() - 2] == '\n'
}

/// Output and last non-blank trimmed line after the first `k` lines.
pub open spec fn spacing_scan(ls: Seq<Seq<char>>, k: nat) -> (Seq<char>, Option<Seq<char>>)
    decreases k,
{
    if k == 0 {
        (seq![], None)
    } else {
        let (out, prev) = spacing_scan(ls, (k - 1) as nat);
        let line = ls[k - 1];
        let t = trim(line);
        let gap = is_top_level_fn(line) && prev == Some("}"@) && !ends_with_blank_line(out);
        let out1 = if gap {
            out.push('\n')
        } else {
            out
        };
        (out1 + line + seq!['\n'], if t.len() > 0 {
            Some(t)
        } else {
            prev
        })
    }
}

/// A blank line is inserted before a top-level function that directly follows a
/// closing brace; the final line ending is kept only if the text had one.
pub open spec fn spec_function_spacing(rendered: Seq<char>) -> Seq<char> {
    let ls = spec_lines(rendered);
    let out = spacing_scan(ls, ls.len()).0;
    if ends_with_newline(rendered) {
        out
    } else {
        trim_newlines(out)
    }
}

fn top_level_fn(line: &[char], fn_kw: &Vec<char>, pub_kw: &Vec<char>, inner_fn: &Vec<char>) -> (r:
    bool)
    requires
        fn_kw@ == "fn "@,
        pub_kw@ == "pub"@,
        inner_fn@ == " fn "@,
    ensures
        r == is_top_level_fn(line@),
{
    let t = trimmed(line);
    let indented = line.len() > 0 && (line[0] == ' ' || line[0] == '\t');
    !indented && (starts_with(t.as_slice(), fn_kw.as_slice()) || (starts_with(
        t.as_slice(),
        pub_kw.as_slice(),
    ) && contains(t.as_slice(), inner_fn.as_slice())))
}

/// Separates a top-level function from a preceding closing brace by a blank line.
pub fn normalize_function_spacing(rendered: &str) -> (r: String)
    ensures
        r@ == spec_function_spacing(rendered@),
{
    let src = chars_of(rendered);
    let lines = split_lines(src.as_slice());
    let ghost ls = views(lines@);
    let fn_kw = chars_of("fn ");
    let pub_kw = chars_of("pub");
    let inner_fn = chars_of(" fn ");
    let brace = chars_of("}");
    let mut out: Vec<char> = Vec::new();
    let mut prev: Option<Vec<char>> = None;
    let mut i: usize = 0;
    while i < lines.len()
        invariant
            ls == views(lines@),
            i <= lines@.len(),
            fn_kw@ == "fn "@,
            pub_kw@ == "pub"@,
            inner_fn@ == " fn "@,
            brace@ == "}"@,
            out@ == spacing_scan(ls, i as nat).0,
            match prev {
                Some(p) => spacing_scan(ls, i as nat).1 == Some(p@),
                None => spacing_scan(ls, i as nat).1 is None,
            },
        decreases lines.len() - i,
    {
        let line = lines[i].as_slice();
        assert(ls[i as int] == lines@[i as int]@);
        let t = trimmed(line);
        let is_fn = top_level_fn(line, &fn_kw, &pub_kw, &inner_fn);
        let after_brace = match &prev {
            Some(p) => same_chars(p.as_slice(), brace.as_slice()),
            None => false,
        };
        let n = out.len();
        let blank_before = n >= 2 && out[n - 1] == '\n' && out[n - 2] == '\n';
        if is_fn && after_brace && !blank_before {
            out.push('\n');
        }
        push_all(&mut out, line);
        out.push('\n');
        if t.len() > 0 {
            prev = Some(t);
        }
        i = i + 1;
    }
    let ends_nl = src.len() > 0 && src[src.len() - 1] == '\n';
    let out = if ends_nl {
        out
    } else {
        strip_trailing_newlines(out)
    };
    string_of(out.as_slice())
}

/// The last non-blank line of `ls`, trimmed.
pub open spec fn prev_of(ls: Seq<Seq<char>>) -> Option<Seq<char>>
    decreases ls.len(),
{
    if ls.len() == 0 {
        None
    } else if trim(ls.last()).len() > 0 {
        Some(trim(ls.last()))
    } else {
        prev_of(ls.drop_last())
    }
}

/// The lines end with an empty line that follows another line.
pub open spec fn blank_end(ls: Seq<Seq<char>>) -> bool {
    ls.len() >= 2 && ls.last().len() == 0
}

/// The spacing pass inserts an empty line before `line`, given the lines written so far.
pub open spec fn needs_gap(written: Seq<Seq<char>>, line: Seq<char>) -> bool {
    is_top_level_fn(line) && prev_of(written) == Some("}"@) && !blank_end(written)
}

/// The lines the spacing pass writes for the first `k` lines of `ls`.
pub open spec fn spaced(ls: Seq<Seq<char>>, k: nat) -> Seq<Seq<char>>
    decreases k,
{
    if k == 0 {
        seq![]
    } else {
        let m = spaced(ls, (k - 1) as nat);
        let line = ls[k - 1];
        (if needs_gap(m, line) {
            m.push(seq![])
        } else {
            m
        }).push(line)
    }
}

/// No line of `ls` would get an empty line inserted before it.
pub open spec fn settled(ls: Seq<Seq<char>>) -> bool {
    forall|j: int| 0 <= j < ls.len() ==> !needs_gap(ls.take(j), #[trigger] ls[j])
}

/// The non-empty lines of `ls`, in order.
pub open spec fn non_empty_lines(ls: Seq<Seq<char>>) -> Seq<Seq<char>>
    decreases ls.len(),
{
    if ls.len() == 0 {
        seq![]
    } else if ls.last().len() == 0 {
        non_empty_lines(ls.drop_last())
    } else {
        non_empty_lines(ls.drop_last()).push(ls.last())
    }
}

pub open spec fn lines_ok(ls: Seq<Seq<char>>) -> bool {
    forall|j: int| 0 <= j < ls.len() ==> no_newline(#[trigger] ls[j]) && no_cr(ls[j])
}

proof fn lemma_blank_end(m: Seq<Seq<char>>)
    requires
        lines_ok(m),
    ensures
        ends_with_blank_line(terminated(m)) == blank_end(m),
{
    if m.len() > 0 {
        let t = terminated(m);
        let init = m.drop_last();
        let l = m.last();
        assert(t == terminated(init) + l + seq!['\n']);
        assert(no_newline(l));
        if l.len() > 0 {
            assert(t[t.len() - 2] == l[l.len() - 1]);
        } else if init.len() > 0 {
            assert(terminated(init) == terminated(init.drop_last()) + init.last() + seq!['\n']);
            assert(t[t.len() - 2] == '\n');
        } else {
            assert(terminated(init) =~= Seq::<char>::empty());
            assert(t.len() == 1);
        }
    }
}

/// The spacing scan writes the spaced lines and remembers the last non-blank input line;
/// the spaced lines are the input lines with empty lines inserted.
proof fn lemma_spacing_scan(ls: Seq<Seq<char>>, k: nat)
    requires
        k <= ls.len(),
        lines_ok(ls),
    ensures
        spacing_scan(ls, k) == (terminated(spaced(ls, k)), prev_of(ls.take(k as int))),
        lines_ok(spaced(ls, k)),
        prev_of(spaced(ls, k)) == prev_of(ls.take(k as int)),
        non_empty_lines(spaced(ls, k)) == non_empty_lines(ls.take(k as int)),
        k > 0 ==> spaced(ls, k).last() == ls[k - 1],
        k == 0 ==> spaced(ls, k).len() == 0,
        settled(spaced(ls, k)),
    decreases k,
{
    if k == 0 {
        assert(ls.take(0) =~= Seq::<Seq<char>>::empty());
    } else {
        lemma_spacing_scan(ls, (k - 1) as nat);
        let m = spaced(ls, (k - 1) as nat);
        let line = ls[k - 1];
        let e = Seq::<char>::empty();
        lemma_blank_end(m);
        let g = needs_gap(m, line);
        let m1 = if g {
            m.push(e)
        } else {
            m
        };
        let r = m1.push(line);
        assert(ls.take(k as int).drop_last() =~= ls.take(k - 1));
        assert(ls.take(k as int).last() == line);
        assert(r.drop_last() == m1);
        if g {
            assert(m.push(e).drop_last() =~= m);
            assert(terminated(m.push(e)) == terminated(m) + e + seq!['\n']);
            assert(terminated(m) + e + seq!['\n'] =~= terminated(m).push('\n'));
            assert(trim(e) =~= e);
            assert(prev_of(m.push(e)) == prev_of(m));
            assert(non_empty_lines(m.push(e)) == non_empty_lines(m));
        }
        assert(lines_ok(m1)) by {
            assert forall|j: int| 0 <= j < m1.len() implies no_newline(#[trigger] m1[j]) && no_cr(
                m1[j],
            ) by {
                if j < m.len() {
                    assert(m1[j] == m[j]);
                }
            }
        }
        assert(lines_ok(r)) by {
            assert forall|j: int| 0 <= j < r.len() implies no_newline(#[trigger] r[j]) && no_cr(
                r[j],
            ) by {
                if j < m1.len() {
                    assert(r[j] == m1[j]);
                }
            }
        }
        // The spaced lines are settled: the new lines need no gap.
        assert forall|j: int| 0 <= j < r.len() implies !needs_gap(r.take(j), #[trigger] r[j]) by {
            if j < m.len() {
                assert(r.take(j) =~= m.take(j));
                assert(r[j] == m[j]);
            } else if g && j == m.len() {
                assert(r[j] == e);
                reveal_strlit("fn ");
                reveal_strlit("pub");
                assert(trim(e) =~= e);
                assert(!has_prefix(trim(e), "fn "@));
                assert(!has_prefix(trim(e), "pub"@));
            } else {
                assert(r[j] == line);
                assert(r.take(j) =~= m1);
                if g {
                    assert(prev_of(m) is Some);
                    assert(m.len() > 0);
                    assert(blank_end(m1));
                }
            }
        }
    }
}

/// A settled sequence of lines is left as it is.
proof fn lemma_spaced_settled(m: Seq<Seq<char>>, k: nat)
    requires
        settled(m),
        k <= m.len(),
    ensures
        spaced(m, k) == m.take(k as int),
    decreases k,
{
    if k > 0 {
        lemma_spaced_settled(m, (k - 1) as nat);
        assert(!needs_gap(m.take(k - 1), m[k - 1]));
        assert(m.take(k - 1).push(m[k - 1]) =~= m.take(k as int));
    }
}

proof fn lemma_trim_one_newline(a: Seq<char>)
    requires
        a.len() > 0,
        a.last() != '\n',
    ensures
        trim_newlines(a + seq!['\n']) == a,
{
    let s = a + seq!['\n'];
    assert(s.drop_last() =~= a);
    assert(s.last() == '\n');
    assert(trim_newlines(s) == trim_newlines(s.drop_last()));
    assert(trim_newlines(a) == a);
}

/// What the spacing pass gives, line by line: the spaced lines of the text, with the text's
/// final line break kept or left out.
proof fn lemma_spacing_shape(x: Seq<char>)
    requires
        no_cr(x),
    ensures
        spec_lines(spec_function_spacing(x)) == spaced(spec_lines(x), spec_lines(x).len()),
        ends_with_newline(spec_function_spacing(x)) == ends_with_newline(x),
        lines_ok(spaced(spec_lines(x), spec_lines(x).len())),
        settled(spaced(spec_lines(x), spec_lines(x).len())),
        non_empty_lines(spaced(spec_lines(x), spec_lines(x).len())) == non_empty_lines(
            spec_lines(x),
        ),
{
    let ls = spec_lines(x);
    lemma_joined_lines(x);
    assert(lines_ok(ls));
    lemma_spacing_scan(ls, ls.len());
    assert(ls.take(ls.len() as int) =~= ls);
    let sp = spaced(ls, ls.len());
    let t = terminated(sp);
    if ends_with_newline(x) {
        lemma_lines_of_joined(sp);
        assert(t == terminated(sp.drop_last()) + sp.last() + seq!['\n']);
    } else if ls.len() == 0 {
        assert(t =~= Seq::<char>::empty());
        assert(spec_lines(Seq::<char>::empty()) =~= Seq::<Seq<char>>::empty()) by {
            assert(line_scan(Seq::<char>::empty(), 0) == (
                Seq::<Seq<char>>::empty(),
                Seq::<char>::empty(),
            ));
        }
    } else {
        let l = sp.last();
        assert(l.len() > 0);
        assert(no_newline(l));
        let a = terminated(sp.drop_last()) + l;
        assert(t == a + seq!['\n']);
        assert(a.last() == l.last());
        lemma_trim_one_newline(a);
        assert(joined(sp) == a);
        lemma_lines_of_joined(sp);
    }
}

/// The function spacing pass only inserts empty lines, keeps whether the text ends with a
/// line break, and a second pass changes nothing (for text without carriage returns).
pub proof fn lemma_function_spacing_laws(x: Seq<char>)
    requires
        no_cr(x),
    ensures
        spec_function_spacing(spec_function_spacing(x)) == spec_function_spacing(x),
        ends_with_newline(spec_function_spacing(x)) == ends_with_newline(x),
        non_empty_lines(spec_lines(spec_function_spacing(x))) == non_empty_lines(spec_lines(x)),
{
    let y = spec_function_spacing(x);
    lemma_spacing_shape(x);
    let sp = spaced(spec_lines(x), spec_lines(x).len());
    // The second pass scans the spaced lines, which are settled.
    let ls = spec_lines(x);
    lemma_joined_lines(x);
    lemma_spacing_scan(ls, ls.len());
    assert(ls.take(ls.len() as int) =~= ls);
    assert(spacing_scan(ls, ls.len()).0 == terminated(sp));
    lemma_spacing_scan(sp, sp.len());
    lemma_spaced_settled(sp, sp.len());
    assert(sp.take(sp.len() as int) =~= sp);
    assert(spec_lines(y) == sp);
    assert(spacing_scan(sp, sp.len()).0 == terminated(sp));
    assert(ends_with_newline(y) == ends_with_newline(x));
}

/// The first non-whitespace character of `t`.
pub open spec fn next_non_ws(t: Seq<char>) -> Option<char>
    decreases t.len(),
{
    if t.len() == 0 {
        None
    } else if spec_is_whitespace(t[0]) {
        next_non_ws(t.drop_first())
    } else {
        Some(t[0])
    }
}

pub open spec fn is_closer(c: char) -> bool {
    c == ')' || c == ']' || c == '}'
}

/// `s` without whitespace and without commas whose next non-whitespace character closes a
/// bracket.
pub open spec fn spec_strip(s: Seq<char>) -> Seq<char>
    decreases s.len(),
{
    if s.len() == 0 {
        seq![]
    } else {
        let c = s[0];
        let rest = s.drop_first();
        if spec_is_whitespace(c) {
            spec_strip(rest)
        } else if c == ',' && (next_non_ws(rest) matches Some(n) && is_closer(n)) {
            spec_strip(rest)
        } else {
            seq![c] + spec_strip(rest)
        }
    }
}

pub proof fn lemma_next_non_ws_skip(s: Seq<char>, a: int, b: int)
    requires
        0 <= a <= b <= s.len(),
        forall|k: int| a <= k < b ==> spec_is_whitespace(#[trigger] s[k]),
    ensures
        next_non_ws(s.skip(a)) == next_non_ws(s.skip(b)),
    decreases b - a,
{
    if a < b {
        assert(s.skip(a).drop_first() =~= s.skip(a + 1));
        lemma_next_non_ws_skip(s, a + 1, b);
    }
}

/// `input` without whitespace and without trailing commas before closing brackets.
pub fn strip_whitespace_and_trailing_commas(input: &[char]) -> (r: Vec<char>)
    ensures
        r@ == spec_strip(input@),
{
    let mut output: Vec<char> = Vec::new();
    let mut i: usize = 0;
    assert(input@.skip(0) =~= input@);
    while i < input.len()
        invariant
            i <= input@.len(),
            output@ + spec_strip(input@.skip(i as int)) == spec_strip(input@),
        decreases input.len() - i,
    {
        let ch = input[i];
        assert(input@.skip(i as int).drop_first() =~= input@.skip(i + 1));
        assert(input@.skip(i as int)[0] == ch);
        if is_whitespace(ch) {
            i = i + 1;
            continue;
        }
        if ch == ',' {
            let mut j = i + 1;
            while j < input.len() && is_whitespace(input[j])
                invariant
                    i + 1 <= j <= input@.len(),
                    forall|k: int| i + 1 <= k < j ==> spec_is_whitespace(#[trigger] input@[k]),
                decreases input.len() - j,
            {
                j = j + 1;
            }
            proof {
                lemma_next_non_ws_skip(input@, i + 1, j as int);
                if j < input.len() {
                    assert(input@.skip(j as int)[0] == input@[j as int]);
                } else {
                    assert(input@.skip(j as int).len() == 0);
                }
            }
            let closes = j < input.len() && (input[j] == ')' || input[j] == ']' || input[j]
                == '}');
            if !closes {
                let ghost before = output@;
                output.push(',');
                assert(output@ + spec_strip(input@.skip(i + 1)) =~= before + (seq![ch]
                    + spec_strip(input@.skip(i + 1))));
            }
            i = i + 1;
            continue;
        }
        let ghost before = output@;
        output.push(ch);
        assert(output@ + spec_strip(input@.skip(i + 1)) =~= before + (seq![ch] + spec_strip(
            input@.skip(i + 1),
        )));
        i = i + 1;
    }
    assert(input@.skip(i as int) =~= Seq::<char>::empty());
    assert(output@ =~= spec_strip(input@));
    output
}

/// The two texts are the same once whitespace and trailing commas before closing brackets
/// are ignored.
pub open spec fn spec_differs_only_by_whitespace(before: Seq<char>, after: Seq<char>) -> bool {
    spec_strip(before) == spec_strip(after)
}

/// Whether the two texts differ only in whitespace and trailing commas.
pub fn differs_only_by_whitespace(before: &str, after: &str) -> (r: bool)
    ensures
        r == spec_differs_only_by_whitespace(before@, after@),
{
    let b = chars_of(before);
    let a = chars_of(after);
    let sb = strip_whitespace_and_trailing_commas(b.as_slice());
    let sa = strip_whitespace_and_trailing_commas(a.as_slice());
    same_chars(sb.as_slice(), sa.as_slice())
}

/// `s` with every non-overlapping occurrence of `p`, leftmost first, replaced by `q`
/// (`str::replace`).
pub open spec fn spec_replace(s: Seq<char>, p: Seq<char>, q: Seq<char>) -> Seq<char>
    recommends
        p.len() > 0,
    decreases s.len(),
{
    if s.len() == 0 || p.len() == 0 {
        s
    } else if has_prefix(s, p) {
        q + spec_replace(s.skip(p.len() as int), p, q)
    } else {
        seq![s[0]] + spec_replace(s.drop_first(), p, q)
    }
}

/// Ignoring whitespace is an equivalence: every text matches itself, and the relation is
/// symmetric and transitive.
pub proof fn lemma_whitespace_equivalence(a: Seq<char>, b: Seq<char>, c: Seq<char>)
    ensures
        spec_differs_only_by_whitespace(a, a),
        spec_differs_only_by_whitespace(a, b) ==> spec_differs_only_by_whitespace(b, a),
        spec_differs_only_by_whitespace(a, b) && spec_differs_only_by_whitespace(b, c)
            ==> spec_differs_only_by_whitespace(a, c),
{
}

/// Inserting or removing whitespace anywhere does not count as a change.
pub proof fn lemma_whitespace_ignored(a: Seq<char>, b: Seq<char>, w: char)
    requires
        spec_is_whitespace(w),
    ensures
        spec_strip(a + seq![w] + b) == spec_strip(a + b),
    decreases a.len(),
{
    if a.len() == 0 {
        assert(a + seq![w] + b =~= seq![w] + b);
        assert((seq![w] + b).drop_first() =~= b);
        assert(a + b =~= b);
    } else {
        let rest = a.drop_first();
        lemma_whitespace_ignored(rest, b, w);
        assert((a + seq![w] + b).drop_first() =~= rest + seq![w] + b);
        assert((a + b).drop_first() =~= rest + b);
        assert((a + seq![w] + b)[0] == a[0]);
        assert((a + b)[0] == a[0]);
        lemma_next_non_ws_insert(rest, b, w);
    }
}

/// Inserting whitespace does not change which character comes next.
pub proof fn lemma_next_non_ws_insert(a: Seq<char>, b: Seq<char>, w: char)
    requires
        spec_is_whitespace(w),
    ensures
        next_non_ws(a + seq![w] + b) == next_non_ws(a + b),
    decreases a.len(),
{
    if a.len() == 0 {
        assert(a + seq![w] + b =~= seq![w] + b);
        assert((seq![w] + b).drop_first() =~= b);
        assert(a + b =~= b);
    } else {
        lemma_next_non_ws_insert(a.drop_first(), b, w);
        assert((a + seq![w] + b).drop_first() =~= a.drop_first() + seq![w] + b);
        assert((a + b).drop_first() =~= a.drop_first() + b);
        assert((a + seq![w] + b)[0] == a[0]);
        assert((a + b)[0] == a[0]);
    }
}

/// Replaces every occurrence of `p` in `s` by `q`.
pub fn replace_all(s: &[char], p: &[char], q: &[char]) -> (r: Vec<char>)
    requires
        p@.len() > 0,
    ensures
        r@ == spec_replace(s@, p@, q@),
{
    let mut out: Vec<char> = Vec::new();
    let mut i: usize = 0;
    assert(s@.skip(0) =~= s@);
    while i < s.len()
        invariant
            i <= s@.len(),
            p@.len() > 0,
            out@ + spec_replace(s@.skip(i as int), p@, q@) == spec_replace(s@, p@, q@),
        decreases s.len() - i,
    {
        let ghost before = out@;
        let ghost rest = s@.skip(i as int);
        let hit = crate::text::matches_at(s, p, i);
        proof {
            if hit {
                assert(rest.take(p@.len() as int) =~= s@.subrange(i as int, i + p@.len()));
            } else if p@.len() <= rest.len() {
                assert(rest.take(p@.len() as int) =~= s@.subrange(i as int, i + p@.len()));
            }
        }
        if hit {
            push_all(&mut out, q);
            assert(rest.skip(p@.len() as int) =~= s@.skip(i + p@.len()));
            i = i + p.len();
            assert(out@ + spec_replace(s@.skip(i as int), p@, q@) =~= before + (q@ + spec_replace(
                rest.skip(p@.len() as int),
                p@,
                q@,
            )));
        } else {
            out.push(s[i]);
            assert(rest.drop_first() =~= s@.skip(i + 1));
            assert(rest[0] == s@[i as int]);
            i = i + 1;
            assert(out@ + spec_replace(s@.skip(i as int), p@, q@) =~= before + (seq![rest[0]]
                + spec_replace(rest.drop_first(), p@, q@)));
        }
    }
    assert(s@.skip(i as int) =~= Seq::<char>::empty());
    assert(out@ =~= spec_replace(s@, p@, q@));
    out
}

/// Crate attributes that share a line are put on lines of their own.
pub open spec fn spec_crate_attribute_layout(preamble: Seq<char>) -> Seq<char> {
    spec_replace(spec_replace(preamble, "] #!["@, "]\n#!["@), "]#!["@, "]\n#!["@)
}

/// Puts crate attributes printed on one line onto separate lines.
pub fn normalize_crate_attribute_layout(preamble: &str) -> (r: String)
    ensures
        r@ == spec_crate_attribute_layout(preamble@),
{
    let text = chars_of(preamble);
    let spaced = chars_of("] #![");
    let tight = chars_of("]#![");
    let split = chars_of("]\n#![");
    proof {
        reveal_strlit("] #![");
        reveal_strlit("]#![");
    }
    let once = replace_all(text.as_slice(), spaced.as_slice(), split.as_slice());
    let twice = replace_all(once.as_slice(), tight.as_slice(), split.as_slice());
    string_of(twice.as_slice())
}

} // verus!
