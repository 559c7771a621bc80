//! Comment handling around parsing: plain `//` comments directly above an item are
//! turned into marked doc comments before parsing, so that they travel with the item,
//! and are turned back afterwards.
use vstd::prelude::*;

use crate::model::PROMOTED_COMMENT_MARKER;
use crate::text::{
    chars_of, ends_with_newline, has_prefix, is_blank, join_lines, joined, leading_ws,
    leading_ws_len, lemma_joined_lines, lemma_leading_ws_bound, lemma_leading_ws_char,
    lemma_lines_of_joined, lemma_terminated_joined, no_cr, no_newline, spec_is_whitespace, push_all, slice_chars, spec_lines, split_lines, starts_with, string_of,
    strip_trailing_newlines, terminate_lines, terminated, trim_newlines, trim_start, trimmed_start,
    views,
};

verus! {

/// A `//` comment that is neither a `///` nor a `//!` doc comment.
pub open spec fn spec_is_plain_line_comment(trimmed: Seq<char>) -> bool {
    has_prefix(trimmed, "//"@) && !has_prefix(trimmed, "///"@) && !has_prefix(trimmed, "//!"@)
}

/// A `//!` module doc comment.
pub open spec fn spec_is_module_doc_comment(trimmed: Seq<char>) -> bool {
    has_prefix(trimmed, "//!"@)
}

/// Whether a trimmed line is a plain `//` comment.
pub fn is_plain_line_comment(trimmed: &[char]) -> (r: bool)
    ensures
        r == spec_is_plain_line_comment(trimmed@),
{
    let two = chars_of("//");
    let outer = chars_of("///");
    let inner = chars_of("//!");
    starts_with(trimmed, two.as_slice()) && !starts_with(trimmed, outer.as_slice())
        && !starts_with(trimmed, inner.as_slice())
}

/// Whether a trimmed line is a `//!` comment.
pub fn is_module_doc_comment(trimmed: &[char]) -> (r: bool)
    ensures
        r == spec_is_module_doc_comment(trimmed@),
{
    let inner = chars_of("//!");
    starts_with(trimmed, inner.as_slice())
}

/// The line beginnings that open an item declaration.
pub open spec fn declaration_prefixes() -> Seq<Seq<char>> {
    seq![
        "fn "@,
        "pub fn "@,
        "pub(crate) fn "@,
        "pub(super) fn "@,
        "pub(in "@,
        "unsafe fn "@,
        "pub unsafe fn "@,
        "struct "@,
        "pub struct "@,
        "enum "@,
        "pub enum "@,
        "union "@,
        "pub union "@,
        "impl "@,
        "unsafe impl "@,
        "trait "@,
        "pub trait "@,
        "mod "@,
        "pub mod "@,
        "use "@,
        "pub use "@,
        "const "@,
        "pub const "@,
        "static "@,
        "pub static "@,
    ]
}

/// A trimmed line that begins an item declaration.
pub open spec fn spec_is_item_declaration_line(trimmed: Seq<char>) -> bool {
    exists|k: int| 0 <= k < declaration_prefixes().len() && has_prefix(trimmed, #[trigger] declaration_prefixes()[k])
}

fn declaration_prefix_list() -> (r: Vec<Vec<char>>)
    ensures
        views(r@) == declaration_prefixes(),
{
    let mut r: Vec<Vec<char>> = Vec::new();
    r.push(chars_of("fn "));
    r.push(chars_of("pub fn "));
    r.push(chars_of("pub(crate) fn "));
    r.push(chars_of("pub(super) fn "));
    r.push(chars_of("pub(in "));
    r.push(chars_of("unsafe fn "));
    r.push(chars_of("pub unsafe fn "));
    r.push(chars_of("struct "));
    r.push(chars_of("pub struct "));
    r.push(chars_of("enum "));
    r.push(chars_of("pub enum "));
    r.push(chars_of("union "));
    r.push(chars_of("pub union "));
    r.push(chars_of("impl "));
    r.push(chars_of("unsafe impl "));
    r.push(chars_of("trait "));
    r.push(chars_of("pub trait "));
    r.push(chars_of("mod "));
    r.push(chars_of("pub mod "));
    r.push(chars_of("use "));
    r.push(chars_of("pub use "));
    r.push(chars_of("const "));
    r.push(chars_of("pub const "));
    r.push(chars_of("static "));
    r.push(chars_of("pub static "));
    assert(views(r@) =~= declaration_prefixes());
    r
}

/// Whether a trimmed line begins an item declaration.
pub fn is_item_declaration_line(trimmed: &[char]) -> (r: bool)
    ensures
        r == spec_is_item_declaration_line(trimmed@),
{
    let candidates = declaration_prefix_list();
    let mut k: usize = 0;
    while k < candidates.len()
        invariant
            k <= candidates@.len(),
            views(candidates@) == declaration_prefixes(),
            forall|j: int| 0 <= j < k ==> !has_prefix(trimmed@, #[trigger] declaration_prefixes()[j]),
        decreases candidates.len() - k,
    {
        assert(views(candidates@)[k as int] == candidates@[k as int]@);
        if starts_with(trimmed, candidates[k].as_slice()) {
            return true;
        }
        k = k + 1;
    }
    false
}

/// A line that is neither blank nor a plain comment.
pub open spec fn is_code_line(line: Seq<char>) -> bool {
    trim_start(line).len() > 0 && !spec_is_plain_line_comment(trim_start(line))
}

/// Index of the first code line at or after `k`, or the number of lines.
pub open spec fn next_code(ls: Seq<Seq<char>>, k: int) -> int
    decreases ls.len() - k,
{
    if k >= ls.len() || k < 0 {
        ls.len() as int
    } else if is_code_line(ls[k]) {
        k
    } else {
        next_code(ls, k + 1)
    }
}

/// The comment at line `j` is followed, past comments and blank lines, by an item declaration.
pub open spec fn attached(ls: Seq<Seq<char>>, j: int) -> bool {
    let m = next_code(ls, j + 1);
    m < ls.len() && spec_is_item_declaration_line(trim_start(ls[m]))
}

/// The comment line written as a marked doc comment, indentation kept.
pub open spec fn promoted_line(line: Seq<char>) -> Seq<char> {
    let t = trim_start(line);
    line.take(line.len() - t.len()) + "///"@ + PROMOTED_COMMENT_MARKER@ + t.skip(2)
}

/// Line `j` after promotion.
pub open spec fn promote_line(ls: Seq<Seq<char>>, j: int) -> Seq<char> {
    if spec_is_plain_line_comment(trim_start(ls[j])) && attached(ls, j) {
        promoted_line(ls[j])
    } else {
        ls[j]
    }
}

/// The line ending the text kept at the end.
pub open spec fn final_newline(s: Seq<char>) -> Seq<char> {
    if ends_with_newline(s) {
        seq!['\n']
    } else {
        seq![]
    }
}

/// Every plain comment whose next code line declares an item becomes a marked doc comment.
pub open spec fn spec_promote(source: Seq<char>) -> Seq<char> {
    let ls = spec_lines(source);
    joined(Seq::new(ls.len(), |j: int| promote_line(ls, j))) + final_newline(source)
}

pub proof fn lemma_next_code_run(ls: Seq<Seq<char>>, a: int, b: int)
    requires
        0 <= a <= b <= ls.len(),
        forall|i: int| a <= i < b ==> !is_code_line(#[trigger] ls[i]),
    ensures
        next_code(ls, a) == next_code(ls, b),
    decreases b - a,
{
    if a < b {
        lemma_next_code_run(ls, a + 1, b);
    }
}

/// The comment line rewritten as a marked doc comment.
fn promote_comment_line(line: &[char]) -> (r: Vec<char>)
    requires
        spec_is_plain_line_comment(trim_start(line@)),
    ensures
        r@ == promoted_line(line@),
{
    let indent_len = leading_ws_len(line);
    proof {
        lemma_leading_ws_bound(line@);
    }
    let t = trimmed_start(line);
    let mut out = slice_chars(line, 0, indent_len);
    let prefix = chars_of("///");
    let marker = chars_of(PROMOTED_COMMENT_MARKER);
    push_all(&mut out, prefix.as_slice());
    push_all(&mut out, marker.as_slice());
    proof {
        reveal_strlit("//");
    }
    let rest = slice_chars(t.as_slice(), 2, t.len());
    push_all(&mut out, rest.as_slice());
    assert(line@.take(line@.len() - t@.len()) =~= line@.subrange(0, indent_len as int));
    out
}

/// Turns plain `//` comments that precede an item declaration into marked `///` comments,
/// so that the parser attaches them to the item.
pub fn promote_leading_item_comments(source: &str) -> (r: String)
    ensures
        r@ == spec_promote(source@),
{
    let src = chars_of(source);
    let lines = split_lines(src.as_slice());
    let ghost ls = views(lines@);
    let n = lines.len();
    let mut out: Vec<Vec<char>> = Vec::new();
    let mut i: usize = 0;
    while i < n
        invariant
            n == lines@.len(),
            ls == views(lines@),
            i <= n,
            out@.len() == i,
            forall|j: int| 0 <= j < i ==> (#[trigger] out@[j])@ == promote_line(ls, j),
        decreases n - i,
    {
        let trimmed = trimmed_start(lines[i].as_slice());
        assert(ls[i as int] == lines@[i as int]@);
        if !is_plain_line_comment(trimmed.as_slice()) {
            out.push(slice_chars(lines[i].as_slice(), 0, lines[i].len()));
            proof {
                assert(lines@[i as int]@.subrange(0, lines@[i as int]@.len() as int) =~= lines@[i as int]@);
            }
            i = i + 1;
            continue;
        }
        let block_start = i;
        let mut block_end = i;
        while block_end + 1 < n
            invariant
                n == lines@.len(),
                ls == views(lines@),
                block_start <= block_end < n,
                forall|k: int| block_start < k <= block_end ==> !is_code_line(#[trigger] ls[k]),
            ensures
                block_start <= block_end < n,
                forall|k: int| block_start < k <= block_end ==> !is_code_line(#[trigger] ls[k]),
                block_end + 1 < n ==> is_code_line(ls[block_end + 1]),
            decreases n - block_end,
        {
            let next = trimmed_start(lines[block_end + 1].as_slice());
            assert(ls[block_end + 1] == lines@[block_end + 1]@);
            if is_plain_line_comment(next.as_slice()) || next.len() == 0 {
                block_end = block_end + 1;
            } else {
                break;
            }
        }
        // Blank lines belong to the block, so the line after it is the next code line.
        let lookahead = block_end + 1;
        let attach_to_item = lookahead < n && is_item_declaration_line(
            trimmed_start(lines[lookahead].as_slice()).as_slice(),
        );
        proof {
            if lookahead < n {
                assert(ls[lookahead as int] == lines@[lookahead as int]@);
            }
        }
        let mut j = block_start;
        while j <= block_end
            invariant
                n == lines@.len(),
                ls == views(lines@),
                block_start <= j <= block_end + 1,
                block_end < n,
                out@.len() == j,
                forall|m: int| 0 <= m < j ==> (#[trigger] out@[m])@ == promote_line(ls, m),
                forall|k: int| block_start < k <= block_end ==> !is_code_line(#[trigger] ls[k]),
                forall|k: int| block_end < k < lookahead ==> !is_code_line(#[trigger] ls[k]),
                block_end < lookahead <= n,
                lookahead < n ==> is_code_line(ls[lookahead as int]),
                attach_to_item == (lookahead < n && spec_is_item_declaration_line(
                    trim_start(ls[lookahead as int]),
                )),
                spec_is_plain_line_comment(trim_start(ls[block_start as int])),
            decreases block_end + 1 - j,
        {
            assert(ls[j as int] == lines@[j as int]@);
            proof {
                lemma_next_code_run(ls, j + 1, lookahead as int);
                if lookahead < n {
                    assert(next_code(ls, lookahead as int) == lookahead);
                } else {
                    assert(next_code(ls, lookahead as int) == ls.len());
                }
                assert(attached(ls, j as int) == attach_to_item);
            }
            let line_trimmed = trimmed_start(lines[j].as_slice());
            if attach_to_item && is_plain_line_comment(line_trimmed.as_slice()) {
                out.push(promote_comment_line(lines[j].as_slice()));
            } else {
                out.push(slice_chars(lines[j].as_slice(), 0, lines[j].len()));
                proof {
                    assert(lines@[j as int]@.subrange(0, lines@[j as int]@.len() as int)
                        =~= lines@[j as int]@);
                }
            }
            j = j + 1;
        }
        i = block_end + 1;
    }
    let mut text = join_lines(&out);
    proof {
        assert(views(out@) =~= Seq::new(ls.len(), |j: int| promote_line(ls, j)));
    }
    if src.len() > 0 && src[src.len() - 1] == '\n' {
        text.push('\n');
    }
    proof {
        assert(text@ =~= spec_promote(source@));
    }
    string_of(text.as_slice())
}

/// The prefix of a promoted comment after its indentation.
pub open spec fn promoted_prefix() -> Seq<char> {
    "///"@ + PROMOTED_COMMENT_MARKER@
}

/// A marked doc comment turned back into the plain comment it was made from.
pub open spec fn restore_line(line: Seq<char>) -> Seq<char> {
    let t = trim_start(line);
    if has_prefix(t, promoted_prefix()) {
        line.take(line.len() - t.len()) + "//"@ + t.skip(promoted_prefix().len() as int)
    } else {
        line
    }
}

/// Every line restored, each followed by a newline; without the trailing newlines
/// when the text did not end with one.
pub open spec fn spec_restore(rendered: Seq<char>) -> Seq<char> {
    let ls = spec_lines(rendered);
    let out = terminated(Seq::new(ls.len(), |j: int| restore_line(ls[j])));
    if ends_with_newline(rendered) {
        out
    } else {
        trim_newlines(out)
    }
}

fn restore_comment_line(line: &[char], promoted: &Vec<char>) -> (r: Vec<char>)
    requires
        promoted@ == promoted_prefix(),
    ensures
        r@ == restore_line(line@),
{
    let indent_len = leading_ws_len(line);
    proof {
        lemma_leading_ws_bound(line@);
    }
    let t = trimmed_start(line);
    if starts_with(t.as_slice(), promoted.as_slice()) {
        let mut out = slice_chars(line, 0, indent_len);
        let slashes = chars_of("//");
        push_all(&mut out, slashes.as_slice());
        let rest = slice_chars(t.as_slice(), promoted.len(), t.len());
        push_all(&mut out, rest.as_slice());
        assert(line@.take(line@.len() - t@.len()) =~= line@.subrange(0, indent_len as int));
        out
    } else {
        let r = slice_chars(line, 0, line.len());
        assert(r@ =~= line@);
        r
    }
}

/// Turns the marked doc comments made by `promote_leading_item_comments` back into
/// plain `//` comments.
pub fn restore_promoted_comment_style(rendered: &str) -> (r: String)
    ensures
        r@ == spec_restore(rendered@),
{
    let src = chars_of(rendered);
    let lines = split_lines(src.as_slice());
    let ghost ls = views(lines@);
    let mut promoted = chars_of("///");
    let marker = chars_of(PROMOTED_COMMENT_MARKER);
    push_all(&mut promoted, marker.as_slice());
    let mut out: Vec<Vec<char>> = Vec::new();
    let mut i: usize = 0;
    while i < lines.len()
        invariant
            ls == views(lines@),
            promoted@ == promoted_prefix(),
            i <= lines@.len(),
            out@.len() == i,
            forall|j: int| 0 <= j < i ==> (#[trigger] out@[j])@ == restore_line(ls[j]),
        decreases lines.len() - i,
    {
        assert(ls[i as int] == lines@[i as int]@);
        out.push(restore_comment_line(lines[i].as_slice(), &promoted));
        i = i + 1;
    }
    let text = terminate_lines(&out);
    proof {
        assert(views(out@) =~= Seq::new(ls.len(), |j: int| restore_line(ls[j])));
    }
    let ends_nl = src.len() > 0 && src[src.len() - 1] == '\n';
    let text = if ends_nl {
        text
    } else {
        strip_trailing_newlines(text)
    };
    string_of(text.as_slice())
}

/// A promoted comment line is restored to the line it was made from.
pub proof fn lemma_restore_promoted_line(line: Seq<char>)
    requires
        spec_is_plain_line_comment(trim_start(line)),
    ensures
        restore_line(promoted_line(line)) == line,
        no_newline(line) ==> no_newline(promoted_line(line)),
        no_cr(line) ==> no_cr(promoted_line(line)),
        promoted_line(line).len() > 0,
{
    reveal_strlit("//");
    reveal_strlit("///");
    reveal_strlit("__cargo_normalize_promoted__");
    lemma_leading_ws_bound(line);
    let t = trim_start(line);
    let lead = leading_ws(line) as int;
    let indent = line.take(line.len() - t.len());
    assert(indent =~= line.take(lead));
    let body = "///"@ + PROMOTED_COMMENT_MARKER@ + t.skip(2);
    let p = promoted_line(line);
    assert(p =~= indent + body);
    assert forall|i: int| 0 <= i < lead implies spec_is_whitespace(#[trigger] p[i]) by {
        assert(p[i] == line[i]);
    }
    assert(p[lead] == '/');
    lemma_leading_ws_char(p, lead);
    assert(trim_start(p) =~= body);
    assert(body.take(promoted_prefix().len() as int) =~= promoted_prefix());
    assert(has_prefix(body, promoted_prefix()));
    assert(p.take(p.len() - body.len()) =~= indent);
    assert(body.skip(promoted_prefix().len() as int) =~= t.skip(2));
    assert(t =~= "//"@ + t.skip(2));
    assert(restore_line(p) =~= indent + ("//"@ + t.skip(2)));
    assert(indent + t =~= line);
    if no_newline(line) {
        assert forall|i: int| 0 <= i < p.len() implies p[i] != '\n' by {
            if i < lead {
                assert(p[i] == line[i]);
            } else if i >= lead + promoted_prefix().len() {
                assert(p[i] == line[i - promoted_prefix().len() + 2]);
            }
        }
    }
    if no_cr(line) {
        assert forall|i: int| 0 <= i < p.len() implies p[i] != '\r' by {
            if i < lead {
                assert(p[i] == line[i]);
            } else if i >= lead + promoted_prefix().len() {
                assert(p[i] == line[i - promoted_prefix().len() + 2]);
            }
        }
    }
}

/// Turning promoted comments back gives the original text exactly, for any text without
/// carriage returns whose lines do not already start with the promotion marker.
pub proof fn lemma_restore_undoes_promote(s: Seq<char>)
    requires
        no_cr(s),
        forall|j: int|
            0 <= j < spec_lines(s).len() ==> !has_prefix(
                trim_start(#[trigger] spec_lines(s)[j]),
                promoted_prefix(),
            ),
    ensures
        spec_restore(spec_promote(s)) == s,
{
    let ls = spec_lines(s);
    lemma_joined_lines(s);
    let ps = Seq::new(ls.len(), |j: int| promote_line(ls, j));
    assert forall|j: int| 0 <= j < ps.len() implies no_newline(#[trigger] ps[j]) && no_cr(ps[j])
        && restore_line(ps[j]) == ls[j] && (ls[j].len() > 0 ==> ps[j].len() > 0) by {
        if spec_is_plain_line_comment(trim_start(ls[j])) && attached(ls, j) {
            lemma_restore_promoted_line(ls[j]);
        }
    }
    lemma_lines_of_joined(ps);
    let p = spec_promote(s);
    let restored = Seq::new(ps.len(), |j: int| restore_line(ps[j]));
    assert(restored =~= ls);
    if ends_with_newline(s) {
        lemma_terminated_joined(ps);
        assert(p =~= crate::text::terminated(ps));
        assert(spec_lines(p) == ps);
        assert(ends_with_newline(p));
        lemma_terminated_joined(ls);
        assert(spec_restore(p) =~= s);
    } else {
        assert(p =~= joined(ps));
        assert(spec_lines(p) == ps);
        if ls.len() == 0 {
            assert(p =~= Seq::<char>::empty());
            assert(spec_restore(p) =~= s);
        } else {
            assert(p.last() == ps.last().last());
            assert(!ends_with_newline(p));
            lemma_terminated_joined(ls);
            let jl = joined(ls);
            assert(jl.last() == ls.last().last());
            assert((jl + seq!['\n']).drop_last() =~= jl);
            assert(ls.last().len() > 0);
            assert(ls.last().last() != '\n');
            assert(crate::text::trim_newlines(jl + seq!['\n']) == crate::text::trim_newlines(jl));
            assert(crate::text::trim_newlines(jl) == jl);
            assert(s =~= jl);
            assert(Seq::new(spec_lines(p).len(), |j: int| restore_line(spec_lines(p)[j])) =~= ls);
            assert(spec_restore(p) =~= s);
        }
    }
}

} // verus!
