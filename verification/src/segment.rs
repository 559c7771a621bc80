//! Cutting a source file into item segments: each item with its source lines and the
//! comment lines above it.
use vstd::prelude::*;

use crate::comments::{
    is_module_doc_comment, is_plain_line_comment, spec_is_module_doc_comment,
    spec_is_plain_line_comment,
};
use crate::model::{ItemHeader, ItemKind, ItemSegment};
use crate::text::{
    chars_of, join_lines, joined, slice_chars, spec_lines, split_lines, string_of, trim, trimmed,
    views,
};

verus! {

/// Which comment lines a block above an item collects.
#[derive(Debug, Clone, Copy, PartialEq, Eq, Structural)]
pub enum CommentStyle {
    /// Plain `//` comments.
    Plain,
    /// `//!` module doc comments.
    ModuleDoc,
}

pub open spec fn style_matches(style: CommentStyle, trimmed: Seq<char>) -> bool {
    match style {
        CommentStyle::Plain => spec_is_plain_line_comment(trimmed),
        CommentStyle::ModuleDoc => spec_is_module_doc_comment(trimmed),
    }
}

/// Line `n` (1-based) exists and is blank or a comment of the style.
pub open spec fn gap_line(lines: Seq<Seq<char>>, n: int, style: CommentStyle) -> bool {
    1 <= n <= lines.len() && (trim(lines[n - 1]).len() == 0 || style_matches(
        style,
        trim(lines[n - 1]),
    ))
}

/// The first line of the run of gap lines that ends just above line `k`, not going above
/// line `lo`.
pub open spec fn block_top(lines: Seq<Seq<char>>, lo: int, k: int, style: CommentStyle) -> int
    decreases k - lo,
{
    if k <= lo {
        k
    } else if gap_line(lines, k - 1, style) {
        block_top(lines, lo, k - 1, style)
    } else {
        k
    }
}

pub open spec fn has_comment(block: Seq<Seq<char>>, style: CommentStyle) -> bool {
    exists|i: int| 0 <= i < block.len() && style_matches(style, trim(#[trigger] block[i]))
}

pub open spec fn drop_leading_blank(block: Seq<Seq<char>>) -> Seq<Seq<char>>
    decreases block.len(),
{
    if block.len() > 0 && trim(block[0]).len() == 0 {
        drop_leading_blank(block.drop_first())
    } else {
        block
    }
}

pub open spec fn drop_trailing_blank(block: Seq<Seq<char>>) -> Seq<Seq<char>>
    decreases block.len(),
{
    if block.len() > 0 && trim(block.last()).len() == 0 {
        drop_trailing_blank(block.drop_last())
    } else {
        block
    }
}

/// The lowest line a comment block above an item may reach: for plain comments the first
/// line after the previous item (`min_line`), for `//!` comments the line after that, since
/// a file's opening `//!` lines belong to the file's own attributes.
pub open spec fn search_floor(min_line: int, style: CommentStyle) -> int {
    match style {
        CommentStyle::Plain => min_line,
        CommentStyle::ModuleDoc => min_line + 1,
    }
}

/// The comment block directly above the item starting at `start` (1-based): the run of
/// blank and comment lines down to the search floor, if it holds a comment, without blank
/// lines at its ends.
pub open spec fn spec_comment_block(
    lines: Seq<Seq<char>>,
    min_line: int,
    start: int,
    style: CommentStyle,
) -> Seq<Seq<char>> {
    if start <= 1 || lines.len() == 0 {
        seq![]
    } else {
        let first = block_top(lines, search_floor(min_line, style), start, style);
        if first >= start {
            seq![]
        } else {
            let block = lines.subrange(first - 1, start - 1);
            if has_comment(block, style) {
                drop_trailing_blank(drop_leading_blank(block))
            } else {
                seq![]
            }
        }
    }
}

pub proof fn lemma_block_top(lines: Seq<Seq<char>>, lo: int, k: int, style: CommentStyle)
    ensures
        block_top(lines, lo, k, style) <= k,
        k <= lo ==> block_top(lines, lo, k, style) == k,
        k > lo ==> lo <= block_top(lines, lo, k, style),
        forall|n: int|
            block_top(lines, lo, k, style) <= n < k ==> #[trigger] gap_line(lines, n, style),
    decreases k - lo,
{
    if k > lo && gap_line(lines, k - 1, style) {
        lemma_block_top(lines, lo, k - 1, style);
    }
}

pub proof fn lemma_block_top_reaches_floor(
    lines: Seq<Seq<char>>,
    lo: int,
    k: int,
    style: CommentStyle,
)
    requires
        lo <= k,
        forall|n: int| lo <= n < k ==> #[trigger] gap_line(lines, n, style),
    ensures
        block_top(lines, lo, k, style) == lo,
    decreases k - lo,
{
    if k > lo {
        lemma_block_top_reaches_floor(lines, lo, k - 1, style);
    }
}

/// Every comment between two items is kept: when all lines from the first line after the
/// previous item up to the item are blank or plain `//` comments, and one of them is a
/// comment, the item's leading comments are exactly those lines, without blank lines at
/// either end.
pub proof fn lemma_comments_between_items_kept(lines: Seq<Seq<char>>, min_line: int, start: int)
    requires
        1 <= min_line < start <= lines.len() + 1,
        forall|n: int| min_line <= n < start ==> #[trigger] gap_line(lines, n, CommentStyle::Plain),
        exists|n: int|
            min_line <= n < start && #[trigger] spec_is_plain_line_comment(trim(lines[n - 1])),
    ensures
        spec_comment_block(lines, min_line, start, CommentStyle::Plain) == drop_trailing_blank(
            drop_leading_blank(lines.subrange(min_line - 1, start - 1)),
        ),
{
    lemma_block_top_reaches_floor(lines, min_line, start, CommentStyle::Plain);
    let block = lines.subrange(min_line - 1, start - 1);
    let n = choose|n: int|
        min_line <= n < start && #[trigger] spec_is_plain_line_comment(trim(lines[n - 1]));
    assert(block[n - min_line] == lines[n - 1]);
    assert(style_matches(CommentStyle::Plain, trim(block[n - min_line])));
    assert(has_comment(block, CommentStyle::Plain));
}

fn is_styled(trimmed: &[char], style: CommentStyle) -> (r: bool)
    ensures
        r == style_matches(style, trimmed@),
{
    match style {
        CommentStyle::Plain => is_plain_line_comment(trimmed),
        CommentStyle::ModuleDoc => is_module_doc_comment(trimmed),
    }
}

fn is_gap_line(lines: &Vec<Vec<char>>, n: usize, style: CommentStyle) -> (r: bool)
    ensures
        r == gap_line(views(lines@), n as int, style),
{
    if n < 1 || n > lines.len() {
        return false;
    }
    let t = trimmed(lines[n - 1].as_slice());
    assert(views(lines@)[n - 1] == lines@[n - 1]@);
    t.len() == 0 || is_styled(t.as_slice(), style)
}

/// Whether the search for a comment block may look at the line above `first`.
fn may_extend(first: usize, min_line: usize, style: CommentStyle) -> (r: bool)
    requires
        first >= 1,
    ensures
        r == (first - 1 >= search_floor(min_line as int, style)),
{
    match style {
        CommentStyle::Plain => first - 1 >= min_line,
        CommentStyle::ModuleDoc => first - 1 > min_line,
    }
}

/// Collects the comment block of the given style directly above the item at
/// `item_start_line`, looking no lower than the search floor.
pub fn extract_comment_block(
    lines: &Vec<Vec<char>>,
    min_line: usize,
    item_start_line: usize,
    style: CommentStyle,
) -> (r: Vec<Vec<char>>)
    ensures
        views(r@) == spec_comment_block(views(lines@), min_line as int, item_start_line as int, style),
{
    let ghost ls = views(lines@);
    if item_start_line <= 1 || lines.len() == 0 {
        let r: Vec<Vec<char>> = Vec::new();
        assert(views(r@) =~= Seq::<Seq<char>>::empty());
        return r;
    }
    let mut first = item_start_line;
    while may_extend(first, min_line, style) && is_gap_line(lines, first - 1, style)
        invariant
            1 <= first <= item_start_line,
            ls == views(lines@),
            block_top(ls, search_floor(min_line as int, style), first as int, style) == block_top(
                ls,
                search_floor(min_line as int, style),
                item_start_line as int,
                style,
            ),
        decreases first,
    {
        first = first - 1;
    }
    proof {
        lemma_block_top(ls, search_floor(min_line as int, style), item_start_line as int, style);
    }
    if first >= item_start_line {
        let r: Vec<Vec<char>> = Vec::new();
        assert(views(r@) =~= Seq::<Seq<char>>::empty());
        return r;
    }
    proof {
        assert(gap_line(ls, item_start_line - 1, style));
    }
    let ghost block = ls.subrange(first - 1, item_start_line - 1);
    let mut collected: Vec<Vec<char>> = Vec::new();
    let mut found: bool = false;
    let mut n = first;
    while n < item_start_line
        invariant
            first <= n <= item_start_line,
            1 <= first,
            item_start_line - 1 <= ls.len(),
            ls == views(lines@),
            block == ls.subrange(first - 1, item_start_line - 1),
            views(collected@) == ls.subrange(first - 1, n - 1),
            found <==> exists|i: int| 0 <= i < n - first && style_matches(style, trim(#[trigger] block[i])),
        decreases item_start_line - n,
    {
        let line = slice_chars(lines[n - 1].as_slice(), 0, lines[n - 1].len());
        assert(line@ =~= ls[n - 1]);
        let t = trimmed(line.as_slice());
        if is_styled(t.as_slice(), style) {
            found = true;
        }
        assert(block[n - first] == ls[n - 1]);
        let ghost before = collected@;
        let ghost lv = line@;
        collected.push(line);
        assert(views(collected@) =~= views(before).push(lv));
        assert(ls.subrange(first - 1, n as int) =~= ls.subrange(first - 1, n - 1).push(ls[n - 1]));
        assert(views(collected@) =~= ls.subrange(first - 1, n as int));
        n = n + 1;
    }
    assert(views(collected@) =~= block);
    if !found {
        let r: Vec<Vec<char>> = Vec::new();
        assert(views(r@) =~= Seq::<Seq<char>>::empty());
        return r;
    }
    while collected.len() > 0 && trimmed(collected[0].as_slice()).len() == 0
        invariant
            drop_leading_blank(views(collected@)) == drop_leading_blank(block),
        decreases collected.len(),
    {
        let ghost before = views(collected@);
        assert(before[0] == collected@[0]@);
        collected.remove(0);
        assert(views(collected@) =~= before.drop_first());
    }
    assert(views(collected@) == drop_leading_blank(block)) by {
        if collected@.len() > 0 {
            assert(views(collected@)[0] == collected@[0]@);
        }
    }
    while collected.len() > 0 && trimmed(collected[collected.len() - 1].as_slice()).len() == 0
        invariant
            drop_trailing_blank(views(collected@)) == drop_trailing_blank(
                drop_leading_blank(block),
            ),
        decreases collected.len(),
    {
        let ghost before = views(collected@);
        assert(before.last() == collected@[collected@.len() - 1]@);
        collected.pop();
        assert(views(collected@) =~= before.drop_last());
    }
    assert(views(collected@) == drop_trailing_blank(drop_leading_blank(block))) by {
        if collected@.len() > 0 {
            assert(views(collected@).last() == collected@[collected@.len() - 1]@);
        }
    }
    collected
}

/// Plain `//` comment lines directly above an item.
pub fn extract_leading_comments(lines: &Vec<Vec<char>>, min_line: usize, item_start_line: usize) -> (r:
    Vec<Vec<char>>)
    ensures
        views(r@) == spec_comment_block(
            views(lines@),
            min_line as int,
            item_start_line as int,
            CommentStyle::Plain,
        ),
{
    extract_comment_block(lines, min_line, item_start_line, CommentStyle::Plain)
}

/// `//!` comment lines directly above an item.
pub fn extract_module_doc_comments(
    lines: &Vec<Vec<char>>,
    min_line: usize,
    item_start_line: usize,
) -> (r: Vec<Vec<char>>)
    ensures
        views(r@) == spec_comment_block(
            views(lines@),
            min_line as int,
            item_start_line as int,
            CommentStyle::ModuleDoc,
        ),
{
    extract_comment_block(lines, min_line, item_start_line, CommentStyle::ModuleDoc)
}

/// The strings of the given character lines.
pub fn strings_of(v: &Vec<Vec<char>>) -> (r: Vec<String>)
    ensures
        r.deep_view() == views(v@),
{
    let mut r: Vec<String> = Vec::new();
    let mut i: usize = 0;
    while i < v.len()
        invariant
            i <= v@.len(),
            r.deep_view() == views(v@.take(i as int)),
        decreases v.len() - i,
    {
        let ghost before = r.deep_view();
        let s = string_of(v[i].as_slice());
        r.push(s);
        assert(r.deep_view() =~= before.push(v@[i as int]@));
        assert(views(v@.take(i + 1)) =~= views(v@.take(i as int)).push(v@[i as int]@));
        i = i + 1;
    }
    assert(v@.take(i as int) =~= v@);
    r
}

/// The first line of an item, at least 1.
pub open spec fn clamp_start(h: ItemHeader) -> int {
    if h.start_line >= 1 {
        h.start_line as int
    } else {
        1
    }
}

/// The last line of an item, not before its first.
pub open spec fn clamp_end(h: ItemHeader) -> int {
    if h.end_line >= clamp_start(h) {
        h.end_line as int
    } else {
        clamp_start(h)
    }
}

/// The line after the item, saturating at the largest line number.
pub open spec fn line_after(h: ItemHeader) -> int {
    if clamp_end(h) < usize::MAX {
        clamp_end(h) + 1
    } else {
        usize::MAX as int
    }
}

/// The existing lines `start..=end` (1-based).
pub open spec fn source_lines(ls: Seq<Seq<char>>, start: int, end: int) -> Seq<Seq<char>> {
    if start - 1 >= ls.len() {
        seq![]
    } else if end <= ls.len() {
        ls.subrange(start - 1, end)
    } else {
        ls.subrange(start - 1, ls.len() as int)
    }
}

/// The line after the previous item and the pending module doc comments, before item `k`.
pub open spec fn segment_state(headers: Seq<ItemHeader>, ls: Seq<Seq<char>>, k: nat) -> (
    int,
    Seq<Seq<char>>,
)
    decreases k,
{
    if k == 0 {
        (1, seq![])
    } else {
        let (prev, pending) = segment_state(headers, ls, (k - 1) as nat);
        let h = headers[k - 1];
        let docs = spec_comment_block(ls, prev, clamp_start(h), CommentStyle::ModuleDoc);
        (line_after(h), if h.kind == ItemKind::Mod {
            seq![]
        } else {
            pending + docs
        })
    }
}

/// The segment built for item `h`, given the line after the previous item and the
/// module doc comments still pending.
pub open spec fn segment_built(
    seg: ItemSegment,
    h: ItemHeader,
    ls: Seq<Seq<char>>,
    prev: int,
    pending: Seq<Seq<char>>,
) -> bool {
    let start = clamp_start(h);
    let docs = spec_comment_block(ls, prev, start, CommentStyle::ModuleDoc);
    &&& seg.kind == h.kind
    &&& seg.name == h.name
    &&& seg.impl_target == h.impl_target
    &&& seg.cfg_test == h.cfg_test
    &&& seg.leading_comments.deep_view() == spec_comment_block(
        ls,
        prev,
        start,
        CommentStyle::Plain,
    )
    &&& seg.module_doc_comments.deep_view() == (if h.kind == ItemKind::Mod {
        pending + docs
    } else {
        seq![]
    })
    &&& seg.source@ == joined(source_lines(ls, start, clamp_end(h)))
}

fn copy_lines(lines: &Vec<Vec<char>>, start: usize, end: usize) -> (r: Vec<Vec<char>>)
    requires
        1 <= start <= end,
    ensures
        views(r@) == source_lines(views(lines@), start as int, end as int),
{
    let ghost ls = views(lines@);
    let mut r: Vec<Vec<char>> = Vec::new();
    if start - 1 >= lines.len() {
        assert(views(r@) =~= Seq::<Seq<char>>::empty());
        return r;
    }
    let stop = if end <= lines.len() {
        end
    } else {
        lines.len()
    };
    let mut i = start - 1;
    while i < stop
        invariant
            1 <= start,
            start - 1 <= i <= stop,
            stop <= lines@.len(),
            ls == views(lines@),
            ls.len() == lines@.len(),
            views(r@) == ls.subrange(start - 1, i as int),
        decreases stop - i,
    {
        let line = slice_chars(lines[i].as_slice(), 0, lines[i].len());
        assert(line@ =~= lines@[i as int]@);
        let ghost before = views(r@);
        let ghost lv = line@;
        r.push(line);
        assert(views(r@) =~= before.push(lv));
        assert(ls[i as int] == lines@[i as int]@);
        assert(i + 1 <= ls.len());
        let ghost a = start - 1;
        assert(ls.subrange(a, i + 1) =~= ls.subrange(a, i as int).push(ls[i as int]));
        i = i + 1;
    }
    r
}

pub proof fn lemma_segment_state_step(headers: Seq<ItemHeader>, ls: Seq<Seq<char>>, k: nat)
    requires
        k < headers.len(),
    ensures
        segment_state(headers, ls, k + 1) == ({
            let (prev, pending) = segment_state(headers, ls, k);
            let h = headers[k as int];
            let docs = spec_comment_block(ls, prev, clamp_start(h), CommentStyle::ModuleDoc);
            (line_after(h), if h.kind == ItemKind::Mod {
                seq![]
            } else {
                pending + docs
            })
        }),
{
}

/// Cuts the source into one segment per item: its kind and names, its source lines, the
/// plain comments right above it, and for a module the `//!` comments gathered since the
/// previous module.
pub fn segment_items(headers: Vec<ItemHeader>, source: &str) -> (r: Vec<ItemSegment>)
    ensures
        r@.len() == headers@.len(),
        forall|k: int|
            0 <= k < r@.len() ==> segment_built(
                #[trigger] r@[k],
                headers@[k],
                spec_lines(source@),
                segment_state(headers@, spec_lines(source@), k as nat).0,
                segment_state(headers@, spec_lines(source@), k as nat).1,
            ),
{
    let ghost hs = headers@;
    let src = chars_of(source);
    let lines = split_lines(src.as_slice());
    let ghost ls = views(lines@);
    let mut headers = headers;
    let mut prev_end_line: usize = 1;
    let mut pending: Vec<Vec<char>> = Vec::new();
    let mut segments: Vec<ItemSegment> = Vec::new();
    let mut k: usize = 0;
    let total = headers.len();
    assert(hs.skip(0) =~= hs);
    while headers.len() > 0
        invariant
            total == hs.len(),
            ls == spec_lines(source@),
            ls == views(lines@),
            k <= hs.len(),
            headers@ == hs.skip(k as int),
            segments@.len() == k,
            prev_end_line as int == segment_state(hs, ls, k as nat).0,
            views(pending@) == segment_state(hs, ls, k as nat).1,
            forall|j: int|
                0 <= j < k ==> segment_built(
                    #[trigger] segments@[j],
                    hs[j],
                    ls,
                    segment_state(hs, ls, j as nat).0,
                    segment_state(hs, ls, j as nat).1,
                ),
        decreases headers.len(),
    {
        let item = headers.remove(0);
        assert(item == hs[k as int]);
        assert(headers@ =~= hs.skip(k + 1));
        proof {
            lemma_segment_state_step(hs, ls, k as nat);
        }
        let start_line = if item.start_line >= 1 {
            item.start_line
        } else {
            1
        };
        let end_line = if item.end_line >= start_line {
            item.end_line
        } else {
            start_line
        };
        let leading = extract_leading_comments(&lines, prev_end_line, start_line);
        let docs = extract_module_doc_comments(&lines, prev_end_line, start_line);
        let ghost pending_before = views(pending@);
        let module_docs = match item.kind {
            ItemKind::Mod => {
                let mut all = pending;
                let mut d = docs;
                all.append(&mut d);
                pending = Vec::new();
                all
            },
            _ => {
                let mut d = docs;
                pending.append(&mut d);
                Vec::new()
            },
        };
        proof {
            assert(views(module_docs@) =~= (if item.kind == ItemKind::Mod {
                pending_before + views(docs@)
            } else {
                Seq::<Seq<char>>::empty()
            }));
            assert(views(pending@) =~= (if item.kind == ItemKind::Mod {
                Seq::<Seq<char>>::empty()
            } else {
                pending_before + views(docs@)
            }));
        }
        let source_lines_v = copy_lines(&lines, start_line, end_line);
        let text = join_lines(&source_lines_v);
        let segment = ItemSegment {
            kind: item.kind,
            name: item.name,
            impl_target: item.impl_target,
            cfg_test: item.cfg_test,
            leading_comments: strings_of(&leading),
            module_doc_comments: strings_of(&module_docs),
            source: string_of(text.as_slice()),
        };
        segments.push(segment);
        prev_end_line = if end_line < usize::MAX {
            end_line + 1
        } else {
            usize::MAX
        };
        k = k + 1;
    }
    segments
}

} // verus!
