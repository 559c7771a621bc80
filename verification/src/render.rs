//! Writing a normalized file back out as text.
use vstd::prelude::*;

use crate::config::NormalizeConfig;
use crate::model::{name_is, ItemKind, ItemSegment, NormalizedFile};
use crate::spacing::{normalize_crate_attribute_layout, spec_crate_attribute_layout};
use crate::text::{
    chars_of, is_blank, push_all, string_of, strip_trailing_newlines, terminated, trim,
    trim_end, trim_newlines, trimmed, trimmed_end, views,
};

verus! {

/// A `#[cfg(test)] mod tests`, which is written last.
pub open spec fn is_test_block(seg: ItemSegment) -> bool {
    seg.kind == ItemKind::Mod && name_is(seg.name, "tests"@) && seg.cfg_test
}

/// The items that are not test modules, in order.
pub open spec fn body_items(s: Seq<ItemSegment>) -> Seq<ItemSegment>
    decreases s.len(),
{
    if s.len() == 0 {
        s
    } else if is_test_block(s.last()) {
        body_items(s.drop_last())
    } else {
        body_items(s.drop_last()).push(s.last())
    }
}

/// The test modules, in order.
pub open spec fn test_items(s: Seq<ItemSegment>) -> Seq<ItemSegment>
    decreases s.len(),
{
    if s.len() == 0 {
        s
    } else if is_test_block(s.last()) {
        test_items(s.drop_last()).push(s.last())
    } else {
        test_items(s.drop_last())
    }
}

/// An item's text: its module doc comments, its leading comments, and its source without
/// trailing whitespace, each line ended by a newline.
pub open spec fn block_text(seg: ItemSegment) -> Seq<char> {
    terminated(seg.module_doc_comments.deep_view()) + terminated(seg.leading_comments.deep_view())
        + trim_end(seg.source@) + seq!['\n']
}

/// Consecutive items of one compactable group with compaction enabled share a block.
pub open spec fn compact_pair(prev: ItemSegment, cur: ItemSegment, config: NormalizeConfig) -> bool {
    ||| prev.kind == ItemKind::Use && cur.kind == ItemKind::Use && config.compact_use_block
    ||| (prev.kind == ItemKind::Const || prev.kind == ItemKind::Static) && (cur.kind
        == ItemKind::Const || cur.kind == ItemKind::Static) && config.compact_const_block
    ||| prev.kind == ItemKind::Mod && cur.kind == ItemKind::Mod && config.compact_mod_block
}

/// The items written in order, a blank line between two items unless they share a block.
pub open spec fn body_text(items: Seq<ItemSegment>, config: NormalizeConfig) -> Seq<char>
    decreases items.len(),
{
    if items.len() == 0 {
        seq![]
    } else if items.len() == 1 {
        block_text(items[0])
    } else {
        body_text(items.drop_last(), config) + (if compact_pair(
            items[items.len() - 2],
            items.last(),
            config,
        ) {
            seq![]
        } else {
            seq!['\n']
        }) + block_text(items.last())
    }
}

/// The test modules appended, each after a blank line if anything precedes it.
pub open spec fn append_tests(acc: Seq<char>, tests: Seq<ItemSegment>) -> Seq<char>
    decreases tests.len(),
{
    if tests.len() == 0 {
        acc
    } else {
        let a = if !is_blank(acc) {
            acc + seq!['\n']
        } else {
            acc
        };
        append_tests(a + block_text(tests[0]), tests.drop_first())
    }
}

/// The opening comment with the file's relative path, when configured.
pub open spec fn path_comment(config: NormalizeConfig, relative_path: Option<Seq<char>>) -> Seq<char> {
    if config.relative_path_comment {
        match relative_path {
            Some(p) => "// "@ + p + seq!['\n'],
            None => "// [RELATIVE_PATH_UNKNOWN]\n"@,
        }
    } else {
        seq![]
    }
}

/// The printed crate attributes, followed by a blank line, unless they print as blank.
pub open spec fn preamble_text(preamble: Option<Seq<char>>) -> Seq<char> {
    match preamble {
        Some(p) => if trim(p).len() > 0 {
            trim_end(p) + seq!['\n', '\n']
        } else {
            seq![]
        },
        None => seq![],
    }
}

/// The rendered file: path comment, crate attributes, the items in order, then the test
/// modules; ending in exactly one newline.
pub open spec fn spec_render(
    preamble: Option<Seq<char>>,
    items: Seq<ItemSegment>,
    config: NormalizeConfig,
    relative_path: Option<Seq<char>>,
) -> Seq<char> {
    let head = path_comment(config, relative_path) + preamble_text(preamble);
    let body = head + body_text(body_items(items), config);
    trim_newlines(append_tests(body, test_items(items))) + seq!['\n']
}

pub proof fn lemma_pick_render_push(s: Seq<ItemSegment>, x: ItemSegment)
    ensures
        body_items(s.push(x)) == (if is_test_block(x) {
            body_items(s)
        } else {
            body_items(s).push(x)
        }),
        test_items(s.push(x)) == (if is_test_block(x) {
            test_items(s).push(x)
        } else {
            test_items(s)
        }),
{
    assert(s.push(x).drop_last() =~= s);
}

fn is_test_block_exec(seg: &ItemSegment) -> (r: bool)
    ensures
        r == is_test_block(*seg),
{
    let key = chars_of("tests");
    let named = match &seg.name {
        Some(n) => {
            let c = chars_of(n.as_str());
            crate::text::same_chars(c.as_slice(), key.as_slice())
        },
        None => false,
    };
    seg.kind == ItemKind::Mod && named && seg.cfg_test
}

fn push_terminated(out: &mut Vec<char>, lines: &Vec<String>)
    ensures
        final(out)@ == old(out)@ + terminated(lines.deep_view()),
{
    let ghost start = out@;
    let mut i: usize = 0;
    assert(lines.deep_view().take(0) =~= Seq::<Seq<char>>::empty());
    while i < lines.len()
        invariant
            i <= lines@.len(),
            out@ == start + terminated(lines.deep_view().take(i as int)),
        decreases lines.len() - i,
    {
        let c = chars_of(lines[i].as_str());
        push_all(out, c.as_slice());
        out.push('\n');
        proof {
            let t = lines.deep_view().take(i + 1);
            assert(t.drop_last() =~= lines.deep_view().take(i as int));
            assert(t.last() == lines@[i as int]@);
        }
        i = i + 1;
    }
    assert(lines.deep_view().take(i as int) =~= lines.deep_view());
}

fn push_block(out: &mut Vec<char>, seg: &ItemSegment)
    ensures
        final(out)@ == old(out)@ + block_text(*seg),
{
    let ghost start = out@;
    push_terminated(out, &seg.module_doc_comments);
    push_terminated(out, &seg.leading_comments);
    let src = chars_of(seg.source.as_str());
    let t = trimmed_end(src.as_slice());
    push_all(out, t.as_slice());
    out.push('\n');
    assert(out@ =~= start + block_text(*seg));
}

fn compact_pair_exec(prev: &ItemSegment, cur: &ItemSegment, config: &NormalizeConfig) -> (r: bool)
    ensures
        r == compact_pair(*prev, *cur, *config),
{
    let prev_const = prev.kind == ItemKind::Const || prev.kind == ItemKind::Static;
    let cur_const = cur.kind == ItemKind::Const || cur.kind == ItemKind::Static;
    (prev.kind == ItemKind::Use && cur.kind == ItemKind::Use && config.compact_use_block) || (
    prev_const && cur_const && config.compact_const_block) || (prev.kind == ItemKind::Mod
        && cur.kind == ItemKind::Mod && config.compact_mod_block)
}

/// Writes items after an optional printed preamble: the items that are not test modules
/// in order, blank lines between them except inside compacted groups, then the test
/// modules.
pub fn render_items(
    preamble: Option<&str>,
    items: &Vec<ItemSegment>,
    config: &NormalizeConfig,
    relative_path: Option<&str>,
) -> (r: String)
    ensures
        r@ == spec_render(
            match preamble {
                Some(p) => Some(p@),
                None => None,
            },
            items@,
            *config,
            match relative_path {
                Some(p) => Some(p@),
                None => None,
            },
        ),
{
    let mut out: Vec<char> = Vec::new();
    if config.relative_path_comment {
        match relative_path {
            Some(p) => {
                let open = chars_of("// ");
                push_all(&mut out, open.as_slice());
                let c = chars_of(p);
                push_all(&mut out, c.as_slice());
                out.push('\n');
            },
            None => {
                let c = chars_of("// [RELATIVE_PATH_UNKNOWN]\n");
                push_all(&mut out, c.as_slice());
            },
        }
    }
    match preamble {
        Some(p) => {
            let c = chars_of(p);
            let t = trimmed(c.as_slice());
            if t.len() > 0 {
                let e = trimmed_end(c.as_slice());
                push_all(&mut out, e.as_slice());
                out.push('\n');
                out.push('\n');
            }
        },
        None => {},
    }
    let ghost pre_v = match preamble {
        Some(p) => Some(p@),
        None => None,
    };
    let ghost rel_v = match relative_path {
        Some(p) => Some(p@),
        None => None,
    };
    let ghost head = path_comment(*config, rel_v) + preamble_text(pre_v);
    assert(out@ =~= head);
    let mut last_body: Option<usize> = None;
    let mut i: usize = 0;
    assert(items@.take(0) =~= Seq::<ItemSegment>::empty());
    while i < items.len()
        invariant
            i <= items@.len(),
            out@ == head + body_text(body_items(items@.take(i as int)), *config),
            match last_body {
                Some(k) => k < i && body_items(items@.take(i as int)).len() > 0 && body_items(
                    items@.take(i as int),
                ).last() == items@[k as int],
                None => body_items(items@.take(i as int)).len() == 0,
            },
        decreases items.len() - i,
    {
        proof {
            assert(items@.take(i + 1) =~= items@.take(i as int).push(items@[i as int]));
            lemma_pick_render_push(items@.take(i as int), items@[i as int]);
        }
        let seg = &items[i];
        if !is_test_block_exec(seg) {
            let ghost b = body_items(items@.take(i as int));
            let ghost before = out@;
            match last_body {
                Some(k) => {
                    if !compact_pair_exec(&items[k], seg, config) {
                        out.push('\n');
                    }
                },
                None => {},
            }
            push_block(&mut out, seg);
            proof {
                let nb = b.push(items@[i as int]);
                assert(nb.drop_last() =~= b);
                if b.len() > 0 {
                    assert(nb[nb.len() - 2] == b.last());
                    assert(out@ =~= head + body_text(nb, *config));
                } else {
                    assert(body_text(b, *config) =~= Seq::<char>::empty());
                    assert(out@ =~= head + body_text(nb, *config));
                }
            }
            last_body = Some(i);
        }
        i = i + 1;
    }
    assert(items@.take(i as int) =~= items@);
    let ghost body = out@;
    let mut j: usize = 0;
    assert(items@.take(0) =~= Seq::<ItemSegment>::empty());
    while j < items.len()
        invariant
            j <= items@.len(),
            body == head + body_text(body_items(items@), *config),
            append_tests(body, test_items(items@)) == append_tests(
                out@,
                test_items(items@.skip(j as int)),
            ),
        decreases items.len() - j,
    {
        proof {
            lemma_test_items_skip(items@, j as int);
        }
        let seg = &items[j];
        proof {
            let ts = test_items(items@.skip(j as int));
            if is_test_block(items@[j as int]) {
                assert(ts[0] == items@[j as int]);
                assert(ts.drop_first() =~= test_items(items@.skip(j + 1)));
            }
        }
        if is_test_block_exec(seg) {
            let ghost before = out@;
            let blank_so_far = crate::text::blank(out.as_slice());
            if !blank_so_far {
                out.push('\n');
            }
            push_block(&mut out, seg);
            proof {
                let a = if !is_blank(before) {
                    before + seq!['\n']
                } else {
                    before
                };
                assert(out@ =~= a + block_text(items@[j as int]));
            }
        }
        j = j + 1;
    }
    proof {
        assert(items@.skip(j as int) =~= Seq::<ItemSegment>::empty());
        assert(test_items(Seq::<ItemSegment>::empty()) =~= Seq::<ItemSegment>::empty());
    }
    let mut out = strip_trailing_newlines(out);
    out.push('\n');
    string_of(out.as_slice())
}

pub proof fn lemma_test_items_prepend(x: ItemSegment, s: Seq<ItemSegment>)
    ensures
        test_items(seq![x] + s) == (if is_test_block(x) {
            seq![x] + test_items(s)
        } else {
            test_items(s)
        }),
    decreases s.len(),
{
    let xs = seq![x] + s;
    if s.len() == 0 {
        assert(xs.drop_last() =~= s);
        assert(s.push(x) =~= seq![x] + s);
    } else {
        lemma_test_items_prepend(x, s.drop_last());
        assert(xs.drop_last() =~= seq![x] + s.drop_last());
        if is_test_block(x) {
            assert(seq![x] + test_items(s.drop_last()).push(s.last()) =~= (seq![x] + test_items(
                s.drop_last(),
            )).push(s.last()));
        }
    }
}

pub proof fn lemma_test_items_skip(s: Seq<ItemSegment>, j: int)
    requires
        0 <= j < s.len(),
    ensures
        test_items(s.skip(j)) == (if is_test_block(s[j]) {
            seq![s[j]] + test_items(s.skip(j + 1))
        } else {
            test_items(s.skip(j + 1))
        }),
{
    assert(s.skip(j) =~= seq![s[j]] + s.skip(j + 1));
    lemma_test_items_prepend(s[j], s.skip(j + 1));
}

/// Writes a normalized file: optional path comment, the crate attributes as printed, then
/// the items.
pub fn render_segments(
    normalized: NormalizedFile,
    config: &NormalizeConfig,
    relative_path: Option<&str>,
) -> (r: String)
    ensures
        r@ == spec_render(
            match normalized.preamble {
                Some(p) => Some(spec_crate_attribute_layout(p@)),
                None => None,
            },
            normalized.items@,
            *config,
            match relative_path {
                Some(p) => Some(p@),
                None => None,
            },
        ),
{
    let NormalizedFile { preamble, items } = normalized;
    match preamble {
        Some(printed) => {
            let laid_out = normalize_crate_attribute_layout(printed.as_str());
            render_items(Some(laid_out.as_str()), &items, config, relative_path)
        },
        None => render_items(None, &items, config, relative_path),
    }
}

} // verus!
