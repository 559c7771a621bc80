//! Turning a parsed file into its normalized form.
use vstd::prelude::*;

use crate::config::{MoveSelection, NormalizeConfig};
use crate::model::{ItemHeader, ItemSegment, NormalizedFile};
use crate::ordering::{reorder_items, spec_reorder_items};
use crate::segment::{segment_built, segment_items, segment_state};
use crate::syntax::{
    describe_item, file_attr_count, file_attr_plain, preamble_printable, syn_inner_attr_plain, file_shebang, header_reads, item_count, opt_str_view,
    parse_source, printed_preamble, reading_cfg_test, reading_name, reading_target,
    syn_file_error, syn_file_head, syn_items, unparse_preamble, ItemReading, ParsedSource,
};
use crate::text::spec_lines;
use vstd::string::StringExecFns;

verus! {

/// `segs` are the segments cut from the lines `ls` for the items `hs`.
pub open spec fn segments_of(segs: Seq<ItemSegment>, hs: Seq<ItemHeader>, ls: Seq<Seq<char>>) -> bool {
    &&& segs.len() == hs.len()
    &&& forall|k: int|
        0 <= k < segs.len() ==> segment_built(
            #[trigger] segs[k],
            hs[k],
            ls,
            segment_state(hs, ls, k as nat).0,
            segment_state(hs, ls, k as nat).1,
        )
}

/// Each header says what the matching item reading gives.
pub open spec fn reads_all(hs: Seq<ItemHeader>, rds: Seq<ItemReading>) -> bool {
    &&& hs.len() == rds.len()
    &&& forall|k: int| 0 <= k < hs.len() ==> header_reads(#[trigger] hs[k], rds[k])
}

/// The printed shebang and crate attributes of the file parsed from `text`, if it has any.
pub open spec fn spec_preamble(text: Seq<char>) -> Option<Seq<char>> {
    if syn_file_head(text).0 is Some || syn_file_head(text).1 > 0 {
        Some(printed_preamble(text))
    } else {
        None
    }
}

/// `segs` are the segments of the file parsed from `text`: cut from its lines for headers
/// that say what its items read as.
pub open spec fn segments_of_text(segs: Seq<ItemSegment>, text: Seq<char>) -> bool {
    exists|hs: Seq<ItemHeader>|
        #![trigger segments_of(segs, hs, spec_lines(text))]
        reads_all(hs, syn_items(text)) && segments_of(segs, hs, spec_lines(text))
}

/// A parsed file, kept with the text it was parsed from.
pub struct Normalizer {
    source: ParsedSource,
}

impl Normalizer {
    /// The text the file was parsed from.
    pub closed spec fn source_text(&self) -> Seq<char> {
        self.source.text()
    }

    pub fn new(source: ParsedSource) -> (r: Self)
        ensures
            r.source_text() == source.text(),
    {
        Normalizer { source }
    }

    /// Parses a source text; fails with `syn`'s message when it does not parse.
    pub fn parse(src: &str) -> (r: Result<Self, String>)
        ensures
            r is Ok <==> syn_file_error(src@) is None,
            r matches Err(e) ==> syn_file_error(src@) == Some(e@),
            r matches Ok(n) ==> n.source_text() == src@,
    {
        match parse_source(src) {
            Ok(p) => Ok(Normalizer { source: p }),
            Err(e) => Err(e),
        }
    }

    /// Whether the file's crate attributes can be printed (all of them are plain).
    pub fn can_print_preamble(&self) -> (r: bool)
        ensures
            r == preamble_printable(self.source_text()),
    {
        let n = file_attr_count(&self.source);
        let mut j: usize = 0;
        while j < n
            invariant
                n == syn_file_head(self.source.text()).1,
                j <= n,
                forall|k: int| 0 <= k < j ==> #[trigger] syn_inner_attr_plain(self.source.text(), k),
            decreases n - j,
        {
            if !file_attr_plain(&self.source, j) {
                return false;
            }
            j = j + 1;
        }
        true
    }

    /// Cuts the file into item segments, reorders them as the selection asks, and prints
    /// its crate attributes.
    pub fn normalize(self, config: &NormalizeConfig, selection: &MoveSelection) -> (r:
        NormalizedFile)
        requires
            preamble_printable(self.source_text()),
        ensures
            opt_str_view(r.preamble) == spec_preamble(self.source_text()),
            exists|segs: Seq<ItemSegment>|
                #![trigger segments_of_text(segs, self.source_text())]
                segments_of_text(segs, self.source_text()) && r.items@ == spec_reorder_items(
                    segs,
                    *config,
                    *selection,
                ),
    {
        let ghost text = self.source_text();
        let p = self.source;
        let n = item_count(&p);
        let mut headers: Vec<ItemHeader> = Vec::new();
        let mut i: usize = 0;
        while i < n
            invariant
                n == syn_items(p.text()).len(),
                i <= n,
                headers@.len() == i,
                forall|k: int| 0 <= k < i ==> header_reads(#[trigger] headers@[k], syn_items(p.text())[k]),
            decreases n - i,
        {
            headers.push(describe_item(&p, i));
            i = i + 1;
        }
        let ghost hs = headers@;
        assert(reads_all(hs, syn_items(text)));
        let segments = segment_items(headers, p.text_str());
        let ghost segs = segments@;
        assert(segments_of(segs, hs, spec_lines(text)));
        assert(segments_of_text(segs, text));
        let items = reorder_items(segments, config, selection);
        let shebang = file_shebang(&p);
        let attr_count = file_attr_count(&p);
        let preamble = if shebang.is_some() || attr_count > 0 {
            Some(unparse_preamble(&p))
        } else {
            None
        };
        NormalizedFile { preamble, items }
    }
}

impl ItemSegment {
    /// The segment of a source text holding a single item, with no comments attached.
    pub fn from_source(src: &str) -> (r: Result<ItemSegment, String>)
        ensures
            r is Ok <==> syn_file_error(src@) is None && syn_items(src@).len() == 1,
            r matches Err(e) ==> (syn_file_error(src@) == Some(e@) || (syn_file_error(src@) is None
                && e@ == "expected a single item"@)),
            r matches Ok(seg) ==> {
                &&& seg.source@ == src@
                &&& seg.leading_comments@.len() == 0
                &&& seg.module_doc_comments@.len() == 0
                &&& seg.kind == syn_items(src@)[0].kind
                &&& opt_str_view(seg.name) == reading_name(syn_items(src@)[0])
                &&& opt_str_view(seg.impl_target) == reading_target(syn_items(src@)[0])
                &&& seg.cfg_test == reading_cfg_test(syn_items(src@)[0])
            },
    {
        let p = match parse_source(src) {
            Ok(p) => p,
            Err(e) => return Err(e),
        };
        if item_count(&p) != 1 {
            return Err(String::from_str("expected a single item"));
        }
        let header = describe_item(&p, 0);
        Ok(
            ItemSegment {
                kind: header.kind,
                name: header.name,
                impl_target: header.impl_target,
                cfg_test: header.cfg_test,
                leading_comments: Vec::new(),
                module_doc_comments: Vec::new(),
                source: String::from_str(src),
            },
        )
    }
}

} // verus!
