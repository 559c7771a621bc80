//! The parser and printer boundary: `syn` parses source text, `prettyplease` prints the
//! crate attributes. What the library needs from the parsed file is read out here into
//! plain values, each named as a function of the source text.
use syn::spanned::Spanned;
use syn::Item;
use vstd::prelude::*;

use crate::model::{name_is, ItemHeader, ItemKind};
use crate::text::chars_of;

verus! {

#[verifier::external_type_specification]
#[verifier::external_body]
pub struct ExFile(syn::File);

/// A source text together with the file `syn::parse_file` parsed from it; only
/// `parse_source` makes one.
pub struct ParsedSource {
    text: String,
    file: syn::File,
}

impl ParsedSource {
    /// The text the file was parsed from.
    pub closed spec fn text(&self) -> Seq<char> {
        self.text@
    }

    /// The text the file was parsed from.
    pub fn text_str(&self) -> (r: &str)
        ensures
            r@ == self.text(),
    {
        self.text.as_str()
    }
}

/// What an impl's header reads as: whether it implements a trait, and, when its self type
/// is a path, whether that path has a qualified self part and its last segment.
pub struct ImplReading {
    pub has_trait: bool,
    pub self_path: Option<(bool, Option<Seq<char>>)>,
}

/// What an attribute reads as: its path as a single identifier, and the paths of the
/// nested metas `Attribute::parse_nested_meta` visits (up to the first it cannot parse),
/// each as a single identifier.
pub struct AttrReading {
    pub path_ident: Option<Seq<char>>,
    pub nested: Seq<Option<Seq<char>>>,
}

/// What an item reads as: its kind; the identifier of a struct, enum, union or module;
/// the header of an impl; the outer attributes of a module; the first and last source line
/// its span covers.
pub struct ItemReading {
    pub kind: ItemKind,
    pub ident: Option<Seq<char>>,
    pub impl_header: Option<ImplReading>,
    pub attrs: Seq<AttrReading>,
    pub start_line: usize,
    pub end_line: usize,
}

/// The error message `syn::parse_file` reports for a source text, or none if it parses.
pub uninterp spec fn syn_file_error(src: Seq<char>) -> Option<Seq<char>>;

/// The items `syn::parse_file` gives for a source text, read field by field.
pub uninterp spec fn syn_items(src: Seq<char>) -> Seq<ItemReading>;

/// The shebang `syn::parse_file` gives for a source text, and how many inner attributes.
pub uninterp spec fn syn_file_head(src: Seq<char>) -> (Option<Seq<char>>, nat);

/// Whether inner attribute `j` of the file `syn::parse_file` gives for a source text is a
/// path, a list, or a name whose value is a literal or a macro call (`Attribute::meta`).
pub uninterp spec fn syn_inner_attr_plain(src: Seq<char>, j: int) -> bool;

/// Every inner attribute of the file parsed from `text` is plain: `prettyplease` prints
/// such attributes without printing an expression, which it cannot do for every
/// expression `syn` accepts (verbatim ones, without its `verbatim` feature).
pub open spec fn preamble_printable(text: Seq<char>) -> bool {
    forall|j: int| 0 <= j < syn_file_head(text).1 ==> #[trigger] syn_inner_attr_plain(text, j)
}

/// What `prettyplease::unparse` prints for the shebang and inner attributes of the file
/// `syn::parse_file` gives for a source text, without its items.
pub uninterp spec fn printed_preamble(src: Seq<char>) -> Seq<char>;

pub open spec fn opt_str_view(o: Option<String>) -> Option<Seq<char>> {
    match o {
        Some(s) => Some(s@),
        None => None,
    }
}

pub open spec fn opt_views(v: Seq<Option<String>>) -> Seq<Option<Seq<char>>> {
    Seq::new(v.len(), |k: int| opt_str_view(v[k]))
}

pub open spec fn impl_view(h: Option<ImplHeader>) -> Option<ImplReading> {
    match h {
        Some(h) => Some(
            ImplReading {
                has_trait: h.has_trait,
                self_path: match h.self_path {
                    Some(p) => Some((p.qualified, opt_str_view(p.last_ident))),
                    None => None,
                },
            },
        ),
        None => None,
    }
}

/// The items of the parsed file, item `i` of them.
pub open spec fn reading(p: &ParsedSource, i: int) -> ItemReading {
    syn_items(p.text())[i]
}

/// Parses a source file with `syn::parse_file`.
///
/// Trusted: whether the text parses, and the error message when it does not, are
/// named by `syn_file_error`; the parsed file is kept with the text it came from.
#[verifier::external_body]
pub(crate) fn parse_source(src: &str) -> (r: Result<ParsedSource, String>)
    ensures
        r is Ok <==> syn_file_error(src@) is None,
        r matches Err(e) ==> syn_file_error(src@) == Some(e@),
        r matches Ok(p) ==> p.text() == src@,
{
    match syn::parse_file(src) {
        Ok(file) => Ok(ParsedSource { text: src.to_string(), file }),
        Err(err) => Err(err.to_string()),
    }
}

/// The number of items of the parsed file (`File::items`).
#[verifier::external_body]
pub(crate) fn item_count(p: &ParsedSource) -> (r: usize)
    ensures
        r == syn_items(p.text()).len(),
{
    p.file.items.len()
}

/// The shebang of the parsed file (`File::shebang`).
#[verifier::external_body]
pub(crate) fn file_shebang(p: &ParsedSource) -> (r: Option<String>)
    ensures
        opt_str_view(r) == syn_file_head(p.text()).0,
{
    p.file.shebang.clone()
}

/// The number of inner attributes of the parsed file (`File::attrs`).
#[verifier::external_body]
pub(crate) fn file_attr_count(p: &ParsedSource) -> (r: usize)
    ensures
        r == syn_file_head(p.text()).1,
{
    p.file.attrs.len()
}

/// The shebang and inner attributes of the parsed file printed by `prettyplease::unparse`
/// as a file without items.
/// Whether inner attribute `j` of the parsed file is a path, a list, or a name whose value
/// is a literal or a macro call (`Attribute::meta`, told apart by its variants).
#[verifier::external_body]
pub(crate) fn file_attr_plain(p: &ParsedSource, j: usize) -> (r: bool)
    requires
        j < syn_file_head(p.text()).1,
    ensures
        r == syn_inner_attr_plain(p.text(), j as int),
{
    match &p.file.attrs[j].meta {
        syn::Meta::Path(_) => true,
        syn::Meta::List(_) => true,
        syn::Meta::NameValue(m) => matches!(m.value, syn::Expr::Lit(_) | syn::Expr::Macro(_)),
    }
}

/// Trusted: `prettyplease` prints plain attributes without panicking (paths by their
/// segments, lists and macro calls by their tokens, literals as their token); what it
/// prints is named by `printed_preamble`.
#[verifier::external_body]
pub(crate) fn unparse_preamble(p: &ParsedSource) -> (r: String)
    requires
        preamble_printable(p.text()),
    ensures
        r@ == printed_preamble(p.text()),
{
    let shebang = p.file.shebang.clone();
    prettyplease::unparse(&syn::File { shebang, attrs: p.file.attrs.clone(), items: Vec::new() })
}

/// The variant of item `i`.
#[verifier::external_body]
pub(crate) fn item_kind(p: &ParsedSource, i: usize) -> (r: ItemKind)
    requires
        i < syn_items(p.text()).len(),
    ensures
        r == reading(p, i as int).kind,
{
    match &p.file.items[i] {
        Item::Const(_) => ItemKind::Const, Item::Enum(_) => ItemKind::Enum,
        Item::ExternCrate(_) => ItemKind::ExternCrate, Item::Fn(_) => ItemKind::Fn,
        Item::ForeignMod(_) => ItemKind::ForeignMod, Item::Impl(_) => ItemKind::Impl,
        Item::Macro(_) => ItemKind::Macro, Item::Mod(_) => ItemKind::Mod,
        Item::Static(_) => ItemKind::Static, Item::Struct(_) => ItemKind::Struct,
        Item::Trait(_) => ItemKind::Trait, Item::TraitAlias(_) => ItemKind::TraitAlias,
        Item::Type(_) => ItemKind::Type, Item::Union(_) => ItemKind::Union,
        Item::Use(_) => ItemKind::Use, Item::Verbatim(_) => ItemKind::Verbatim,
        _ => ItemKind::Other,
    }
}

/// The identifier of item `i` if it is a struct, enum, union or module, as
/// `Ident::to_string` prints it.
#[verifier::external_body]
pub(crate) fn item_ident(p: &ParsedSource, i: usize) -> (r: Option<String>)
    requires
        i < syn_items(p.text()).len(),
    ensures
        opt_str_view(r) == reading(p, i as int).ident,
{
    match &p.file.items[i] {
        Item::Struct(x) => Some(x.ident.to_string()),
        Item::Enum(x) => Some(x.ident.to_string()),
        Item::Union(x) => Some(x.ident.to_string()),
        Item::Mod(x) => Some(x.ident.to_string()),
        _ => None,
    }
}

/// The self type of an impl as a path: whether it has a qualified self part, and its
/// last segment.
pub struct SelfPath {
    pub qualified: bool,
    pub last_ident: Option<String>,
}

/// What an impl header says: whether it implements a trait, and its self type when that
/// is a path.
pub struct ImplHeader {
    pub has_trait: bool,
    pub self_path: Option<SelfPath>,
}

/// The header of item `i` if it is an impl (`ItemImpl::trait_` and `ItemImpl::self_ty`).
#[verifier::external_body]
pub(crate) fn impl_header(p: &ParsedSource, i: usize) -> (r: Option<ImplHeader>)
    requires
        i < syn_items(p.text()).len(),
    ensures
        impl_view(r) == reading(p, i as int).impl_header,
{
    match &p.file.items[i] {
        Item::Impl(x) => Some(ImplHeader {
            has_trait: x.trait_.is_some(),
            self_path: match x.self_ty.as_ref() {
                syn::Type::Path(t) => Some(SelfPath {
                    qualified: t.qself.is_some(),
                    last_ident: t.path.segments.last().map(|s| s.ident.to_string()),
                }),
                _ => None,
            },
        }),
        _ => None,
    }
}

/// The number of outer attributes of item `i` if it is a module (`ItemMod::attrs`).
#[verifier::external_body]
pub(crate) fn mod_attr_count(p: &ParsedSource, i: usize) -> (r: usize)
    requires
        i < syn_items(p.text()).len(),
    ensures
        r == reading(p, i as int).attrs.len(),
{
    match &p.file.items[i] {
        Item::Mod(m) => m.attrs.len(),
        _ => 0,
    }
}

/// The path of attribute `j` of module item `i` as a single identifier
/// (`Path::get_ident`), if it is one.
#[verifier::external_body]
pub(crate) fn attr_path_ident(p: &ParsedSource, i: usize, j: usize) -> (r: Option<String>)
    requires
        i < syn_items(p.text()).len(),
        j < reading(p, i as int).attrs.len(),
    ensures
        opt_str_view(r) == reading(p, i as int).attrs[j as int].path_ident,
{
    match &p.file.items[i] {
        Item::Mod(m) => m.attrs[j].path().get_ident().map(|x| x.to_string()),
        _ => None,
    }
}

/// The paths of the nested metas of attribute `j` of module item `i` that
/// `Attribute::parse_nested_meta` visits, each as a single identifier if it is one.
#[verifier::external_body]
pub(crate) fn attr_nested_idents(p: &ParsedSource, i: usize, j: usize) -> (r: Vec<Option<String>>)
    requires
        i < syn_items(p.text()).len(),
        j < reading(p, i as int).attrs.len(),
    ensures
        opt_views(r@) == reading(p, i as int).attrs[j as int].nested,
{
    let mut seen = Vec::new();
    if let Item::Mod(m) = &p.file.items[i] {
        let _ = m.attrs[j].parse_nested_meta(|meta| {
            seen.push(meta.path.get_ident().map(|x| x.to_string()));
            Ok(())
        });
    }
    seen
}

/// The first and last source lines (1-based) that the span of item `i` covers.
#[verifier::external_body]
pub(crate) fn item_line_span(p: &ParsedSource, i: usize) -> (r: (usize, usize))
    requires
        i < syn_items(p.text()).len(),
    ensures
        r.0 == reading(p, i as int).start_line,
        r.1 == reading(p, i as int).end_line,
{
    let span = p.file.items[i].span();
    (span.start().line, span.end().line)
}

/// The last path segment of an inherent impl's self type; none for a trait impl or a
/// self type that is not an unqualified path.
pub fn inherent_impl_target(header: &ImplHeader) -> (r: Option<String>)
    ensures
        header.has_trait ==> r is None,
        !header.has_trait ==> r == (match header.self_path {
            Some(p) => if p.qualified {
                None
            } else {
                p.last_ident
            },
            None => None,
        }),
{
    if header.has_trait {
        return None;
    }
    match &header.self_path {
        Some(p) => if p.qualified {
            None
        } else {
            match &p.last_ident {
                Some(s) => Some(s.clone()),
                None => None,
            }
        },
        None => None,
    }
}

/// `#[cfg(...)]` with `test` among the nested items read before any that does not parse.
pub open spec fn spec_is_cfg_test(path_ident: Option<String>, nested: Seq<Option<String>>) -> bool {
    name_is(path_ident, "cfg"@) && exists|i: int| 0 <= i < nested.len() && name_is(#[trigger] nested[i], "test"@)
}

fn name_equals(name: &Option<String>, key: &Vec<char>) -> (r: bool)
    ensures
        r == name_is(*name, key@),
{
    match name {
        Some(n) => {
            let chars = chars_of(n.as_str());
            crate::text::same_chars(chars.as_slice(), key.as_slice())
        },
        None => false,
    }
}

/// Whether an attribute, given by its path and nested identifiers, is `#[cfg(test)]`.
pub fn attr_is_cfg_test(path_ident: &Option<String>, nested: &Vec<Option<String>>) -> (r: bool)
    ensures
        r == spec_is_cfg_test(*path_ident, nested@),
{
    let cfg = chars_of("cfg");
    if !name_equals(path_ident, &cfg) {
        return false;
    }
    let test = chars_of("test");
    let mut i: usize = 0;
    while i < nested.len()
        invariant
            i <= nested@.len(),
            test@ == "test"@,
            name_is(*path_ident, "cfg"@),
            forall|j: int| 0 <= j < i ==> !name_is(#[trigger] nested@[j], "test"@),
        decreases nested.len() - i,
    {
        if name_equals(&nested[i], &test) {
            return true;
        }
        i = i + 1;
    }
    false
}

/// An attribute reads as `#[cfg(...)]` with `test` among its nested identifiers.
pub open spec fn attr_reads_cfg_test(a: AttrReading) -> bool {
    a.path_ident == Some("cfg"@) && exists|k: int|
        0 <= k < a.nested.len() && #[trigger] a.nested[k] == Some("test"@)
}

/// The declared name an item reading gives: the identifier of a struct, enum, union or
/// module.
pub open spec fn reading_name(rd: ItemReading) -> Option<Seq<char>> {
    if rd.kind == ItemKind::Struct || rd.kind == ItemKind::Enum || rd.kind == ItemKind::Union
        || rd.kind == ItemKind::Mod {
        rd.ident
    } else {
        None
    }
}

/// The inherent impl target an item reading gives: for an impl of no trait whose self type
/// is an unqualified path, the last segment of that path.
pub open spec fn reading_target(rd: ItemReading) -> Option<Seq<char>> {
    if rd.kind == ItemKind::Impl {
        match rd.impl_header {
            Some(h) => if h.has_trait {
                None
            } else {
                match h.self_path {
                    Some(sp) => if sp.0 {
                        None
                    } else {
                        sp.1
                    },
                    None => None,
                }
            },
            None => None,
        }
    } else {
        None
    }
}

/// An item reading is a module with a `#[cfg(test)]` attribute.
pub open spec fn reading_cfg_test(rd: ItemReading) -> bool {
    rd.kind == ItemKind::Mod && exists|j: int|
        0 <= j < rd.attrs.len() && #[trigger] attr_reads_cfg_test(rd.attrs[j])
}

/// The header says what the item reading gives.
pub open spec fn header_reads(h: ItemHeader, rd: ItemReading) -> bool {
    &&& h.kind == rd.kind
    &&& opt_str_view(h.name) == reading_name(rd)
    &&& opt_str_view(h.impl_target) == reading_target(rd)
    &&& h.cfg_test == reading_cfg_test(rd)
    &&& h.start_line == rd.start_line
    &&& h.end_line == rd.end_line
}

proof fn lemma_cfg_test_views(path: Option<String>, nested: Seq<Option<String>>)
    ensures
        spec_is_cfg_test(path, nested) == attr_reads_cfg_test(
            AttrReading { path_ident: opt_str_view(path), nested: opt_views(nested) },
        ),
{
    let a = AttrReading { path_ident: opt_str_view(path), nested: opt_views(nested) };
    if spec_is_cfg_test(path, nested) {
        let k = choose|k: int| 0 <= k < nested.len() && name_is(#[trigger] nested[k], "test"@);
        assert(a.nested[k] == Some("test"@));
    }
    if attr_reads_cfg_test(a) {
        let k = choose|k: int| 0 <= k < a.nested.len() && #[trigger] a.nested[k] == Some("test"@);
        assert(name_is(nested[k], "test"@));
    }
}

/// Whether module item `i` carries a `#[cfg(test)]` attribute.
fn any_cfg_test(p: &ParsedSource, i: usize) -> (r: bool)
    requires
        i < syn_items(p.text()).len(),
    ensures
        r == exists|j: int|
            0 <= j < reading(p, i as int).attrs.len() && #[trigger] attr_reads_cfg_test(
                reading(p, i as int).attrs[j],
            ),
{
    let ghost attrs = reading(p, i as int).attrs;
    let n = mod_attr_count(p, i);
    let mut j: usize = 0;
    while j < n
        invariant
            n == attrs.len(),
            i < syn_items(p.text()).len(),
            attrs == reading(p, i as int).attrs,
            j <= n,
            forall|k: int| 0 <= k < j ==> !#[trigger] attr_reads_cfg_test(attrs[k]),
        decreases n - j,
    {
        let path = attr_path_ident(p, i, j);
        let nested = attr_nested_idents(p, i, j);
        proof {
            lemma_cfg_test_views(path, nested@);
            assert(opt_views(nested@) =~= attrs[j as int].nested);
        }
        if attr_is_cfg_test(&path, &nested) {
            assert(attr_reads_cfg_test(attrs[j as int]));
            return true;
        }
        j = j + 1;
    }
    false
}

/// Reads out of item `i` of a parsed file what normalization needs: kind, name, inherent
/// impl target, whether a module is `#[cfg(test)]`, and its line span.
pub fn describe_item(p: &ParsedSource, i: usize) -> (r: ItemHeader)
    requires
        i < syn_items(p.text()).len(),
    ensures
        header_reads(r, reading(p, i as int)),
{
    let kind = item_kind(p, i);
    let name = match kind {
        ItemKind::Struct | ItemKind::Enum | ItemKind::Union | ItemKind::Mod => item_ident(p, i),
        _ => None,
    };
    let impl_target = match kind {
        ItemKind::Impl => match impl_header(p, i) {
            Some(h) => inherent_impl_target(&h),
            None => None,
        },
        _ => None,
    };
    let cfg_test = match kind {
        ItemKind::Mod => any_cfg_test(p, i),
        _ => false,
    };
    let (start_line, end_line) = item_line_span(p, i);
    ItemHeader { kind, name, impl_target, cfg_test, start_line, end_line }
}

} // verus!
