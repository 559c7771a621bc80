//! Reordering of top-level items, for all features at once or for selected ones.
use vstd::prelude::*;

use crate::config::{spec_rank, ItemOrder, MoveFeature, MoveSelection, NormalizeConfig};
use crate::model::{name_is, ItemKind, ItemSegment};
use crate::ordering_laws::{
    feature_names_item, lemma_apply_action_permutes, lemma_feature_selects_its_items,
    lemma_order3_ranked, ranked_order,
};
use crate::text::{chars_of, same_chars};

verus! {

/// A reordering step that a single feature selects.
#[derive(Debug, Clone, Copy, PartialEq, Eq, Structural)]
pub enum MoveAction {
    ModsMacros,
    ConstantsTypes,
    StructsEnumsImpls,
    TraitsForeignFunctions,
}

/// A class of items that a reordering collects, in their original order.
#[derive(Debug, Clone, Copy, PartialEq, Eq, Structural)]
pub enum Class {
    Imports,
    Modules,
    AnyModules,
    Macros,
    Constants,
    TypeAliases,
    Structs,
    Enums,
    TypedImpls,
    FallbackImpls,
    Traits,
    Foreign,
    Functions,
    Tests,
    Others,
    Selected(MoveAction),
    Unselected(MoveAction),
    NonImports,
}

/// A module is a test module if it is named `tests` or carries `#[cfg(test)]`.
pub open spec fn spec_is_test_module(seg: ItemSegment) -> bool {
    name_is(seg.name, "tests"@) || seg.cfg_test
}

/// Whether a feature's reordering step moves this item.
pub open spec fn spec_matches_action(seg: ItemSegment, action: MoveAction) -> bool {
    match action {
        MoveAction::ModsMacros => (seg.kind == ItemKind::Mod && !spec_is_test_module(seg))
            || seg.kind == ItemKind::Macro,
        MoveAction::ConstantsTypes => seg.kind == ItemKind::Const || seg.kind == ItemKind::Static
            || seg.kind == ItemKind::Type,
        MoveAction::StructsEnumsImpls => seg.kind == ItemKind::Struct || seg.kind
            == ItemKind::Union || seg.kind == ItemKind::Enum || seg.kind == ItemKind::Impl,
        MoveAction::TraitsForeignFunctions => seg.kind == ItemKind::Trait || seg.kind
            == ItemKind::ForeignMod || seg.kind == ItemKind::Fn,
    }
}

pub open spec fn in_class(seg: ItemSegment, c: Class) -> bool {
    match c {
        Class::Imports => seg.kind == ItemKind::Use,
        Class::Modules => seg.kind == ItemKind::Mod && !spec_is_test_module(seg),
        Class::AnyModules => seg.kind == ItemKind::Mod,
        Class::Macros => seg.kind == ItemKind::Macro,
        Class::Constants => seg.kind == ItemKind::Const || seg.kind == ItemKind::Static,
        Class::TypeAliases => seg.kind == ItemKind::Type,
        Class::Structs => seg.kind == ItemKind::Struct || seg.kind == ItemKind::Union,
        Class::Enums => seg.kind == ItemKind::Enum,
        Class::TypedImpls => seg.kind == ItemKind::Impl && seg.impl_target is Some,
        Class::FallbackImpls => seg.kind == ItemKind::Impl && seg.impl_target is None,
        Class::Traits => seg.kind == ItemKind::Trait,
        Class::Foreign => seg.kind == ItemKind::ForeignMod,
        Class::Functions => seg.kind == ItemKind::Fn,
        Class::Tests => seg.kind == ItemKind::Mod && spec_is_test_module(seg),
        Class::Others => seg.kind == ItemKind::ExternCrate || seg.kind == ItemKind::TraitAlias
            || seg.kind == ItemKind::Verbatim || seg.kind == ItemKind::Other,
        Class::Selected(a) => spec_matches_action(seg, a),
        Class::Unselected(a) => !spec_matches_action(seg, a),
        Class::NonImports => seg.kind != ItemKind::Use,
    }
}

/// The items of `s` in class `c`, in their order in `s`.
pub open spec fn pick(s: Seq<ItemSegment>, c: Class) -> Seq<ItemSegment>
    decreases s.len(),
{
    if s.len() == 0 {
        s
    } else if in_class(s.last(), c) {
        pick(s.drop_last(), c).push(s.last())
    } else {
        pick(s.drop_last(), c)
    }
}

/// The class under which a full reordering files an item.
pub open spec fn spec_bucket(seg: ItemSegment) -> Class {
    match seg.kind {
        ItemKind::Use => Class::Imports,
        ItemKind::Mod => if spec_is_test_module(seg) {
            Class::Tests
        } else {
            Class::Modules
        },
        ItemKind::Macro => Class::Macros,
        ItemKind::Const | ItemKind::Static => Class::Constants,
        ItemKind::Type => Class::TypeAliases,
        ItemKind::Struct | ItemKind::Union => Class::Structs,
        ItemKind::Enum => Class::Enums,
        ItemKind::Impl => if seg.impl_target is Some {
            Class::TypedImpls
        } else {
            Class::FallbackImpls
        },
        ItemKind::Trait => Class::Traits,
        ItemKind::ForeignMod => Class::Foreign,
        ItemKind::Fn => Class::Functions,
        _ => Class::Others,
    }
}

/// The classes a full reordering files items under.
pub open spec fn is_bucket_class(c: Class) -> bool {
    !(c is AnyModules) && !(c is Selected) && !(c is Unselected) && !(c is NonImports)
}

pub proof fn lemma_bucket_class(seg: ItemSegment, c: Class)
    requires
        is_bucket_class(c),
    ensures
        in_class(seg, c) <==> spec_bucket(seg) == c,
{
}

pub proof fn lemma_pick_push(s: Seq<ItemSegment>, x: ItemSegment, c: Class)
    ensures
        pick(s.push(x), c) == (if in_class(x, c) {
            pick(s, c).push(x)
        } else {
            pick(s, c)
        }),
{
    assert(s.push(x).drop_last() =~= s);
}

pub proof fn lemma_pick_prepend(x: ItemSegment, s: Seq<ItemSegment>, c: Class)
    ensures
        pick(seq![x] + s, c) == (if in_class(x, c) {
            seq![x] + pick(s, c)
        } else {
            pick(s, c)
        }),
    decreases s.len(),
{
    let xs = seq![x] + s;
    if s.len() == 0 {
        assert(xs =~= seq![x]);
        assert(xs.drop_last() =~= s);
        assert(xs.last() == x);
        assert(pick(s, c) =~= s);
        assert(s.push(x) =~= seq![x] + s);
    } else {
        lemma_pick_prepend(x, s.drop_last(), c);
        assert(xs.drop_last() =~= seq![x] + s.drop_last());
        assert(xs.last() == s.last());
        if in_class(x, c) {
            assert(seq![x] + pick(s.drop_last(), c).push(s.last()) =~= (seq![x] + pick(
                s.drop_last(),
                c,
            )).push(s.last()));
        }
    }
}

pub proof fn lemma_pick_skip(s: Seq<ItemSegment>, i: int, c: Class)
    requires
        0 <= i < s.len(),
    ensures
        pick(s.skip(i), c) == (if in_class(s[i], c) {
            seq![s[i]] + pick(s.skip(i + 1), c)
        } else {
            pick(s.skip(i + 1), c)
        }),
{
    assert(s.skip(i) =~= seq![s[i]] + s.skip(i + 1));
    lemma_pick_prepend(s[i], s.skip(i + 1), c);
}

/// `a` then `b`, or `b` then `a`.
pub open spec fn pair(first: bool, a: Seq<ItemSegment>, b: Seq<ItemSegment>) -> Seq<ItemSegment> {
    if first {
        a + b
    } else {
        b + a
    }
}

/// The three groups 0, 1, 2 ordered by rank, ties kept in group order.
pub open spec fn order3(r0: int, r1: int, r2: int) -> Seq<usize> {
    if r0 <= r1 && r1 <= r2 {
        seq![0usize, 1usize, 2usize]
    } else if r0 <= r1 && r0 <= r2 {
        seq![0usize, 2usize, 1usize]
    } else if r0 <= r1 {
        seq![2usize, 0usize, 1usize]
    } else if r0 <= r2 {
        seq![1usize, 0usize, 2usize]
    } else if r1 <= r2 {
        seq![1usize, 2usize, 0usize]
    } else {
        seq![2usize, 1usize, 0usize]
    }
}

/// Groups in rank order; rank ties keep the group order.
fn rank_order(r0: usize, r1: usize, r2: usize) -> (r: Vec<usize>)
    ensures
        r@ == order3(r0 as int, r1 as int, r2 as int),
        ranked_order(r@, r0 as int, r1 as int, r2 as int),
{
    proof {
        lemma_order3_ranked(r0 as int, r1 as int, r2 as int);
    }
    let mut v: Vec<usize> = Vec::new();
    if r0 <= r1 && r1 <= r2 {
        v.push(0);
        v.push(1);
        v.push(2);
    } else if r0 <= r1 && r0 <= r2 {
        v.push(0);
        v.push(2);
        v.push(1);
    } else if r0 <= r1 {
        v.push(2);
        v.push(0);
        v.push(1);
    } else if r0 <= r2 {
        v.push(1);
        v.push(0);
        v.push(2);
    } else if r1 <= r2 {
        v.push(1);
        v.push(2);
        v.push(0);
    } else {
        v.push(2);
        v.push(1);
        v.push(0);
    }
    assert(v@ =~= order3(r0 as int, r1 as int, r2 as int));
    v
}

/// The impls in `typed` whose target is `key`.
pub open spec fn take_target(typed: Seq<ItemSegment>, key: Seq<char>) -> Seq<ItemSegment>
    decreases typed.len(),
{
    if typed.len() == 0 {
        typed
    } else if name_is(typed.last().impl_target, key) {
        take_target(typed.drop_last(), key).push(typed.last())
    } else {
        take_target(typed.drop_last(), key)
    }
}

/// The impls in `typed` whose target is not `key`.
pub open spec fn drop_target(typed: Seq<ItemSegment>, key: Seq<char>) -> Seq<ItemSegment>
    decreases typed.len(),
{
    if typed.len() == 0 {
        typed
    } else if name_is(typed.last().impl_target, key) {
        drop_target(typed.drop_last(), key)
    } else {
        drop_target(typed.drop_last(), key).push(typed.last())
    }
}

/// Each struct followed by the inherent impls of its name that no earlier struct took;
/// second, the impls left over.
pub open spec fn spec_attach(structs: Seq<ItemSegment>, typed: Seq<ItemSegment>) -> (
    Seq<ItemSegment>,
    Seq<ItemSegment>,
)
    decreases structs.len(),
{
    if structs.len() == 0 {
        (seq![], typed)
    } else {
        let s = structs[0];
        let (mine, rest) = match s.name {
            Some(n) => (take_target(typed, n@), drop_target(typed, n@)),
            None => (seq![], typed),
        };
        let (o, r) = spec_attach(structs.drop_first(), rest);
        (seq![s] + mine + o, r)
    }
}

/// The struct, enum and impl groups written in the given group order.
pub open spec fn data_groups(
    order: Seq<usize>,
    structs: Seq<ItemSegment>,
    enums: Seq<ItemSegment>,
    typed: Seq<ItemSegment>,
    fallback: Seq<ItemSegment>,
    attach: bool,
) -> Seq<ItemSegment>
    decreases order.len(),
{
    if order.len() == 0 {
        seq![]
    } else if order[0] == 0 {
        let (o, rest) = if attach {
            spec_attach(structs, typed)
        } else {
            (structs, typed)
        };
        o + data_groups(order.drop_first(), seq![], enums, rest, fallback, attach)
    } else if order[0] == 1 {
        enums + data_groups(order.drop_first(), structs, seq![], typed, fallback, attach)
    } else {
        typed + fallback + data_groups(order.drop_first(), structs, enums, seq![], seq![], attach)
    }
}

/// The trait, extern block and function groups written in the given group order.
pub open spec fn tail_groups(
    order: Seq<usize>,
    traits: Seq<ItemSegment>,
    foreign: Seq<ItemSegment>,
    functions: Seq<ItemSegment>,
) -> Seq<ItemSegment>
    decreases order.len(),
{
    if order.len() == 0 {
        seq![]
    } else if order[0] == 0 {
        traits + tail_groups(order.drop_first(), seq![], foreign, functions)
    } else if order[0] == 1 {
        foreign + tail_groups(order.drop_first(), traits, seq![], functions)
    } else {
        functions + tail_groups(order.drop_first(), traits, foreign, seq![])
    }
}

pub open spec fn data_order(config: NormalizeConfig) -> Seq<usize> {
    order3(
        spec_rank(config.order@, ItemOrder::Structs, 0),
        spec_rank(config.order@, ItemOrder::Enums, 1),
        spec_rank(config.order@, ItemOrder::Impls, 2),
    )
}

/// Impls follow their struct when impls rank no later than enums.
pub open spec fn data_attach(config: NormalizeConfig) -> bool {
    spec_rank(config.order@, ItemOrder::Impls, 2) <= spec_rank(config.order@, ItemOrder::Enums, 1)
}

pub open spec fn tail_order(config: NormalizeConfig) -> Seq<usize> {
    order3(
        spec_rank(config.order@, ItemOrder::Traits, 0),
        spec_rank(config.order@, ItemOrder::Foreign, 1),
        spec_rank(config.order@, ItemOrder::Functions, 2),
    )
}

/// The data items of `s` (structs, unions, enums, impls) in configured order.
pub open spec fn data_section(s: Seq<ItemSegment>, config: NormalizeConfig) -> Seq<ItemSegment> {
    data_groups(
        data_order(config),
        pick(s, Class::Structs),
        pick(s, Class::Enums),
        pick(s, Class::TypedImpls),
        pick(s, Class::FallbackImpls),
        data_attach(config),
    )
}

/// The traits, extern blocks and functions of `s` in configured order.
pub open spec fn tail_section(s: Seq<ItemSegment>, config: NormalizeConfig) -> Seq<ItemSegment> {
    tail_groups(
        tail_order(config),
        pick(s, Class::Traits),
        pick(s, Class::Foreign),
        pick(s, Class::Functions),
    )
}

/// The full normalized order: imports, modules and macros, constants and type aliases,
/// data items, traits/extern blocks/functions, remaining items, and test modules last.
pub open spec fn spec_reorder_all(s: Seq<ItemSegment>, config: NormalizeConfig) -> Seq<
    ItemSegment,
> {
    pick(s, Class::Imports) + pair(
        config.spec_mods_before_macros(),
        pick(s, Class::Modules),
        pick(s, Class::Macros),
    ) + pair(
        config.spec_constants_before_types(),
        pick(s, Class::Constants),
        pick(s, Class::TypeAliases),
    ) + data_section(s, config) + tail_section(s, config) + pick(s, Class::Others) + pick(
        s,
        Class::Tests,
    )
}

/// The items of one action's classes, reordered as that action orders them.
pub open spec fn spec_action_items(s: Seq<ItemSegment>, action: MoveAction, config: NormalizeConfig) -> Seq<
    ItemSegment,
> {
    match action {
        MoveAction::ModsMacros => pair(
            config.spec_mods_before_macros(),
            pick(s, Class::AnyModules),
            pick(s, Class::Macros),
        ),
        MoveAction::ConstantsTypes => pair(
            config.spec_constants_before_types(),
            pick(s, Class::Constants),
            pick(s, Class::TypeAliases),
        ),
        MoveAction::StructsEnumsImpls => data_section(s, config),
        MoveAction::TraitsForeignFunctions => tail_section(s, config),
    }
}

/// The positions of the moved items, filled in turn from `repl`.
pub open spec fn merge_back(s: Seq<ItemSegment>, repl: Seq<ItemSegment>, action: MoveAction) -> Seq<
    ItemSegment,
>
    decreases s.len(),
{
    if s.len() == 0 {
        seq![]
    } else if spec_matches_action(s[0], action) && repl.len() > 0 {
        seq![repl[0]] + merge_back(s.drop_first(), repl.drop_first(), action)
    } else {
        seq![s[0]] + merge_back(s.drop_first(), repl, action)
    }
}

/// One action applied: its items are reordered among the positions they occupy.
pub open spec fn spec_apply_action(s: Seq<ItemSegment>, action: MoveAction, config: NormalizeConfig) -> Seq<
    ItemSegment,
> {
    merge_back(
        s,
        spec_action_items(pick(s, Class::Selected(action)), action, config),
        action,
    )
}

/// Actions applied one after the other.
pub open spec fn apply_actions(s: Seq<ItemSegment>, actions: Seq<MoveAction>, config: NormalizeConfig) -> Seq<
    ItemSegment,
>
    decreases actions.len(),
{
    if actions.len() == 0 {
        s
    } else {
        apply_actions(spec_apply_action(s, actions[0], config), actions.drop_first(), config)
    }
}

pub open spec fn spec_action_for_feature(feature: MoveFeature) -> Option<MoveAction> {
    match feature {
        MoveFeature::Mods | MoveFeature::Macros => Some(MoveAction::ModsMacros),
        MoveFeature::Constants | MoveFeature::Types => Some(MoveAction::ConstantsTypes),
        MoveFeature::Structs | MoveFeature::Enums | MoveFeature::Impls => Some(
            MoveAction::StructsEnumsImpls,
        ),
        MoveFeature::Traits | MoveFeature::Foreign | MoveFeature::Functions => Some(
            MoveAction::TraitsForeignFunctions,
        ),
        MoveFeature::Attributes | MoveFeature::Imports | MoveFeature::Tests => None,
    }
}

/// The actions of the first `k` features, each kept once, in order of first mention.
pub open spec fn unique_prefix(features: Seq<MoveFeature>, k: nat) -> Seq<MoveAction>
    decreases k,
{
    if k == 0 {
        seq![]
    } else {
        let acc = unique_prefix(features, (k - 1) as nat);
        match spec_action_for_feature(features[k - 1]) {
            Some(a) => if acc.contains(a) {
                acc
            } else {
                acc.push(a)
            },
            None => acc,
        }
    }
}

pub open spec fn spec_unique_actions(features: Seq<MoveFeature>) -> Seq<MoveAction> {
    unique_prefix(features, features.len())
}

/// The reordering that a selection asks for.
pub open spec fn spec_reorder_items(
    s: Seq<ItemSegment>,
    config: NormalizeConfig,
    selection: MoveSelection,
) -> Seq<ItemSegment> {
    if selection.all {
        spec_reorder_all(s, config)
    } else if selection.features@.len() == 0 {
        s
    } else {
        let moved = apply_actions(s, spec_unique_actions(selection.features@), config);
        if selection.features@.contains(MoveFeature::Imports) {
            lift_imports(moved)
        } else {
            moved
        }
    }
}

/// The `use` items first, then all other items, each in their order.
pub open spec fn lift_imports(s: Seq<ItemSegment>) -> Seq<ItemSegment> {
    pick(s, Class::Imports) + pick(s, Class::NonImports)
}

/// Items of a sequence sorted into the classes of a full reordering.
pub struct Buckets {
    pub imports: Vec<ItemSegment>,
    pub modules: Vec<ItemSegment>,
    pub macros: Vec<ItemSegment>,
    pub constants: Vec<ItemSegment>,
    pub type_aliases: Vec<ItemSegment>,
    pub structs: Vec<ItemSegment>,
    pub enums: Vec<ItemSegment>,
    pub typed_impls: Vec<ItemSegment>,
    pub fallback_impls: Vec<ItemSegment>,
    pub traits: Vec<ItemSegment>,
    pub foreign: Vec<ItemSegment>,
    pub functions: Vec<ItemSegment>,
    pub tests: Vec<ItemSegment>,
    pub others: Vec<ItemSegment>,
}

impl Buckets {
    /// Each bucket holds exactly the items of `s` in its class, in order.
    pub open spec fn holds(&self, s: Seq<ItemSegment>) -> bool {
        &&& self.imports@ == pick(s, Class::Imports)
        &&& self.modules@ == pick(s, Class::Modules)
        &&& self.macros@ == pick(s, Class::Macros)
        &&& self.constants@ == pick(s, Class::Constants)
        &&& self.type_aliases@ == pick(s, Class::TypeAliases)
        &&& self.structs@ == pick(s, Class::Structs)
        &&& self.enums@ == pick(s, Class::Enums)
        &&& self.typed_impls@ == pick(s, Class::TypedImpls)
        &&& self.fallback_impls@ == pick(s, Class::FallbackImpls)
        &&& self.traits@ == pick(s, Class::Traits)
        &&& self.foreign@ == pick(s, Class::Foreign)
        &&& self.functions@ == pick(s, Class::Functions)
        &&& self.tests@ == pick(s, Class::Tests)
        &&& self.others@ == pick(s, Class::Others)
    }

    fn empty() -> (b: Buckets)
        ensures
            b.holds(Seq::empty()),
    {
        Buckets {
            imports: Vec::new(),
            modules: Vec::new(),
            macros: Vec::new(),
            constants: Vec::new(),
            type_aliases: Vec::new(),
            structs: Vec::new(),
            enums: Vec::new(),
            typed_impls: Vec::new(),
            fallback_impls: Vec::new(),
            traits: Vec::new(),
            foreign: Vec::new(),
            functions: Vec::new(),
            tests: Vec::new(),
            others: Vec::new(),
        }
    }

    fn add(&mut self, seg: ItemSegment, Ghost(s): Ghost<Seq<ItemSegment>>)
        requires
            old(self).holds(s),
        ensures
            final(self).holds(s.push(seg)),
    {
        let c = bucket_of(&seg);
        proof {
            lemma_pick_push(s, seg, Class::Imports);
            lemma_pick_push(s, seg, Class::Modules);
            lemma_pick_push(s, seg, Class::Macros);
            lemma_pick_push(s, seg, Class::Constants);
            lemma_pick_push(s, seg, Class::TypeAliases);
            lemma_pick_push(s, seg, Class::Structs);
            lemma_pick_push(s, seg, Class::Enums);
            lemma_pick_push(s, seg, Class::TypedImpls);
            lemma_pick_push(s, seg, Class::FallbackImpls);
            lemma_pick_push(s, seg, Class::Traits);
            lemma_pick_push(s, seg, Class::Foreign);
            lemma_pick_push(s, seg, Class::Functions);
            lemma_pick_push(s, seg, Class::Tests);
            lemma_pick_push(s, seg, Class::Others);
        }
        match c {
            Class::Imports => self.imports.push(seg),
            Class::Modules => self.modules.push(seg),
            Class::Macros => self.macros.push(seg),
            Class::Constants => self.constants.push(seg),
            Class::TypeAliases => self.type_aliases.push(seg),
            Class::Structs => self.structs.push(seg),
            Class::Enums => self.enums.push(seg),
            Class::TypedImpls => self.typed_impls.push(seg),
            Class::FallbackImpls => self.fallback_impls.push(seg),
            Class::Traits => self.traits.push(seg),
            Class::Foreign => self.foreign.push(seg),
            Class::Functions => self.functions.push(seg),
            Class::Tests => self.tests.push(seg),
            _ => self.others.push(seg),
        }
    }
}

/// Sorts items into the classes of a full reordering, keeping their order.
fn distribute(items: Vec<ItemSegment>) -> (b: Buckets)
    ensures
        b.holds(items@),
{
    let ghost orig = items@;
    let mut items = items;
    let mut b = Buckets::empty();
    let ghost mut i: int = 0;
    assert(orig.take(0) =~= Seq::<ItemSegment>::empty());
    while items.len() > 0
        invariant
            0 <= i <= orig.len(),
            items@ == orig.skip(i),
            b.holds(orig.take(i)),
        decreases items.len(),
    {
        let seg = items.remove(0);
        proof {
            assert(seg == orig[i]);
            assert(orig.take(i + 1) =~= orig.take(i).push(seg));
        }
        b.add(seg, Ghost(orig.take(i)));
        proof {
            i = i + 1;
            assert(items@ =~= orig.skip(i));
        }
    }
    assert(orig.take(i) =~= orig);
    b
}

/// `a` followed by `b`.
fn concat(a: Vec<ItemSegment>, b: Vec<ItemSegment>) -> (r: Vec<ItemSegment>)
    ensures
        r@ == a@ + b@,
{
    let mut a = a;
    let mut b = b;
    a.append(&mut b);
    a
}

/// Whether the optional name equals `key`.
fn name_matches(name: &Option<String>, key: &Vec<char>) -> (r: bool)
    ensures
        r == name_is(*name, key@),
{
    match name {
        Some(n) => {
            let chars = chars_of(n.as_str());
            same_chars(chars.as_slice(), key.as_slice())
        },
        None => false,
    }
}

/// A module named `tests` or carrying `#[cfg(test)]`.
pub fn is_test_module(seg: &ItemSegment) -> (r: bool)
    ensures
        r == spec_is_test_module(*seg),
{
    let key = chars_of("tests");
    name_matches(&seg.name, &key) || seg.cfg_test
}

/// The class under which a full reordering files the item.
pub fn bucket_of(seg: &ItemSegment) -> (c: Class)
    ensures
        c == spec_bucket(*seg),
{
    match seg.kind {
        ItemKind::Use => Class::Imports,
        ItemKind::Mod => if is_test_module(seg) {
            Class::Tests
        } else {
            Class::Modules
        },
        ItemKind::Macro => Class::Macros,
        ItemKind::Const | ItemKind::Static => Class::Constants,
        ItemKind::Type => Class::TypeAliases,
        ItemKind::Struct | ItemKind::Union => Class::Structs,
        ItemKind::Enum => Class::Enums,
        ItemKind::Impl => if seg.impl_target.is_some() {
            Class::TypedImpls
        } else {
            Class::FallbackImpls
        },
        ItemKind::Trait => Class::Traits,
        ItemKind::ForeignMod => Class::Foreign,
        ItemKind::Fn => Class::Functions,
        _ => Class::Others,
    }
}

/// Splits impls into those whose target is `key` and the rest, keeping their order.
fn split_by_target(typed: Vec<ItemSegment>, key: &Vec<char>) -> (r: (Vec<ItemSegment>, Vec<ItemSegment>))
    ensures
        r.0@ == take_target(typed@, key@),
        r.1@ == drop_target(typed@, key@),
{
    let ghost orig = typed@;
    let mut typed = typed;
    let mut mine: Vec<ItemSegment> = Vec::new();
    let mut rest: Vec<ItemSegment> = Vec::new();
    let ghost mut i: int = 0;
    assert(orig.take(0) =~= Seq::<ItemSegment>::empty());
    while typed.len() > 0
        invariant
            0 <= i <= orig.len(),
            typed@ == orig.skip(i),
            mine@ == take_target(orig.take(i), key@),
            rest@ == drop_target(orig.take(i), key@),
        decreases typed.len(),
    {
        let seg = typed.remove(0);
        proof {
            assert(seg == orig[i]);
            assert(orig.take(i + 1) =~= orig.take(i).push(seg));
            assert(orig.take(i + 1).drop_last() =~= orig.take(i));
        }
        if name_matches(&seg.impl_target, key) {
            mine.push(seg);
        } else {
            rest.push(seg);
        }
        proof {
            i = i + 1;
            assert(typed@ =~= orig.skip(i));
        }
    }
    assert(orig.take(i) =~= orig);
    (mine, rest)
}

pub proof fn lemma_attach_unfold(structs: Seq<ItemSegment>, typed: Seq<ItemSegment>)
    requires
        structs.len() > 0,
    ensures
        spec_attach(structs, typed) == ({
            let s = structs[0];
            let (mine, rest) = match s.name {
                Some(n) => (take_target(typed, n@), drop_target(typed, n@)),
                None => (seq![], typed),
            };
            let (o, r) = spec_attach(structs.drop_first(), rest);
            (seq![s] + mine + o, r)
        }),
{
}

/// Places after each struct the impls of its name that are still unplaced.
fn attach_impls(structs: Vec<ItemSegment>, typed: Vec<ItemSegment>) -> (r: (
    Vec<ItemSegment>,
    Vec<ItemSegment>,
))
    ensures
        (r.0@, r.1@) == spec_attach(structs@, typed@),
{
    let ghost s0 = structs@;
    let ghost t0 = typed@;
    let mut structs = structs;
    let mut remaining = typed;
    let mut out: Vec<ItemSegment> = Vec::new();
    while structs.len() > 0
        invariant
            out@ + spec_attach(structs@, remaining@).0 == spec_attach(s0, t0).0,
            spec_attach(structs@, remaining@).1 == spec_attach(s0, t0).1,
        decreases structs.len(),
    {
        proof {
            lemma_attach_unfold(structs@, remaining@);
        }
        let ghost before = structs@;
        let ghost rem_before = remaining@;
        let ghost out_before = out@;
        let s = structs.remove(0);
        assert(structs@ =~= before.drop_first());
        let key: Option<Vec<char>> = match &s.name {
            Some(n) => Some(chars_of(n.as_str())),
            None => None,
        };
        out.push(s);
        match key {
            Some(k) => {
                let (mut mine, others) = split_by_target(remaining, &k);
                let ghost mine_v = mine@;
                out.append(&mut mine);
                remaining = others;
                proof {
                    let (o, r) = spec_attach(structs@, remaining@);
                    assert(out@ + o =~= out_before + (seq![s] + mine_v + o));
                }
            },
            None => {
                proof {
                    let (o, r) = spec_attach(structs@, remaining@);
                    assert(out@ + o =~= out_before + (seq![s] + Seq::<ItemSegment>::empty() + o));
                }
            },
        }
    }
    (out, remaining)
}

/// Writes structs, enums and impls in the order their ranks give.
fn arrange_data(
    structs: Vec<ItemSegment>,
    enums: Vec<ItemSegment>,
    typed: Vec<ItemSegment>,
    fallback: Vec<ItemSegment>,
    config: &NormalizeConfig,
) -> (r: Vec<ItemSegment>)
    ensures
        r@ == data_groups(
            data_order(*config),
            structs@,
            enums@,
            typed@,
            fallback@,
            data_attach(*config),
        ),
{
    let structs_rank = config.rank(ItemOrder::Structs, 0);
    let enums_rank = config.rank(ItemOrder::Enums, 1);
    let impls_rank = config.rank(ItemOrder::Impls, 2);
    let attach = impls_rank <= enums_rank;
    let order = rank_order(structs_rank, enums_rank, impls_rank);
    let ghost full = data_groups(order@, structs@, enums@, typed@, fallback@, attach);
    let mut structs = structs;
    let mut enums = enums;
    let mut typed = typed;
    let mut fallback = fallback;
    let mut out: Vec<ItemSegment> = Vec::new();
    let mut k: usize = 0;
    assert(order@.skip(0) =~= order@);
    while k < order.len()
        invariant
            k <= order@.len(),
            out@ + data_groups(order@.skip(k as int), structs@, enums@, typed@, fallback@, attach)
                == full,
        decreases order.len() - k,
    {
        let g = order[k];
        assert(order@.skip(k as int).drop_first() =~= order@.skip(k + 1));
        if g == 0 {
            let s = structs;
            structs = Vec::new();
            let t = typed;
            if attach {
                let (o, rest) = attach_impls(s, t);
                out = concat(out, o);
                typed = rest;
            } else {
                out = concat(out, s);
                typed = t;
            }
        } else if g == 1 {
            let e = enums;
            enums = Vec::new();
            out = concat(out, e);
        } else {
            let t = typed;
            typed = Vec::new();
            let f = fallback;
            fallback = Vec::new();
            out = concat(out, concat(t, f));
        }
        k = k + 1;
    }
    assert(order@.skip(k as int) =~= Seq::<usize>::empty());
    assert(out@ =~= full);
    out
}

/// Writes traits, extern blocks and functions in the order their ranks give.
fn arrange_tail(
    traits: Vec<ItemSegment>,
    foreign: Vec<ItemSegment>,
    functions: Vec<ItemSegment>,
    config: &NormalizeConfig,
) -> (r: Vec<ItemSegment>)
    ensures
        r@ == tail_groups(tail_order(*config), traits@, foreign@, functions@),
{
    let order = rank_order(
        config.rank(ItemOrder::Traits, 0),
        config.rank(ItemOrder::Foreign, 1),
        config.rank(ItemOrder::Functions, 2),
    );
    let ghost full = tail_groups(order@, traits@, foreign@, functions@);
    let mut traits = traits;
    let mut foreign = foreign;
    let mut functions = functions;
    let mut out: Vec<ItemSegment> = Vec::new();
    let mut k: usize = 0;
    assert(order@.skip(0) =~= order@);
    while k < order.len()
        invariant
            k <= order@.len(),
            out@ + tail_groups(order@.skip(k as int), traits@, foreign@, functions@) == full,
        decreases order.len() - k,
    {
        let g = order[k];
        assert(order@.skip(k as int).drop_first() =~= order@.skip(k + 1));
        if g == 0 {
            let v = traits;
            traits = Vec::new();
            out = concat(out, v);
        } else if g == 1 {
            let v = foreign;
            foreign = Vec::new();
            out = concat(out, v);
        } else {
            let v = functions;
            functions = Vec::new();
            out = concat(out, v);
        }
        k = k + 1;
    }
    assert(order@.skip(k as int) =~= Seq::<usize>::empty());
    assert(out@ =~= full);
    out
}

/// All items in the normalized order.
fn reorder_all_items(items: Vec<ItemSegment>, config: &NormalizeConfig) -> (r: Vec<ItemSegment>)
    ensures
        r@ == spec_reorder_all(items@, *config),
{
    let b = distribute(items);
    let Buckets {
        imports,
        modules,
        macros,
        constants,
        type_aliases,
        structs,
        enums,
        typed_impls,
        fallback_impls,
        traits,
        foreign,
        functions,
        tests,
        others,
    } = b;
    let mods_part = if config.mods_before_macros() {
        concat(modules, macros)
    } else {
        concat(macros, modules)
    };
    let consts_part = if config.constants_before_types() {
        concat(constants, type_aliases)
    } else {
        concat(type_aliases, constants)
    };
    let data = arrange_data(structs, enums, typed_impls, fallback_impls, config);
    let tail = arrange_tail(traits, foreign, functions, config);
    let out = concat(imports, mods_part);
    let out = concat(out, consts_part);
    let out = concat(out, data);
    let out = concat(out, tail);
    let out = concat(out, others);
    concat(out, tests)
}

/// Modules and macros, in configured order.
fn reorder_mods_macros(items: Vec<ItemSegment>, config: &NormalizeConfig) -> (r: Vec<ItemSegment>)
    ensures
        r@ == pair(
            config.spec_mods_before_macros(),
            pick(items@, Class::AnyModules),
            pick(items@, Class::Macros),
        ),
{
    let ghost orig = items@;
    let mut items = items;
    let mut modules: Vec<ItemSegment> = Vec::new();
    let mut macros: Vec<ItemSegment> = Vec::new();
    let ghost mut i: int = 0;
    assert(orig.take(0) =~= Seq::<ItemSegment>::empty());
    while items.len() > 0
        invariant
            0 <= i <= orig.len(),
            items@ == orig.skip(i),
            modules@ == pick(orig.take(i), Class::AnyModules),
            macros@ == pick(orig.take(i), Class::Macros),
        decreases items.len(),
    {
        let seg = items.remove(0);
        proof {
            assert(seg == orig[i]);
            assert(orig.take(i + 1) =~= orig.take(i).push(seg));
            lemma_pick_push(orig.take(i), seg, Class::AnyModules);
            lemma_pick_push(orig.take(i), seg, Class::Macros);
        }
        match seg.kind {
            ItemKind::Mod => modules.push(seg),
            ItemKind::Macro => macros.push(seg),
            _ => {},
        }
        proof {
            i = i + 1;
            assert(items@ =~= orig.skip(i));
        }
    }
    assert(orig.take(i) =~= orig);
    if config.mods_before_macros() {
        concat(modules, macros)
    } else {
        concat(macros, modules)
    }
}

/// Constants and type aliases, in configured order.
fn reorder_constants_types(items: Vec<ItemSegment>, config: &NormalizeConfig) -> (r: Vec<
    ItemSegment,
>)
    ensures
        r@ == pair(
            config.spec_constants_before_types(),
            pick(items@, Class::Constants),
            pick(items@, Class::TypeAliases),
        ),
{
    let b = distribute(items);
    let Buckets { constants, type_aliases, .. } = b;
    if config.constants_before_types() {
        concat(constants, type_aliases)
    } else {
        concat(type_aliases, constants)
    }
}

/// Structs, enums and impls, in configured order.
fn reorder_data_items(items: Vec<ItemSegment>, config: &NormalizeConfig) -> (r: Vec<ItemSegment>)
    ensures
        r@ == data_section(items@, *config),
{
    let b = distribute(items);
    let Buckets { structs, enums, typed_impls, fallback_impls, .. } = b;
    arrange_data(structs, enums, typed_impls, fallback_impls, config)
}

/// Traits, extern blocks and functions, in configured order.
fn reorder_tail_items(items: Vec<ItemSegment>, config: &NormalizeConfig) -> (r: Vec<ItemSegment>)
    ensures
        r@ == tail_section(items@, *config),
{
    let b = distribute(items);
    let Buckets { traits, foreign, functions, .. } = b;
    arrange_tail(traits, foreign, functions, config)
}

/// The items of an action's classes, reordered as that action orders them.
fn reorder_action_items(items: Vec<ItemSegment>, action: MoveAction, config: &NormalizeConfig) -> (r: Vec<
    ItemSegment,
>)
    ensures
        r@ == spec_action_items(items@, action, *config),
{
    match action {
        MoveAction::ModsMacros => reorder_mods_macros(items, config),
        MoveAction::ConstantsTypes => reorder_constants_types(items, config),
        MoveAction::StructsEnumsImpls => reorder_data_items(items, config),
        MoveAction::TraitsForeignFunctions => reorder_tail_items(items, config),
    }
}

/// Whether an action moves this item.
fn item_matches_action(seg: &ItemSegment, action: MoveAction) -> (r: bool)
    ensures
        r == spec_matches_action(*seg, action),
{
    match action {
        MoveAction::ModsMacros => match seg.kind {
            ItemKind::Mod => !is_test_module(seg),
            ItemKind::Macro => true,
            _ => false,
        },
        MoveAction::ConstantsTypes => match seg.kind {
            ItemKind::Const | ItemKind::Static | ItemKind::Type => true,
            _ => false,
        },
        MoveAction::StructsEnumsImpls => match seg.kind {
            ItemKind::Struct | ItemKind::Union | ItemKind::Enum | ItemKind::Impl => true,
            _ => false,
        },
        MoveAction::TraitsForeignFunctions => match seg.kind {
            ItemKind::Trait | ItemKind::ForeignMod | ItemKind::Fn => true,
            _ => false,
        },
    }
}

/// Splits items into those an action moves and the others, noting for each position
/// whether it was moved.
fn split_selected(items: Vec<ItemSegment>, action: MoveAction) -> (r: (
    Vec<ItemSegment>,
    Vec<ItemSegment>,
    Vec<bool>,
))
    ensures
        r.0@ == pick(items@, Class::Selected(action)),
        r.1@ == pick(items@, Class::Unselected(action)),
        r.2@.len() == items@.len(),
        forall|j: int| 0 <= j < items@.len() ==> r.2@[j] == spec_matches_action(items@[j], action),
{
    let ghost orig = items@;
    let mut items = items;
    let mut selected: Vec<ItemSegment> = Vec::new();
    let mut others: Vec<ItemSegment> = Vec::new();
    let mut mask: Vec<bool> = Vec::new();
    let ghost mut i: int = 0;
    assert(orig.take(0) =~= Seq::<ItemSegment>::empty());
    while items.len() > 0
        invariant
            0 <= i <= orig.len(),
            items@ == orig.skip(i),
            selected@ == pick(orig.take(i), Class::Selected(action)),
            others@ == pick(orig.take(i), Class::Unselected(action)),
            mask@.len() == i,
            forall|j: int| 0 <= j < i ==> mask@[j] == spec_matches_action(orig[j], action),
        decreases items.len(),
    {
        let seg = items.remove(0);
        proof {
            assert(seg == orig[i]);
            assert(orig.take(i + 1) =~= orig.take(i).push(seg));
            lemma_pick_push(orig.take(i), seg, Class::Selected(action));
            lemma_pick_push(orig.take(i), seg, Class::Unselected(action));
        }
        let m = item_matches_action(&seg, action);
        mask.push(m);
        if m {
            selected.push(seg);
        } else {
            others.push(seg);
        }
        proof {
            i = i + 1;
            assert(items@ =~= orig.skip(i));
        }
    }
    assert(orig.take(i) =~= orig);
    (selected, others, mask)
}

/// Reorders the items one action moves among the positions they occupy.
fn apply_action(items: Vec<ItemSegment>, action: MoveAction, config: &NormalizeConfig) -> (r: Vec<
    ItemSegment,
>)
    ensures
        r@ == spec_apply_action(items@, action, *config),
{
    let ghost orig = items@;
    proof {
        lemma_apply_action_permutes(orig, action, *config);
    }
    let (selected, others, mask) = split_selected(items, action);
    let reordered = reorder_action_items(selected, action, config);
    let ghost repl0 = reordered@;
    let mut repl = reordered;
    let mut others = others;
    let mut out: Vec<ItemSegment> = Vec::new();
    let mut i: usize = 0;
    assert(orig.skip(0) =~= orig);
    while i < mask.len()
        invariant
            i <= orig.len(),
            mask@.len() == orig.len(),
            forall|j: int| 0 <= j < orig.len() ==> mask@[j] == spec_matches_action(orig[j], action),
            out@ + merge_back(orig.skip(i as int), repl@, action) == merge_back(orig, repl0, action),
            others@ == pick(orig.skip(i as int), Class::Unselected(action)),
            repl@.len() == pick(orig.skip(i as int), Class::Selected(action)).len(),
        decreases mask.len() - i,
    {
        proof {
            lemma_pick_skip(orig, i as int, Class::Selected(action));
            lemma_pick_skip(orig, i as int, Class::Unselected(action));
            assert(orig.skip(i as int).drop_first() =~= orig.skip(i + 1));
            assert(orig.skip(i as int)[0] == orig[i as int]);
        }
        let ghost out_before = out@;
        let ghost repl_before = repl@;
        if mask[i] {
            let x = repl.remove(0);
            out.push(x);
            assert(repl@ =~= repl_before.drop_first());
            assert(out@ + merge_back(orig.skip(i + 1), repl@, action) =~= out_before + (seq![x]
                + merge_back(orig.skip(i + 1), repl@, action)));
        } else {
            let x = others.remove(0);
            assert(x == orig[i as int]);
            out.push(x);
            assert(out@ + merge_back(orig.skip(i + 1), repl@, action) =~= out_before + (seq![x]
                + merge_back(orig.skip(i + 1), repl@, action)));
        }
        i = i + 1;
    }
    assert(orig.skip(i as int) =~= Seq::<ItemSegment>::empty());
    assert(out@ =~= merge_back(orig, repl0, action));
    out
}

/// The reordering step a feature selects, if any.
fn action_for_feature(feature: MoveFeature) -> (r: Option<MoveAction>)
    ensures
        r == spec_action_for_feature(feature),
        forall|seg: ItemSegment|
            #[trigger] feature_names_item(feature, seg) ==> r is Some && spec_matches_action(
                seg,
                r.unwrap(),
            ),
{
    proof {
        assert forall|seg: ItemSegment| #[trigger] feature_names_item(feature, seg) implies spec_action_for_feature(feature) is Some
            && spec_matches_action(seg, spec_action_for_feature(feature).unwrap()) by {
            lemma_feature_selects_its_items(feature, seg);
        }
    }
    match feature {
        MoveFeature::Mods | MoveFeature::Macros => Some(MoveAction::ModsMacros),
        MoveFeature::Constants | MoveFeature::Types => Some(MoveAction::ConstantsTypes),
        MoveFeature::Structs | MoveFeature::Enums | MoveFeature::Impls => Some(
            MoveAction::StructsEnumsImpls,
        ),
        MoveFeature::Traits | MoveFeature::Foreign | MoveFeature::Functions => Some(
            MoveAction::TraitsForeignFunctions,
        ),
        MoveFeature::Attributes | MoveFeature::Imports | MoveFeature::Tests => None,
    }
}

/// The actions of the features, each once, in order of first mention.
fn unique_actions(features: &Vec<MoveFeature>) -> (r: Vec<MoveAction>)
    ensures
        r@ == spec_unique_actions(features@),
{
    let mut unique: Vec<MoveAction> = Vec::new();
    let mut k: usize = 0;
    while k < features.len()
        invariant
            k <= features@.len(),
            unique@ == unique_prefix(features@, k as nat),
        decreases features.len() - k,
    {
        if let Some(action) = action_for_feature(features[k]) {
            let mut seen = false;
            let mut j: usize = 0;
            while j < unique.len()
                invariant
                    j <= unique@.len(),
                    seen <==> exists|m: int| 0 <= m < j && unique@[m] == action,
                decreases unique.len() - j,
            {
                if unique[j] == action {
                    seen = true;
                }
                j = j + 1;
            }
            assert(seen <==> unique@.contains(action));
            if !seen {
                unique.push(action);
            }
        }
        k = k + 1;
    }
    unique
}

/// Reorders the items of a file as the selection asks: all features, none, or the
/// selected features one after the other.
pub fn reorder_items(
    items: Vec<ItemSegment>,
    config: &NormalizeConfig,
    selection: &MoveSelection,
) -> (r: Vec<ItemSegment>)
    ensures
        r@ == spec_reorder_items(items@, *config, *selection),
{
    if selection.all {
        return reorder_all_items(items, config);
    }
    if selection.features.len() == 0 {
        return items;
    }
    let actions = unique_actions(&selection.features);
    let mut out = items;
    let mut k: usize = 0;
    let ghost start = out@;
    assert(actions@.skip(0) =~= actions@);
    while k < actions.len()
        invariant
            k <= actions@.len(),
            apply_actions(out@, actions@.skip(k as int), *config) == apply_actions(
                start,
                actions@,
                *config,
            ),
        decreases actions.len() - k,
    {
        assert(actions@.skip(k as int).drop_first() =~= actions@.skip(k + 1));
        out = apply_action(out, actions[k], config);
        k = k + 1;
    }
    assert(actions@.skip(k as int) =~= Seq::<MoveAction>::empty());
    if selects_imports(&selection.features) {
        lift_use_items(out)
    } else {
        out
    }
}

/// Whether the `imports` feature is among the features.
fn selects_imports(features: &Vec<MoveFeature>) -> (r: bool)
    ensures
        r == features@.contains(MoveFeature::Imports),
{
    let mut i: usize = 0;
    while i < features.len()
        invariant
            i <= features@.len(),
            forall|j: int| 0 <= j < i ==> features@[j] != MoveFeature::Imports,
        decreases features.len() - i,
    {
        if features[i] == MoveFeature::Imports {
            assert(features@[i as int] == MoveFeature::Imports);
            return true;
        }
        i = i + 1;
    }
    false
}

/// Moves the `use` items to the front, keeping the order within both parts.
fn lift_use_items(items: Vec<ItemSegment>) -> (r: Vec<ItemSegment>)
    ensures
        r@ == lift_imports(items@),
{
    let ghost orig = items@;
    let mut items = items;
    let mut uses: Vec<ItemSegment> = Vec::new();
    let mut others: Vec<ItemSegment> = Vec::new();
    let ghost mut i: int = 0;
    assert(orig.take(0) =~= Seq::<ItemSegment>::empty());
    while items.len() > 0
        invariant
            0 <= i <= orig.len(),
            items@ == orig.skip(i),
            uses@ == pick(orig.take(i), Class::Imports),
            others@ == pick(orig.take(i), Class::NonImports),
        decreases items.len(),
    {
        let seg = items.remove(0);
        proof {
            assert(seg == orig[i]);
            assert(orig.take(i + 1) =~= orig.take(i).push(seg));
            lemma_pick_push(orig.take(i), seg, Class::Imports);
            lemma_pick_push(orig.take(i), seg, Class::NonImports);
        }
        let is_use = match seg.kind {
            ItemKind::Use => true,
            _ => false,
        };
        if is_use {
            uses.push(seg);
        } else {
            others.push(seg);
        }
        proof {
            i = i + 1;
            assert(items@ =~= orig.skip(i));
        }
    }
    assert(orig.take(i) =~= orig);
    let ghost u = uses@;
    let ghost o = others@;
    uses.append(&mut others);
    assert(uses@ =~= u + o);
    uses
}

} // verus!
