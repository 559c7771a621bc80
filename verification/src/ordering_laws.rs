//! Laws of the reordering: every reordering is a permutation of its input.
use vstd::multiset::Multiset;
use vstd::prelude::*;

use crate::config::{spec_rank, ItemOrder, MoveFeature, MoveSelection, NormalizeConfig};
use crate::model::{ItemKind, ItemSegment};
use crate::ordering::{
    spec_action_for_feature, spec_is_test_module, apply_actions, lift_imports, data_attach, data_groups, data_order, data_section, drop_target, in_class,
    lemma_pick_prepend, lemma_pick_push, merge_back, order3, pair, pick, spec_action_items,
    spec_apply_action, spec_attach, spec_matches_action, spec_reorder_all, spec_reorder_items,
    spec_unique_actions, tail_groups, tail_order, tail_section, take_target, Class, MoveAction,
};

verus! {

/// The multisets of the classes `cs` picked from `s`, added up.
pub open spec fn pick_sum(s: Seq<ItemSegment>, cs: Seq<Class>) -> Multiset<ItemSegment>
    decreases cs.len(),
{
    if cs.len() == 0 {
        Multiset::empty()
    } else {
        pick(s, cs[0]).to_multiset().add(pick_sum(s, cs.drop_first()))
    }
}

/// How many of the classes `cs` contain `x`.
pub open spec fn class_count(x: ItemSegment, cs: Seq<Class>) -> nat
    decreases cs.len(),
{
    if cs.len() == 0 {
        0
    } else {
        (if in_class(x, cs[0]) {
            1nat
        } else {
            0nat
        }) + class_count(x, cs.drop_first())
    }
}

pub proof fn lemma_pick_empty(c: Class)
    ensures
        pick(Seq::<ItemSegment>::empty(), c) == Seq::<ItemSegment>::empty(),
{
}

pub proof fn lemma_pick_sum_empty(cs: Seq<Class>)
    ensures
        pick_sum(Seq::<ItemSegment>::empty(), cs) == Multiset::<ItemSegment>::empty(),
    decreases cs.len(),
{
    broadcast use vstd::multiset::group_multiset_axioms;
    broadcast use vstd::seq_lib::group_to_multiset_ensures;

    if cs.len() > 0 {
        lemma_pick_sum_empty(cs.drop_first());
        lemma_pick_empty(cs[0]);
        assert(Seq::<ItemSegment>::empty().to_multiset() =~= Multiset::empty());
        assert(pick_sum(Seq::<ItemSegment>::empty(), cs) =~= Multiset::empty());
    }
}

pub proof fn lemma_pick_sum_push(s: Seq<ItemSegment>, x: ItemSegment, cs: Seq<Class>)
    ensures
        class_count(x, cs) == 0 ==> pick_sum(s.push(x), cs) == pick_sum(s, cs),
        class_count(x, cs) == 1 ==> pick_sum(s.push(x), cs) == pick_sum(s, cs).insert(x),
    decreases cs.len(),
{
    broadcast use vstd::multiset::group_multiset_axioms;
    broadcast use vstd::seq_lib::group_to_multiset_ensures;

    if cs.len() > 0 {
        lemma_pick_sum_push(s, x, cs.drop_first());
        lemma_pick_push(s, x, cs[0]);
        if class_count(x, cs) == 0 {
            assert(pick_sum(s.push(x), cs) =~= pick_sum(s, cs));
        }
        if class_count(x, cs) == 1 {
            assert(pick_sum(s.push(x), cs) =~= pick_sum(s, cs).insert(x));
        }
    }
}

/// When every item lies in exactly one of the classes, picking all classes loses and adds nothing.
pub proof fn lemma_partition(s: Seq<ItemSegment>, cs: Seq<Class>)
    requires
        forall|i: int| 0 <= i < s.len() ==> class_count(#[trigger] s[i], cs) == 1,
    ensures
        pick_sum(s, cs) == s.to_multiset(),
    decreases s.len(),
{
    broadcast use vstd::multiset::group_multiset_axioms;
    broadcast use vstd::seq_lib::group_to_multiset_ensures;

    if s.len() == 0 {
        lemma_pick_sum_empty(cs);
        assert(s =~= Seq::<ItemSegment>::empty());
        assert(s.to_multiset() =~= Multiset::empty());
    } else {
        let t = s.drop_last();
        assert forall|i: int| 0 <= i < t.len() implies class_count(#[trigger] t[i], cs) == 1 by {
            assert(t[i] == s[i]);
        }
        lemma_partition(t, cs);
        lemma_pick_sum_push(t, s.last(), cs);
        assert(t.push(s.last()) =~= s);
    }
}

pub proof fn lemma_pick_in_class(s: Seq<ItemSegment>, c: Class)
    ensures
        forall|i: int| 0 <= i < pick(s, c).len() ==> in_class(#[trigger] pick(s, c)[i], c),
        pick(s, c).len() <= s.len(),
    decreases s.len(),
{
    if s.len() > 0 {
        lemma_pick_in_class(s.drop_last(), c);
    }
}

pub open spec fn bucket_classes() -> Seq<Class> {
    seq![
        Class::Imports,
        Class::Modules,
        Class::Macros,
        Class::Constants,
        Class::TypeAliases,
        Class::Structs,
        Class::Enums,
        Class::TypedImpls,
        Class::FallbackImpls,
        Class::Traits,
        Class::Foreign,
        Class::Functions,
        Class::Tests,
        Class::Others,
    ]
}

pub proof fn lemma_bucket_count(x: ItemSegment)
    ensures
        class_count(x, bucket_classes()) == 1,
{
    reveal_with_fuel(class_count, 15);
}

pub proof fn lemma_sum_two(s: Seq<ItemSegment>, a: Class, b: Class)
    ensures
        pick_sum(s, seq![a, b]) == pick(s, a).to_multiset().add(pick(s, b).to_multiset()),
{
    broadcast use vstd::multiset::group_multiset_axioms;

    reveal_with_fuel(pick_sum, 3);
    assert(seq![a, b].drop_first() =~= seq![b]);
    assert(seq![b].drop_first() =~= Seq::<Class>::empty());
    assert(pick_sum(s, seq![a, b]) =~= pick(s, a).to_multiset().add(pick(s, b).to_multiset()));
}

pub proof fn lemma_take_drop_target(typed: Seq<ItemSegment>, key: Seq<char>)
    ensures
        take_target(typed, key).to_multiset().add(drop_target(typed, key).to_multiset())
            == typed.to_multiset(),
    decreases typed.len(),
{
    broadcast use vstd::multiset::group_multiset_axioms;
    broadcast use vstd::seq_lib::group_to_multiset_ensures;

    if typed.len() == 0 {
        assert(typed.to_multiset() =~= Multiset::empty());
        assert(take_target(typed, key).to_multiset().add(drop_target(typed, key).to_multiset())
            =~= Multiset::empty());
    } else {
        lemma_take_drop_target(typed.drop_last(), key);
        assert(typed.drop_last().push(typed.last()) =~= typed);
        assert(take_target(typed, key).to_multiset().add(drop_target(typed, key).to_multiset())
            =~= typed.to_multiset());
    }
}

pub proof fn lemma_attach_ms(structs: Seq<ItemSegment>, typed: Seq<ItemSegment>)
    ensures
        spec_attach(structs, typed).0.to_multiset().add(spec_attach(structs, typed).1.to_multiset())
            == structs.to_multiset().add(typed.to_multiset()),
        typed.len() == 0 ==> spec_attach(structs, typed).1.len() == 0,
    decreases structs.len(),
{
    broadcast use vstd::multiset::group_multiset_axioms;
    broadcast use vstd::seq_lib::group_to_multiset_ensures;
    broadcast use vstd::seq_lib::lemma_multiset_commutative;

    if structs.len() == 0 {
        assert(structs.to_multiset() =~= Multiset::empty());
        assert(Seq::<ItemSegment>::empty().to_multiset() =~= Multiset::empty());
        assert(spec_attach(structs, typed).0.to_multiset().add(
            spec_attach(structs, typed).1.to_multiset(),
        ) =~= structs.to_multiset().add(typed.to_multiset()));
    } else {
        let s = structs[0];
        let (mine, rest) = match s.name {
            Some(n) => (take_target(typed, n@), drop_target(typed, n@)),
            None => (Seq::<ItemSegment>::empty(), typed),
        };
        match s.name {
            Some(n) => {
                lemma_take_drop_target(typed, n@);
                if typed.len() == 0 {
                    assert(drop_target(typed, n@) =~= typed);
                }
            },
            None => {
                assert(mine.to_multiset() =~= Multiset::empty());
            },
        }
        lemma_attach_ms(structs.drop_first(), rest);
        let (o, r) = spec_attach(structs.drop_first(), rest);
        assert(structs =~= seq![s] + structs.drop_first());
        assert(seq![s].to_multiset() =~= Multiset::empty().insert(s)) by {
            assert(seq![s] =~= Seq::<ItemSegment>::empty().push(s));
            assert(Seq::<ItemSegment>::empty().to_multiset() =~= Multiset::empty());
        }
        assert(spec_attach(structs, typed).0 == seq![s] + mine + o);
        assert(mine.to_multiset().add(rest.to_multiset()) =~= typed.to_multiset());
        assert((seq![s] + mine + o).to_multiset() =~= seq![s].to_multiset().add(
            mine.to_multiset(),
        ).add(o.to_multiset()));
        assert(structs.to_multiset() =~= seq![s].to_multiset().add(
            structs.drop_first().to_multiset(),
        ));
        assert(spec_attach(structs, typed).1 == r);
        assert(o.to_multiset().add(r.to_multiset()) == structs.drop_first().to_multiset().add(
            rest.to_multiset(),
        ));
        let a = seq![s].to_multiset();
        let b = mine.to_multiset();
        let c = o.to_multiset();
        let d = r.to_multiset();
        let df = structs.drop_first().to_multiset();
        let rm = rest.to_multiset();
        assert forall|x: ItemSegment| #[trigger] a.add(b).add(c).add(d).count(x) == a.add(df).add(
            b.add(rm),
        ).count(x) by {
            assert(c.add(d).count(x) == df.add(rm).count(x));
        }
        assert(a.add(b).add(c).add(d) =~= a.add(df).add(b.add(rm)));
        assert(spec_attach(structs, typed).0.to_multiset().add(
            spec_attach(structs, typed).1.to_multiset(),
        ) =~= structs.to_multiset().add(typed.to_multiset()));
    }
}

/// The group order is a list of distinct groups among 0, 1, 2.
pub open spec fn valid_order(order: Seq<usize>) -> bool {
    &&& order.no_duplicates()
    &&& forall|i: int| 0 <= i < order.len() ==> #[trigger] order[i] < 3
}

pub proof fn lemma_order3_valid(r0: int, r1: int, r2: int)
    ensures
        valid_order(order3(r0, r1, r2)),
        order3(r0, r1, r2).len() == 3,
        order3(r0, r1, r2).contains(0usize),
        order3(r0, r1, r2).contains(1usize),
        order3(r0, r1, r2).contains(2usize),
{
    let o = order3(r0, r1, r2);
    assert(o[0] == 0usize || o[1] == 0usize || o[2] == 0usize);
    assert(o[0] == 1usize || o[1] == 1usize || o[2] == 1usize);
    assert(o[0] == 2usize || o[1] == 2usize || o[2] == 2usize);
}

pub proof fn lemma_data_groups_ms(
    order: Seq<usize>,
    structs: Seq<ItemSegment>,
    enums: Seq<ItemSegment>,
    typed: Seq<ItemSegment>,
    fallback: Seq<ItemSegment>,
    attach: bool,
)
    requires
        valid_order(order),
        !order.contains(0usize) ==> structs.len() == 0,
        !order.contains(1usize) ==> enums.len() == 0,
        !order.contains(2usize) ==> typed.len() == 0 && fallback.len() == 0,
    ensures
        data_groups(order, structs, enums, typed, fallback, attach).to_multiset() == structs.to_multiset().add(
            enums.to_multiset(),
        ).add(typed.to_multiset()).add(fallback.to_multiset()),
    decreases order.len(),
{
    broadcast use vstd::multiset::group_multiset_axioms;
    broadcast use vstd::seq_lib::group_to_multiset_ensures;
    broadcast use vstd::seq_lib::lemma_multiset_commutative;

    let e = Seq::<ItemSegment>::empty();
    assert(e.to_multiset() =~= Multiset::empty());
    if order.len() == 0 {
        assert(structs =~= e);
        assert(enums =~= e);
        assert(typed =~= e);
        assert(fallback =~= e);
    } else {
        let rest_order = order.drop_first();
        assert(valid_order(rest_order)) by {
            assert forall|i: int| 0 <= i < rest_order.len() implies #[trigger] rest_order[i] < 3 by {
                assert(rest_order[i] == order[i + 1]);
            }
            assert forall|i: int, j: int|
                0 <= i < rest_order.len() && 0 <= j < rest_order.len() && i != j implies rest_order[i]
                != rest_order[j] by {
                assert(rest_order[i] == order[i + 1]);
                assert(rest_order[j] == order[j + 1]);
            }
        }
        assert forall|g: usize| #[trigger] rest_order.contains(g) implies order.contains(g) && g
            != order[0] by {
            let i = choose|i: int| 0 <= i < rest_order.len() && rest_order[i] == g;
            assert(order[i + 1] == g);
        }
        assert forall|g: usize| g != order[0] && !rest_order.contains(g) implies !order.contains(
            g,
        ) by {
            if order.contains(g) {
                let i = choose|i: int| 0 <= i < order.len() && order[i] == g;
                assert(i != 0);
                assert(rest_order[i - 1] == g);
            }
        }
        assert(order.contains(order[0]));
        if order[0] == 0 {
            let (o, r) = if attach {
                spec_attach(structs, typed)
            } else {
                (structs, typed)
            };
            if attach {
                lemma_attach_ms(structs, typed);
            }
            if !rest_order.contains(2usize) {
                assert(typed.len() == 0);
                assert(r.len() == 0);
            }
            lemma_data_groups_ms(rest_order, e, enums, r, fallback, attach);
            assert(data_groups(order, structs, enums, typed, fallback, attach) == o + data_groups(
                rest_order,
                e,
                enums,
                r,
                fallback,
                attach,
            ));
            assert(o.to_multiset().add(r.to_multiset()) =~= structs.to_multiset().add(
                typed.to_multiset(),
            ));
            let rest_groups = data_groups(rest_order, e, enums, r, fallback, attach);
            assert((o + rest_groups).to_multiset() =~= o.to_multiset().add(
                rest_groups.to_multiset(),
            ));
            let om = o.to_multiset();
            let rm = r.to_multiset();
            let sm = structs.to_multiset();
            let tm = typed.to_multiset();
            let em = enums.to_multiset();
            let fm = fallback.to_multiset();
            assert forall|x: ItemSegment| #[trigger] om.add(e.to_multiset().add(em).add(rm).add(
                fm,
            )).count(x) == sm.add(em).add(tm).add(fm).count(x) by {
                assert(om.add(rm).count(x) == sm.add(tm).count(x));
            }
            assert(data_groups(order, structs, enums, typed, fallback, attach).to_multiset()
                =~= structs.to_multiset().add(enums.to_multiset()).add(typed.to_multiset()).add(
                fallback.to_multiset(),
            ));
        } else if order[0] == 1 {
            lemma_data_groups_ms(rest_order, structs, e, typed, fallback, attach);
            assert(data_groups(order, structs, enums, typed, fallback, attach).to_multiset()
                =~= structs.to_multiset().add(enums.to_multiset()).add(typed.to_multiset()).add(
                fallback.to_multiset(),
            ));
        } else {
            lemma_data_groups_ms(rest_order, structs, enums, e, e, attach);
            assert(data_groups(order, structs, enums, typed, fallback, attach).to_multiset()
                =~= structs.to_multiset().add(enums.to_multiset()).add(typed.to_multiset()).add(
                fallback.to_multiset(),
            ));
        }
    }
}

pub proof fn lemma_tail_groups_ms(
    order: Seq<usize>,
    traits: Seq<ItemSegment>,
    foreign: Seq<ItemSegment>,
    functions: Seq<ItemSegment>,
)
    requires
        valid_order(order),
        !order.contains(0usize) ==> traits.len() == 0,
        !order.contains(1usize) ==> foreign.len() == 0,
        !order.contains(2usize) ==> functions.len() == 0,
    ensures
        tail_groups(order, traits, foreign, functions).to_multiset() == traits.to_multiset().add(
            foreign.to_multiset(),
        ).add(functions.to_multiset()),
    decreases order.len(),
{
    broadcast use vstd::multiset::group_multiset_axioms;
    broadcast use vstd::seq_lib::group_to_multiset_ensures;
    broadcast use vstd::seq_lib::lemma_multiset_commutative;

    let e = Seq::<ItemSegment>::empty();
    assert(e.to_multiset() =~= Multiset::empty());
    if order.len() == 0 {
        assert(traits =~= e);
        assert(foreign =~= e);
        assert(functions =~= e);
    } else {
        let rest_order = order.drop_first();
        assert(valid_order(rest_order)) by {
            assert forall|i: int| 0 <= i < rest_order.len() implies #[trigger] rest_order[i] < 3 by {
                assert(rest_order[i] == order[i + 1]);
            }
            assert forall|i: int, j: int|
                0 <= i < rest_order.len() && 0 <= j < rest_order.len() && i != j implies rest_order[i]
                != rest_order[j] by {
                assert(rest_order[i] == order[i + 1]);
                assert(rest_order[j] == order[j + 1]);
            }
        }
        assert forall|g: usize| g != order[0] && !rest_order.contains(g) implies !order.contains(
            g,
        ) by {
            if order.contains(g) {
                let i = choose|i: int| 0 <= i < order.len() && order[i] == g;
                assert(i != 0);
                assert(rest_order[i - 1] == g);
            }
        }
        if order[0] == 0 {
            lemma_tail_groups_ms(rest_order, e, foreign, functions);
        } else if order[0] == 1 {
            lemma_tail_groups_ms(rest_order, traits, e, functions);
        } else {
            lemma_tail_groups_ms(rest_order, traits, foreign, e);
        }
        assert(tail_groups(order, traits, foreign, functions).to_multiset() =~= traits.to_multiset().add(
            foreign.to_multiset(),
        ).add(functions.to_multiset()));
    }
}

pub proof fn lemma_data_section_ms(s: Seq<ItemSegment>, config: NormalizeConfig)
    ensures
        data_section(s, config).to_multiset() == pick(s, Class::Structs).to_multiset().add(
            pick(s, Class::Enums).to_multiset(),
        ).add(pick(s, Class::TypedImpls).to_multiset()).add(
            pick(s, Class::FallbackImpls).to_multiset(),
        ),
{
    let o = data_order(config);
    lemma_order3_valid(
        crate::config::spec_rank(config.order@, crate::config::ItemOrder::Structs, 0),
        crate::config::spec_rank(config.order@, crate::config::ItemOrder::Enums, 1),
        crate::config::spec_rank(config.order@, crate::config::ItemOrder::Impls, 2),
    );
    lemma_data_groups_ms(
        o,
        pick(s, Class::Structs),
        pick(s, Class::Enums),
        pick(s, Class::TypedImpls),
        pick(s, Class::FallbackImpls),
        data_attach(config),
    );
}

pub proof fn lemma_tail_section_ms(s: Seq<ItemSegment>, config: NormalizeConfig)
    ensures
        tail_section(s, config).to_multiset() == pick(s, Class::Traits).to_multiset().add(
            pick(s, Class::Foreign).to_multiset(),
        ).add(pick(s, Class::Functions).to_multiset()),
{
    lemma_order3_valid(
        crate::config::spec_rank(config.order@, crate::config::ItemOrder::Traits, 0),
        crate::config::spec_rank(config.order@, crate::config::ItemOrder::Foreign, 1),
        crate::config::spec_rank(config.order@, crate::config::ItemOrder::Functions, 2),
    );
    lemma_tail_groups_ms(
        tail_order(config),
        pick(s, Class::Traits),
        pick(s, Class::Foreign),
        pick(s, Class::Functions),
    );
}

/// A full reordering keeps every item, each as often as it occurred, and adds none.
pub proof fn lemma_reorder_all_permutes(s: Seq<ItemSegment>, config: NormalizeConfig)
    ensures
        spec_reorder_all(s, config).to_multiset() == s.to_multiset(),
{
    broadcast use vstd::multiset::group_multiset_axioms;
    broadcast use vstd::seq_lib::lemma_multiset_commutative;

    assert forall|i: int| 0 <= i < s.len() implies class_count(#[trigger] s[i], bucket_classes())
        == 1 by {
        lemma_bucket_count(s[i]);
    }
    lemma_partition(s, bucket_classes());
    reveal_with_fuel(pick_sum, 15);
    lemma_data_section_ms(s, config);
    lemma_tail_section_ms(s, config);
    assert(spec_reorder_all(s, config).to_multiset() =~= pick_sum(s, bucket_classes()));
}

pub proof fn lemma_pair_ms(first: bool, a: Seq<ItemSegment>, b: Seq<ItemSegment>)
    ensures
        pair(first, a, b).to_multiset() == a.to_multiset().add(b.to_multiset()),
{
    broadcast use vstd::multiset::group_multiset_axioms;
    broadcast use vstd::seq_lib::lemma_multiset_commutative;

    assert(pair(first, a, b).to_multiset() =~= a.to_multiset().add(b.to_multiset()));
}

/// The classes an action's reordering collects; each item the action moves lies in one of them.
pub open spec fn action_classes(action: MoveAction) -> Seq<Class> {
    match action {
        MoveAction::ModsMacros => seq![Class::AnyModules, Class::Macros],
        MoveAction::ConstantsTypes => seq![Class::Constants, Class::TypeAliases],
        MoveAction::StructsEnumsImpls => seq![
            Class::Structs,
            Class::Enums,
            Class::TypedImpls,
            Class::FallbackImpls,
        ],
        MoveAction::TraitsForeignFunctions => seq![Class::Traits, Class::Foreign, Class::Functions],
    }
}

pub proof fn lemma_action_count(x: ItemSegment, action: MoveAction)
    requires
        spec_matches_action(x, action),
    ensures
        class_count(x, action_classes(action)) == 1,
{
    reveal_with_fuel(class_count, 5);
}

/// An action's reordering of items it moves keeps every one of them.
pub proof fn lemma_action_items_ms(sel: Seq<ItemSegment>, action: MoveAction, config: NormalizeConfig)
    requires
        forall|i: int| 0 <= i < sel.len() ==> spec_matches_action(#[trigger] sel[i], action),
    ensures
        spec_action_items(sel, action, config).to_multiset() == sel.to_multiset(),
        spec_action_items(sel, action, config).len() == sel.len(),
{
    broadcast use vstd::multiset::group_multiset_axioms;
    broadcast use vstd::seq_lib::group_to_multiset_ensures;

    assert forall|i: int| 0 <= i < sel.len() implies class_count(
        #[trigger] sel[i],
        action_classes(action),
    ) == 1 by {
        lemma_action_count(sel[i], action);
    }
    lemma_partition(sel, action_classes(action));
    reveal_with_fuel(pick_sum, 5);
    match action {
        MoveAction::ModsMacros => {
            lemma_pair_ms(
                config.spec_mods_before_macros(),
                pick(sel, Class::AnyModules),
                pick(sel, Class::Macros),
            );
        },
        MoveAction::ConstantsTypes => {
            lemma_pair_ms(
                config.spec_constants_before_types(),
                pick(sel, Class::Constants),
                pick(sel, Class::TypeAliases),
            );
        },
        MoveAction::StructsEnumsImpls => {
            lemma_data_section_ms(sel, config);
        },
        MoveAction::TraitsForeignFunctions => {
            lemma_tail_section_ms(sel, config);
        },
    }
    assert(spec_action_items(sel, action, config).to_multiset() =~= sel.to_multiset());
    assert(spec_action_items(sel, action, config).to_multiset().len() == sel.to_multiset().len());
}

pub proof fn lemma_merge_back_ms(s: Seq<ItemSegment>, repl: Seq<ItemSegment>, action: MoveAction)
    requires
        repl.len() == pick(s, Class::Selected(action)).len(),
    ensures
        merge_back(s, repl, action).to_multiset() == pick(
            s,
            Class::Unselected(action),
        ).to_multiset().add(repl.to_multiset()),
        merge_back(s, repl, action).len() == s.len(),
    decreases s.len(),
{
    broadcast use vstd::multiset::group_multiset_axioms;
    broadcast use vstd::seq_lib::group_to_multiset_ensures;
    broadcast use vstd::seq_lib::lemma_multiset_commutative;

    if s.len() == 0 {
        assert(repl.len() == 0);
        assert(repl =~= Seq::<ItemSegment>::empty());
        assert(Seq::<ItemSegment>::empty().to_multiset() =~= Multiset::empty());
        assert(merge_back(s, repl, action).to_multiset() =~= pick(
            s,
            Class::Unselected(action),
        ).to_multiset().add(repl.to_multiset()));
    } else {
        let rest = s.drop_first();
        assert(s =~= seq![s[0]] + rest);
        lemma_pick_prepend(s[0], rest, Class::Selected(action));
        lemma_pick_prepend(s[0], rest, Class::Unselected(action));
        assert(seq![s[0]].to_multiset() =~= Multiset::empty().insert(s[0])) by {
            assert(seq![s[0]] =~= Seq::<ItemSegment>::empty().push(s[0]));
            assert(Seq::<ItemSegment>::empty().to_multiset() =~= Multiset::empty());
        }
        if spec_matches_action(s[0], action) {
            lemma_merge_back_ms(rest, repl.drop_first(), action);
            assert(repl =~= seq![repl[0]] + repl.drop_first());
            assert(seq![repl[0]].to_multiset() =~= Multiset::empty().insert(repl[0])) by {
                assert(seq![repl[0]] =~= Seq::<ItemSegment>::empty().push(repl[0]));
                assert(Seq::<ItemSegment>::empty().to_multiset() =~= Multiset::empty());
            }
        } else {
            lemma_merge_back_ms(rest, repl, action);
        }
        assert(merge_back(s, repl, action).to_multiset() =~= pick(
            s,
            Class::Unselected(action),
        ).to_multiset().add(repl.to_multiset()));
    }
}

/// Applying one action keeps every item and adds none.
pub proof fn lemma_apply_action_permutes(s: Seq<ItemSegment>, action: MoveAction, config: NormalizeConfig)
    ensures
        spec_apply_action(s, action, config).to_multiset() == s.to_multiset(),
        spec_action_items(pick(s, Class::Selected(action)), action, config).len() == pick(
            s,
            Class::Selected(action),
        ).len(),
{
    broadcast use vstd::multiset::group_multiset_axioms;

    let sel = pick(s, Class::Selected(action));
    lemma_pick_in_class(s, Class::Selected(action));
    lemma_action_items_ms(sel, action, config);
    let items = spec_action_items(sel, action, config);
    lemma_merge_back_ms(s, items, action);
    let cs = seq![Class::Selected(action), Class::Unselected(action)];
    assert forall|i: int| 0 <= i < s.len() implies class_count(#[trigger] s[i], cs) == 1 by {
        reveal_with_fuel(class_count, 3);
    }
    lemma_partition(s, cs);
    lemma_sum_two(s, Class::Selected(action), Class::Unselected(action));
    assert(spec_apply_action(s, action, config).to_multiset() =~= s.to_multiset());
}

pub proof fn lemma_apply_actions_permutes(
    s: Seq<ItemSegment>,
    actions: Seq<MoveAction>,
    config: NormalizeConfig,
)
    ensures
        apply_actions(s, actions, config).to_multiset() == s.to_multiset(),
    decreases actions.len(),
{
    if actions.len() > 0 {
        lemma_apply_action_permutes(s, actions[0], config);
        lemma_apply_actions_permutes(
            spec_apply_action(s, actions[0], config),
            actions.drop_first(),
            config,
        );
    }
}

/// Normalizing the item order of a file never drops, duplicates or invents an item:
/// whatever the selection and configuration, the result is a permutation of the input.
pub proof fn lemma_reorder_items_permutes(
    s: Seq<ItemSegment>,
    config: NormalizeConfig,
    selection: MoveSelection,
)
    ensures
        spec_reorder_items(s, config, selection).to_multiset() == s.to_multiset(),
        spec_reorder_items(s, config, selection).len() == s.len(),
{
    broadcast use vstd::seq_lib::group_to_multiset_ensures;

    if selection.all {
        lemma_reorder_all_permutes(s, config);
    } else if selection.features@.len() > 0 {
        let moved = apply_actions(s, spec_unique_actions(selection.features@), config);
        lemma_apply_actions_permutes(s, spec_unique_actions(selection.features@), config);
        lemma_lift_imports_permutes(moved);
    }
    assert(spec_reorder_items(s, config, selection).to_multiset().len() == s.to_multiset().len());
}

/// Moving the `use` items to the front keeps every item.
pub proof fn lemma_lift_imports_permutes(s: Seq<ItemSegment>)
    ensures
        lift_imports(s).to_multiset() == s.to_multiset(),
{
    broadcast use vstd::multiset::group_multiset_axioms;

    let cs = seq![Class::Imports, Class::NonImports];
    assert forall|i: int| 0 <= i < s.len() implies class_count(#[trigger] s[i], cs) == 1 by {
        reveal_with_fuel(class_count, 3);
    }
    lemma_partition(s, cs);
    lemma_sum_two(s, Class::Imports, Class::NonImports);
    vstd::seq_lib::lemma_multiset_commutative(
        pick(s, Class::Imports),
        pick(s, Class::NonImports),
    );
}

/// With nothing selected, the items keep their order.
pub proof fn lemma_empty_selection_keeps_order(
    s: Seq<ItemSegment>,
    config: NormalizeConfig,
    selection: MoveSelection,
)
    requires
        !selection.all,
        selection.features@.len() == 0,
    ensures
        spec_reorder_items(s, config, selection) == s,
{
}

/// A full reordering opens with the imports and ends with the test modules, each group in
/// its original order.
pub proof fn lemma_imports_first_tests_last(s: Seq<ItemSegment>, config: NormalizeConfig)
    ensures
        spec_reorder_all(s, config).take(pick(s, Class::Imports).len() as int) == pick(
            s,
            Class::Imports,
        ),
        spec_reorder_all(s, config).skip(
            spec_reorder_all(s, config).len() - pick(s, Class::Tests).len(),
        ) == pick(s, Class::Tests),
{
    let r = spec_reorder_all(s, config);
    let imports = pick(s, Class::Imports);
    let tests = pick(s, Class::Tests);
    assert(r.take(imports.len() as int) =~= imports);
    assert(r.skip(r.len() - tests.len()) =~= tests);
}

/// The rank of group `g` (0, 1 or 2) given the three groups' ranks.
pub open spec fn rank_of(g: usize, r0: int, r1: int, r2: int) -> int {
    if g == 0 {
        r0
    } else if g == 1 {
        r1
    } else {
        r2
    }
}

/// `order` lists the groups 0, 1 and 2 once each, by nondecreasing rank, groups of equal
/// rank in group order.
pub open spec fn ranked_order(order: Seq<usize>, r0: int, r1: int, r2: int) -> bool {
    &&& order.len() == 3
    &&& order.contains(0usize)
    &&& order.contains(1usize)
    &&& order.contains(2usize)
    &&& forall|i: int|
        0 <= i < 2 ==> rank_of(#[trigger] order[i], r0, r1, r2) < rank_of(order[i + 1], r0, r1, r2)
            || (rank_of(order[i], r0, r1, r2) == rank_of(order[i + 1], r0, r1, r2) && order[i]
            < order[i + 1])
}

/// Groups are written in the order of their configured ranks: each group comes before the
/// next unless that one ranks lower, and groups of equal rank keep their group order.
pub proof fn lemma_order3_ranked(r0: int, r1: int, r2: int)
    ensures
        ranked_order(order3(r0, r1, r2), r0, r1, r2),
{
    let o = order3(r0, r1, r2);
    lemma_order3_valid(r0, r1, r2);
    assert forall|i: int| 0 <= i < 2 implies rank_of(#[trigger] o[i], r0, r1, r2) < rank_of(
        o[i + 1],
        r0,
        r1,
        r2,
    ) || (rank_of(o[i], r0, r1, r2) == rank_of(o[i + 1], r0, r1, r2) && o[i] < o[i + 1]) by {
        if i == 0 {
        } else {
        }
    }
}

/// The data groups (structs, enums, impls) and the tail groups (traits, extern blocks,
/// functions) of a full reordering come in the order of their configured ranks.
pub proof fn lemma_section_orders_ranked(config: NormalizeConfig)
    ensures
        ranked_order(
            data_order(config),
            spec_rank(config.order@, ItemOrder::Structs, 0),
            spec_rank(config.order@, ItemOrder::Enums, 1),
            spec_rank(config.order@, ItemOrder::Impls, 2),
        ),
        ranked_order(
            tail_order(config),
            spec_rank(config.order@, ItemOrder::Traits, 0),
            spec_rank(config.order@, ItemOrder::Foreign, 1),
            spec_rank(config.order@, ItemOrder::Functions, 2),
        ),
{
    lemma_order3_ranked(
        spec_rank(config.order@, ItemOrder::Structs, 0),
        spec_rank(config.order@, ItemOrder::Enums, 1),
        spec_rank(config.order@, ItemOrder::Impls, 2),
    );
    lemma_order3_ranked(
        spec_rank(config.order@, ItemOrder::Traits, 0),
        spec_rank(config.order@, ItemOrder::Foreign, 1),
        spec_rank(config.order@, ItemOrder::Functions, 2),
    );
}

/// The items a feature names: modules that are not test modules, macros, constants and
/// statics, type aliases, structs and unions, enums, impls, traits, extern blocks,
/// functions. (`imports` moves `use` items by lifting them; `attributes` and `tests` name
/// no item that a reordering step moves.)
pub open spec fn feature_names_item(feature: MoveFeature, seg: ItemSegment) -> bool {
    match feature {
        MoveFeature::Mods => seg.kind == ItemKind::Mod && !spec_is_test_module(seg),
        MoveFeature::Macros => seg.kind == ItemKind::Macro,
        MoveFeature::Constants => seg.kind == ItemKind::Const || seg.kind == ItemKind::Static,
        MoveFeature::Types => seg.kind == ItemKind::Type,
        MoveFeature::Structs => seg.kind == ItemKind::Struct || seg.kind == ItemKind::Union,
        MoveFeature::Enums => seg.kind == ItemKind::Enum,
        MoveFeature::Impls => seg.kind == ItemKind::Impl,
        MoveFeature::Traits => seg.kind == ItemKind::Trait,
        MoveFeature::Foreign => seg.kind == ItemKind::ForeignMod,
        MoveFeature::Functions => seg.kind == ItemKind::Fn,
        MoveFeature::Attributes | MoveFeature::Imports | MoveFeature::Tests => false,
    }
}

/// Every feature that names a group selects a reordering step that moves the items of
/// that group.
pub proof fn lemma_feature_selects_its_items(feature: MoveFeature, seg: ItemSegment)
    requires
        feature_names_item(feature, seg),
    ensures
        spec_action_for_feature(feature) is Some,
        spec_matches_action(seg, spec_action_for_feature(feature).unwrap()),
{
}

} // verus!
