//! Stability of the reordering: items already in normalized order keep their order, for a
//! full reordering and for any selection of features.
use vstd::prelude::*;

use crate::config::{MoveFeature, MoveSelection, NormalizeConfig};
use crate::model::{name_is, ItemSegment};
use crate::ordering::{
    apply_actions, lift_imports, data_attach, data_groups, data_order, data_section, drop_target, in_class,
    is_bucket_class, lemma_bucket_class, lemma_pick_prepend, merge_back, pair, pick,
    spec_action_for_feature, spec_action_items, spec_apply_action, spec_attach,
    spec_matches_action, spec_reorder_all, spec_reorder_items, spec_unique_actions, tail_groups,
    tail_order, tail_section, take_target, unique_prefix, Class, MoveAction,
};
use crate::ordering_laws::{lemma_action_items_ms, lemma_pick_in_class};

verus! {

/// Every item of `s` lies in class `c`.
pub open spec fn all_in(s: Seq<ItemSegment>, c: Class) -> bool {
    forall|i: int| 0 <= i < s.len() ==> in_class(#[trigger] s[i], c)
}

/// Every item of `s` is an impl whose target is `key`.
pub open spec fn all_target(s: Seq<ItemSegment>, key: Seq<char>) -> bool {
    forall|i: int| 0 <= i < s.len() ==> name_is(#[trigger] s[i].impl_target, key)
}

/// No item of `s` is an impl whose target is `key`.
pub open spec fn none_target(s: Seq<ItemSegment>, key: Seq<char>) -> bool {
    forall|i: int| 0 <= i < s.len() ==> !name_is(#[trigger] s[i].impl_target, key)
}

/// The typed impls in the order a full reordering leaves them when they follow their
/// structs: those of each struct in turn, then the ones no struct took.
pub open spec fn impl_order(structs: Seq<ItemSegment>, typed: Seq<ItemSegment>) -> Seq<
    ItemSegment,
>
    decreases structs.len(),
{
    if structs.len() == 0 {
        typed
    } else {
        match structs[0].name {
            Some(n) => take_target(typed, n@) + impl_order(
                structs.drop_first(),
                drop_target(typed, n@),
            ),
            None => impl_order(structs.drop_first(), typed),
        }
    }
}

pub broadcast proof fn lemma_pick_concat(a: Seq<ItemSegment>, b: Seq<ItemSegment>, c: Class)
    ensures
        #[trigger] pick(a + b, c) == pick(a, c) + pick(b, c),
    decreases b.len(),
{
    if b.len() == 0 {
        assert(a + b =~= a);
        assert(pick(a, c) + pick(b, c) =~= pick(a, c));
    } else {
        lemma_pick_concat(a, b.drop_last(), c);
        assert((a + b).drop_last() =~= a + b.drop_last());
        assert((a + b).last() == b.last());
        if in_class(b.last(), c) {
            assert(pick(a, c) + pick(b.drop_last(), c).push(b.last()) =~= (pick(a, c) + pick(
                b.drop_last(),
                c,
            )).push(b.last()));
        }
    }
}

pub proof fn lemma_pick_all(s: Seq<ItemSegment>, c: Class)
    requires
        all_in(s, c),
    ensures
        pick(s, c) == s,
    decreases s.len(),
{
    if s.len() > 0 {
        lemma_pick_all(s.drop_last(), c);
        assert(s.drop_last().push(s.last()) =~= s);
    }
}

pub proof fn lemma_pick_none(s: Seq<ItemSegment>, c: Class)
    requires
        forall|i: int| 0 <= i < s.len() ==> !in_class(#[trigger] s[i], c),
    ensures
        pick(s, c) == Seq::<ItemSegment>::empty(),
    decreases s.len(),
{
    if s.len() > 0 {
        lemma_pick_none(s.drop_last(), c);
    }
}

/// Items of one class, picked again by a class of a full reordering.
pub broadcast proof fn lemma_pick_of_pick(s: Seq<ItemSegment>, x: Class, c: Class)
    requires
        is_bucket_class(x),
        is_bucket_class(c),
    ensures
        #[trigger] pick(pick(s, x), c) == (if x == c {
            pick(s, x)
        } else {
            Seq::<ItemSegment>::empty()
        }),
{
    let p = pick(s, x);
    lemma_pick_in_class(s, x);
    if x == c {
        lemma_pick_all(p, c);
    } else {
        assert forall|i: int| 0 <= i < p.len() implies !in_class(#[trigger] p[i], c) by {
            lemma_bucket_class(p[i], x);
            lemma_bucket_class(p[i], c);
        }
        lemma_pick_none(p, c);
    }
}

/// The items of a class are those of the class, as far as that class goes.
pub proof fn lemma_all_in_pick(s: Seq<ItemSegment>, c: Class)
    ensures
        all_in(pick(s, c), c),
{
    lemma_pick_in_class(s, c);
}

pub proof fn lemma_take_drop_keep(typed: Seq<ItemSegment>, key: Seq<char>, c: Class, m: Seq<char>)
    ensures
        all_in(typed, c) ==> all_in(take_target(typed, key), c) && all_in(
            drop_target(typed, key),
            c,
        ),
        none_target(typed, m) ==> none_target(take_target(typed, key), m) && none_target(
            drop_target(typed, key),
            m,
        ),
        all_target(take_target(typed, key), key),
        none_target(drop_target(typed, key), key),
    decreases typed.len(),
{
    if typed.len() > 0 {
        let init = typed.drop_last();
        lemma_take_drop_keep(init, key, c, m);
        assert(all_in(typed, c) ==> all_in(init, c)) by {
            if all_in(typed, c) {
                assert forall|i: int| 0 <= i < init.len() implies in_class(#[trigger] init[i], c) by {
                    assert(init[i] == typed[i]);
                }
            }
        }
        assert(none_target(typed, m) ==> none_target(init, m)) by {
            if none_target(typed, m) {
                assert forall|i: int| 0 <= i < init.len() implies !name_is(
                    #[trigger] init[i].impl_target,
                    m,
                ) by {
                    assert(init[i] == typed[i]);
                }
            }
        }
    }
}

pub proof fn lemma_take_drop_concat(a: Seq<ItemSegment>, b: Seq<ItemSegment>, key: Seq<char>)
    ensures
        take_target(a + b, key) == take_target(a, key) + take_target(b, key),
        drop_target(a + b, key) == drop_target(a, key) + drop_target(b, key),
    decreases b.len(),
{
    if b.len() == 0 {
        assert(a + b =~= a);
        assert(take_target(a, key) + take_target(b, key) =~= take_target(a, key));
        assert(drop_target(a, key) + drop_target(b, key) =~= drop_target(a, key));
    } else {
        lemma_take_drop_concat(a, b.drop_last(), key);
        assert((a + b).drop_last() =~= a + b.drop_last());
        assert((a + b).last() == b.last());
        assert(take_target(a, key) + take_target(b.drop_last(), key).push(b.last()) =~= (
        take_target(a, key) + take_target(b.drop_last(), key)).push(b.last()));
        assert(drop_target(a, key) + drop_target(b.drop_last(), key).push(b.last()) =~= (
        drop_target(a, key) + drop_target(b.drop_last(), key)).push(b.last()));
    }
}

pub proof fn lemma_take_drop_all(a: Seq<ItemSegment>, key: Seq<char>)
    requires
        all_target(a, key),
    ensures
        take_target(a, key) == a,
        drop_target(a, key) == Seq::<ItemSegment>::empty(),
    decreases a.len(),
{
    if a.len() > 0 {
        let init = a.drop_last();
        assert forall|i: int| 0 <= i < init.len() implies name_is(
            #[trigger] init[i].impl_target,
            key,
        ) by {
            assert(init[i] == a[i]);
        }
        lemma_take_drop_all(init, key);
        assert(init.push(a.last()) =~= a);
    }
}

pub proof fn lemma_take_drop_none(a: Seq<ItemSegment>, key: Seq<char>)
    requires
        none_target(a, key),
    ensures
        take_target(a, key) == Seq::<ItemSegment>::empty(),
        drop_target(a, key) == a,
    decreases a.len(),
{
    if a.len() > 0 {
        let init = a.drop_last();
        assert forall|i: int| 0 <= i < init.len() implies !name_is(
            #[trigger] init[i].impl_target,
            key,
        ) by {
            assert(init[i] == a[i]);
        }
        lemma_take_drop_none(init, key);
        assert(init.push(a.last()) =~= a);
    }
}

pub proof fn lemma_all_in_concat(a: Seq<ItemSegment>, b: Seq<ItemSegment>, c: Class)
    requires
        all_in(a, c),
        all_in(b, c),
    ensures
        all_in(a + b, c),
{
    assert forall|i: int| 0 <= i < (a + b).len() implies in_class(#[trigger] (a + b)[i], c) by {
        if i < a.len() {
            assert((a + b)[i] == a[i]);
        } else {
            assert((a + b)[i] == b[i - a.len()]);
        }
    }
}

pub proof fn lemma_none_target_concat(a: Seq<ItemSegment>, b: Seq<ItemSegment>, key: Seq<char>)
    requires
        none_target(a, key),
        none_target(b, key),
    ensures
        none_target(a + b, key),
{
    assert forall|i: int| 0 <= i < (a + b).len() implies !name_is(
        #[trigger] (a + b)[i].impl_target,
        key,
    ) by {
        if i < a.len() {
            assert((a + b)[i] == a[i]);
        } else {
            assert((a + b)[i] == b[i - a.len()]);
        }
    }
}

/// The impl order keeps what holds of every impl.
pub proof fn lemma_impl_order_keep(
    structs: Seq<ItemSegment>,
    typed: Seq<ItemSegment>,
    c: Class,
    m: Seq<char>,
)
    ensures
        all_in(typed, c) ==> all_in(impl_order(structs, typed), c),
        none_target(typed, m) ==> none_target(impl_order(structs, typed), m),
    decreases structs.len(),
{
    if structs.len() > 0 {
        match structs[0].name {
            Some(n) => {
                lemma_take_drop_keep(typed, n@, c, m);
                lemma_impl_order_keep(structs.drop_first(), drop_target(typed, n@), c, m);
                if all_in(typed, c) {
                    lemma_all_in_concat(
                        take_target(typed, n@),
                        impl_order(structs.drop_first(), drop_target(typed, n@)),
                        c,
                    );
                }
                if none_target(typed, m) {
                    lemma_none_target_concat(
                        take_target(typed, n@),
                        impl_order(structs.drop_first(), drop_target(typed, n@)),
                        m,
                    );
                }
            },
            None => {
                lemma_impl_order_keep(structs.drop_first(), typed, c, m);
            },
        }
    }
}

/// Attaching impls to structs again, from the order a first attachment left them in,
/// gives the same result.
pub proof fn lemma_attach_stable(structs: Seq<ItemSegment>, typed: Seq<ItemSegment>)
    ensures
        spec_attach(structs, impl_order(structs, typed)) == spec_attach(structs, typed),
    decreases structs.len(),
{
    if structs.len() > 0 {
        let rest_structs = structs.drop_first();
        match structs[0].name {
            Some(n) => {
                let key = n@;
                let mine = take_target(typed, key);
                let rest = drop_target(typed, key);
                let later = impl_order(rest_structs, rest);
                lemma_take_drop_keep(typed, key, Class::TypedImpls, key);
                lemma_impl_order_keep(rest_structs, rest, Class::TypedImpls, key);
                lemma_take_drop_concat(mine, later, key);
                lemma_take_drop_all(mine, key);
                lemma_take_drop_none(later, key);
                assert(take_target(mine + later, key) =~= mine);
                assert(drop_target(mine + later, key) =~= later);
                lemma_attach_stable(rest_structs, rest);
            },
            None => {
                lemma_attach_stable(rest_structs, typed);
            },
        }
    }
}

pub proof fn lemma_attach_empty(structs: Seq<ItemSegment>)
    ensures
        spec_attach(structs, Seq::<ItemSegment>::empty()) == (
            structs,
            Seq::<ItemSegment>::empty(),
        ),
    decreases structs.len(),
{
    if structs.len() > 0 {
        lemma_attach_empty(structs.drop_first());
        match structs[0].name {
            Some(n) => {
                assert(take_target(Seq::<ItemSegment>::empty(), n@) =~= Seq::<ItemSegment>::empty());
                assert(drop_target(Seq::<ItemSegment>::empty(), n@) =~= Seq::<ItemSegment>::empty());
            },
            None => {},
        }
        assert(seq![structs[0]] + Seq::<ItemSegment>::empty() + structs.drop_first() =~= structs);
    }
}

pub proof fn lemma_pick_single(x: ItemSegment, c: Class)
    ensures
        pick(seq![x], c) == (if in_class(x, c) {
            seq![x]
        } else {
            Seq::<ItemSegment>::empty()
        }),
{
    let e = Seq::<ItemSegment>::empty();
    assert(seq![x].drop_last() =~= e);
    assert(seq![x].last() == x);
    assert(pick(e, c) == e);
    assert(pick(seq![x], c) == (if in_class(x, c) {
        pick(e, c).push(x)
    } else {
        pick(e, c)
    }));
    assert(e.push(x) =~= seq![x]);
}

/// What the classes of a full reordering pick from structs with their impls attached.
pub proof fn lemma_attach_picks(structs: Seq<ItemSegment>, typed: Seq<ItemSegment>)
    requires
        all_in(structs, Class::Structs),
        all_in(typed, Class::TypedImpls),
    ensures
        pick(spec_attach(structs, typed).0, Class::Structs) == structs,
        pick(spec_attach(structs, typed).0, Class::TypedImpls) + spec_attach(structs, typed).1
            == impl_order(structs, typed),
        forall|c: Class|
            is_bucket_class(c) && c != Class::Structs && c != Class::TypedImpls ==> #[trigger] pick(
                spec_attach(structs, typed).0,
                c,
            ) == Seq::<ItemSegment>::empty(),
        all_in(spec_attach(structs, typed).1, Class::TypedImpls),
    decreases structs.len(),
{
    broadcast use lemma_pick_concat;

    if structs.len() == 0 {
        assert(Seq::<ItemSegment>::empty() + typed =~= typed);
    } else {
        let s = structs[0];
        let rest_structs = structs.drop_first();
        assert forall|i: int| 0 <= i < rest_structs.len() implies in_class(
            #[trigger] rest_structs[i],
            Class::Structs,
        ) by {
            assert(rest_structs[i] == structs[i + 1]);
        }
        let (mine, rest) = match s.name {
            Some(n) => (take_target(typed, n@), drop_target(typed, n@)),
            None => (Seq::<ItemSegment>::empty(), typed),
        };
        match s.name {
            Some(n) => {
                lemma_take_drop_keep(typed, n@, Class::TypedImpls, n@);
            },
            None => {},
        }
        lemma_attach_picks(rest_structs, rest);
        let (o, r) = spec_attach(rest_structs, rest);
        assert(spec_attach(structs, typed).0 == seq![s] + mine + o);
        assert(spec_attach(structs, typed).1 == r);
        lemma_pick_all(mine, Class::TypedImpls);
        assert(in_class(s, Class::Structs));
        lemma_pick_single(s, Class::Structs);
        lemma_pick_single(s, Class::TypedImpls);
        assert forall|c: Class| is_bucket_class(c) && c != Class::Structs && c != Class::TypedImpls
            implies #[trigger] pick(spec_attach(structs, typed).0, c)
            == Seq::<ItemSegment>::empty() by {
            lemma_pick_single(s, c);
            lemma_bucket_class(s, c);
            lemma_bucket_class(s, Class::Structs);
            assert forall|i: int| 0 <= i < mine.len() implies !in_class(#[trigger] mine[i], c) by {
                lemma_bucket_class(mine[i], c);
                lemma_bucket_class(mine[i], Class::TypedImpls);
            }
            lemma_pick_none(mine, c);
            assert(pick(o, c) == Seq::<ItemSegment>::empty());
            assert(pick(seq![s] + mine + o, c) =~= Seq::<ItemSegment>::empty());
        }
        assert forall|i: int| 0 <= i < mine.len() implies !in_class(
            #[trigger] mine[i],
            Class::Structs,
        ) by {
            lemma_bucket_class(mine[i], Class::Structs);
            lemma_bucket_class(mine[i], Class::TypedImpls);
        }
        lemma_pick_none(mine, Class::Structs);
        assert(pick(seq![s] + mine + o, Class::Structs) =~= structs);
        assert(!in_class(s, Class::TypedImpls)) by {
            lemma_bucket_class(s, Class::TypedImpls);
            lemma_bucket_class(s, Class::Structs);
        }
        assert(pick(seq![s] + mine + o, Class::TypedImpls) + r =~= mine + (pick(
            o,
            Class::TypedImpls,
        ) + r));
        assert(pick(seq![s] + mine + o, Class::TypedImpls) + r =~= impl_order(structs, typed));
    }
}

/// Items all of one class of a full reordering, picked by such a class.
pub proof fn lemma_pick_class(s: Seq<ItemSegment>, x: Class, c: Class)
    requires
        all_in(s, x),
        is_bucket_class(x),
        is_bucket_class(c),
    ensures
        pick(s, c) == (if x == c {
            s
        } else {
            Seq::<ItemSegment>::empty()
        }),
{
    if x == c {
        lemma_pick_all(s, c);
    } else {
        assert forall|i: int| 0 <= i < s.len() implies !in_class(#[trigger] s[i], c) by {
            lemma_bucket_class(s[i], x);
            lemma_bucket_class(s[i], c);
        }
        lemma_pick_none(s, c);
    }
}


/// The struct group as the data groups first write it, and the impls passed on.
pub open spec fn first_groups(st: Seq<ItemSegment>, ty: Seq<ItemSegment>, att: bool) -> (
    Seq<ItemSegment>,
    Seq<ItemSegment>,
) {
    if att {
        spec_attach(st, ty)
    } else {
        (st, ty)
    }
}

/// The data groups hold the structs, enums and fallback impls they were given, nothing of
/// another class but the typed impls, and come out the same when written again from the
/// typed impls they hold.
pub open spec fn data_stable(
    order: Seq<usize>,
    st: Seq<ItemSegment>,
    en: Seq<ItemSegment>,
    ty: Seq<ItemSegment>,
    fb: Seq<ItemSegment>,
    att: bool,
) -> bool {
    let d = data_groups(order, st, en, ty, fb, att);
    &&& pick(d, Class::Structs) == st
    &&& pick(d, Class::Enums) == en
    &&& pick(d, Class::FallbackImpls) == fb
    &&& data_groups(order, st, en, pick(d, Class::TypedImpls), fb, att) == d
    &&& forall|c: Class|
        is_bucket_class(c) && c != Class::Structs && c != Class::Enums && c != Class::TypedImpls
            && c != Class::FallbackImpls ==> #[trigger] pick(d, c) == Seq::<ItemSegment>::empty()
}

/// What each class picks from the pieces the data groups are made of.
pub proof fn lemma_piece_picks(
    st: Seq<ItemSegment>,
    en: Seq<ItemSegment>,
    ty: Seq<ItemSegment>,
    fb: Seq<ItemSegment>,
    att: bool,
)
    requires
        all_in(st, Class::Structs),
        all_in(en, Class::Enums),
        all_in(ty, Class::TypedImpls),
        all_in(fb, Class::FallbackImpls),
    ensures
        forall|c: Class|
            is_bucket_class(c) ==> #[trigger] pick(st, c) == (if c == Class::Structs {
                st
            } else {
                Seq::<ItemSegment>::empty()
            }),
        forall|c: Class|
            is_bucket_class(c) ==> #[trigger] pick(en, c) == (if c == Class::Enums {
                en
            } else {
                Seq::<ItemSegment>::empty()
            }),
        forall|c: Class|
            is_bucket_class(c) ==> #[trigger] pick(ty, c) == (if c == Class::TypedImpls {
                ty
            } else {
                Seq::<ItemSegment>::empty()
            }),
        forall|c: Class|
            is_bucket_class(c) ==> #[trigger] pick(fb, c) == (if c == Class::FallbackImpls {
                fb
            } else {
                Seq::<ItemSegment>::empty()
            }),
        forall|c: Class|
            is_bucket_class(c) ==> #[trigger] pick(first_groups(st, ty, att).1, c) == (if c
                == Class::TypedImpls {
                first_groups(st, ty, att).1
            } else {
                Seq::<ItemSegment>::empty()
            }),
        forall|c: Class|
            is_bucket_class(c) ==> #[trigger] pick(first_groups(st, ty, att).0, c) == (if c
                == Class::Structs {
                st
            } else if c == Class::TypedImpls {
                pick(first_groups(st, ty, att).0, Class::TypedImpls)
            } else {
                Seq::<ItemSegment>::empty()
            }),
        spec_attach(st, Seq::<ItemSegment>::empty()) == (st, Seq::<ItemSegment>::empty()),
        spec_attach(
            st,
            pick(first_groups(st, ty, att).0, Class::TypedImpls) + first_groups(st, ty, att).1,
        ) == spec_attach(st, ty) || !att,
        !att ==> pick(first_groups(st, ty, att).0, Class::TypedImpls) + first_groups(
            st,
            ty,
            att,
        ).1 == ty,
{
    let e = Seq::<ItemSegment>::empty();
    if att {
        lemma_attach_picks(st, ty);
    }
    lemma_attach_stable(st, ty);
    lemma_attach_empty(st);
    assert forall|c: Class| is_bucket_class(c) implies #[trigger] pick(st, c) == (if c
        == Class::Structs {
        st
    } else {
        e
    }) by {
        lemma_pick_class(st, Class::Structs, c);
    }
    assert forall|c: Class| is_bucket_class(c) implies #[trigger] pick(en, c) == (if c
        == Class::Enums {
        en
    } else {
        e
    }) by {
        lemma_pick_class(en, Class::Enums, c);
    }
    assert forall|c: Class| is_bucket_class(c) implies #[trigger] pick(ty, c) == (if c
        == Class::TypedImpls {
        ty
    } else {
        e
    }) by {
        lemma_pick_class(ty, Class::TypedImpls, c);
    }
    assert forall|c: Class| is_bucket_class(c) implies #[trigger] pick(fb, c) == (if c
        == Class::FallbackImpls {
        fb
    } else {
        e
    }) by {
        lemma_pick_class(fb, Class::FallbackImpls, c);
    }
    assert forall|c: Class| is_bucket_class(c) implies #[trigger] pick(
        first_groups(st, ty, att).1,
        c,
    ) == (if c == Class::TypedImpls {
        first_groups(st, ty, att).1
    } else {
        e
    }) by {
        lemma_pick_class(first_groups(st, ty, att).1, Class::TypedImpls, c);
    }
    assert forall|c: Class| is_bucket_class(c) implies #[trigger] pick(
        first_groups(st, ty, att).0,
        c,
    ) == (if c == Class::Structs {
        st
    } else if c == Class::TypedImpls {
        pick(first_groups(st, ty, att).0, Class::TypedImpls)
    } else {
        e
    }) by {
        lemma_pick_class(st, Class::Structs, c);
        if att {
            assert(first_groups(st, ty, att) == spec_attach(st, ty));
            if c != Class::Structs && c != Class::TypedImpls {
                assert(pick(spec_attach(st, ty).0, c) == e);
            }
        }
    }
    if !att {
        lemma_pick_class(st, Class::Structs, Class::TypedImpls);
        assert(e + ty =~= ty);
    }
}

pub proof fn lemma_data_012(
    st: Seq<ItemSegment>,
    en: Seq<ItemSegment>,
    ty: Seq<ItemSegment>,
    fb: Seq<ItemSegment>,
    att: bool,
)
    requires
        all_in(st, Class::Structs),
        all_in(en, Class::Enums),
        all_in(ty, Class::TypedImpls),
        all_in(fb, Class::FallbackImpls),
    ensures
        data_stable(seq![0usize, 1usize, 2usize], st, en, ty, fb, att),
{
    broadcast use lemma_pick_concat;

    let e = Seq::<ItemSegment>::empty();
    let order = seq![0usize, 1usize, 2usize];
    lemma_piece_picks(st, en, ty, fb, att);
    let a = first_groups(st, ty, att);
    assert(order.drop_first() =~= seq![1usize, 2usize]);
    assert(seq![1usize, 2usize].drop_first() =~= seq![2usize]);
    assert(seq![2usize].drop_first() =~= Seq::<usize>::empty());
    let z = pick(a.0, Class::TypedImpls) + a.1;
    assert(data_groups(Seq::<usize>::empty(), e, e, e, e, att) == e);
    assert(data_groups(seq![2usize], e, e, a.1, fb, att) == a.1 + fb + e);
    assert(data_groups(seq![1usize, 2usize], e, en, a.1, fb, att) == en + (a.1 + fb + e));
    let d = data_groups(order, st, en, ty, fb, att);
    assert(d == a.0 + (en + (a.1 + fb + e)));
    assert(pick(d, Class::TypedImpls) =~= z);
    let b = first_groups(st, z, att);
    assert(b == a);
    assert(data_groups(seq![2usize], e, e, b.1, fb, att) == b.1 + fb + e);
    assert(data_groups(order, st, en, z, fb, att) == b.0 + (en + (b.1 + fb + e)));
    assert(pick(d, Class::Structs) =~= st);
    assert(pick(d, Class::Enums) =~= en);
    assert(pick(d, Class::FallbackImpls) =~= fb);
    assert forall|c: Class|
        is_bucket_class(c) && c != Class::Structs && c != Class::Enums && c != Class::TypedImpls
            && c != Class::FallbackImpls implies #[trigger] pick(d, c) == e by {
        assert(pick(st, c) == e);
        assert(pick(d, c) =~= e);
    }
}

pub proof fn lemma_data_021(
    st: Seq<ItemSegment>,
    en: Seq<ItemSegment>,
    ty: Seq<ItemSegment>,
    fb: Seq<ItemSegment>,
    att: bool,
)
    requires
        all_in(st, Class::Structs),
        all_in(en, Class::Enums),
        all_in(ty, Class::TypedImpls),
        all_in(fb, Class::FallbackImpls),
    ensures
        data_stable(seq![0usize, 2usize, 1usize], st, en, ty, fb, att),
{
    broadcast use lemma_pick_concat;

    let e = Seq::<ItemSegment>::empty();
    let order = seq![0usize, 2usize, 1usize];
    lemma_piece_picks(st, en, ty, fb, att);
    let a = first_groups(st, ty, att);
    let g = first_groups(st, e, att);
    assert(g == (st, e));
    assert(order.drop_first() =~= seq![2usize, 1usize]);
    assert(seq![2usize, 1usize].drop_first() =~= seq![1usize]);
    assert(seq![1usize].drop_first() =~= Seq::<usize>::empty());
    assert(data_groups(Seq::<usize>::empty(), e, e, e, e, att) == e);
    let z = pick(a.0, Class::TypedImpls) + a.1;
    let d = data_groups(order, st, en, ty, fb, att);
    assert(data_groups(seq![1usize], e, en, e, e, att) == en + e);
    assert(data_groups(seq![2usize, 1usize], e, en, a.1, fb, att) == a.1 + fb + (en + e));
    assert(d == a.0 + (a.1 + fb + (en + e)));
    assert(pick(d, Class::TypedImpls) =~= z);
    let b = first_groups(st, z, att);
    assert(b == a);
    assert(data_groups(seq![2usize, 1usize], e, en, b.1, fb, att) == b.1 + fb + (en + e));
    assert(data_groups(order, st, en, z, fb, att) == b.0 + (b.1 + fb + (en + e)));
    assert(pick(d, Class::Structs) =~= st);
    assert(pick(d, Class::Enums) =~= en);
    assert(pick(d, Class::FallbackImpls) =~= fb);
    assert forall|c: Class|
        is_bucket_class(c) && c != Class::Structs && c != Class::Enums && c != Class::TypedImpls
            && c != Class::FallbackImpls implies #[trigger] pick(d, c) == e by {
        assert(pick(st, c) == e);
        assert(pick(d, c) =~= e);
    }
}

pub proof fn lemma_data_201(
    st: Seq<ItemSegment>,
    en: Seq<ItemSegment>,
    ty: Seq<ItemSegment>,
    fb: Seq<ItemSegment>,
    att: bool,
)
    requires
        all_in(st, Class::Structs),
        all_in(en, Class::Enums),
        all_in(ty, Class::TypedImpls),
        all_in(fb, Class::FallbackImpls),
    ensures
        data_stable(seq![2usize, 0usize, 1usize], st, en, ty, fb, att),
{
    broadcast use lemma_pick_concat;

    let e = Seq::<ItemSegment>::empty();
    let order = seq![2usize, 0usize, 1usize];
    lemma_piece_picks(st, en, ty, fb, att);
    let a = first_groups(st, ty, att);
    let g = first_groups(st, e, att);
    assert(g == (st, e));
    assert(order.drop_first() =~= seq![0usize, 1usize]);
    assert(seq![0usize, 1usize].drop_first() =~= seq![1usize]);
    assert(seq![1usize].drop_first() =~= Seq::<usize>::empty());
    assert(data_groups(Seq::<usize>::empty(), e, e, e, e, att) == e);
    let z = pick(a.0, Class::TypedImpls) + a.1;
    let d = data_groups(order, st, en, ty, fb, att);
    assert(data_groups(seq![1usize], e, en, e, e, att) == en + e);
    assert(data_groups(seq![0usize, 1usize], st, en, e, e, att) == st + (en + e));
    assert(d == ty + fb + (st + (en + e)));
    assert(pick(d, Class::TypedImpls) =~= ty);
    assert(pick(d, Class::Structs) =~= st);
    assert(pick(d, Class::Enums) =~= en);
    assert(pick(d, Class::FallbackImpls) =~= fb);
    assert forall|c: Class|
        is_bucket_class(c) && c != Class::Structs && c != Class::Enums && c != Class::TypedImpls
            && c != Class::FallbackImpls implies #[trigger] pick(d, c) == e by {
        assert(pick(st, c) == e);
        assert(pick(d, c) =~= e);
    }
}

pub proof fn lemma_data_102(
    st: Seq<ItemSegment>,
    en: Seq<ItemSegment>,
    ty: Seq<ItemSegment>,
    fb: Seq<ItemSegment>,
    att: bool,
)
    requires
        all_in(st, Class::Structs),
        all_in(en, Class::Enums),
        all_in(ty, Class::TypedImpls),
        all_in(fb, Class::FallbackImpls),
    ensures
        data_stable(seq![1usize, 0usize, 2usize], st, en, ty, fb, att),
{
    broadcast use lemma_pick_concat;

    let e = Seq::<ItemSegment>::empty();
    let order = seq![1usize, 0usize, 2usize];
    lemma_piece_picks(st, en, ty, fb, att);
    let a = first_groups(st, ty, att);
    let g = first_groups(st, e, att);
    assert(g == (st, e));
    assert(order.drop_first() =~= seq![0usize, 2usize]);
    assert(seq![0usize, 2usize].drop_first() =~= seq![2usize]);
    assert(seq![2usize].drop_first() =~= Seq::<usize>::empty());
    assert(data_groups(Seq::<usize>::empty(), e, e, e, e, att) == e);
    let z = pick(a.0, Class::TypedImpls) + a.1;
    let d = data_groups(order, st, en, ty, fb, att);
    assert(data_groups(seq![2usize], e, e, a.1, fb, att) == a.1 + fb + e);
    assert(data_groups(seq![0usize, 2usize], st, e, ty, fb, att) == a.0 + (a.1 + fb + e));
    assert(d == en + (a.0 + (a.1 + fb + e)));
    assert(pick(d, Class::TypedImpls) =~= z);
    let b = first_groups(st, z, att);
    assert(b == a);
    assert(data_groups(seq![2usize], e, e, b.1, fb, att) == b.1 + fb + e);
    assert(data_groups(seq![0usize, 2usize], st, e, z, fb, att) == b.0 + (b.1 + fb + e));
    assert(data_groups(order, st, en, z, fb, att) == en + (b.0 + (b.1 + fb + e)));
    assert(pick(d, Class::Structs) =~= st);
    assert(pick(d, Class::Enums) =~= en);
    assert(pick(d, Class::FallbackImpls) =~= fb);
    assert forall|c: Class|
        is_bucket_class(c) && c != Class::Structs && c != Class::Enums && c != Class::TypedImpls
            && c != Class::FallbackImpls implies #[trigger] pick(d, c) == e by {
        assert(pick(st, c) == e);
        assert(pick(d, c) =~= e);
    }
}

pub proof fn lemma_data_120(
    st: Seq<ItemSegment>,
    en: Seq<ItemSegment>,
    ty: Seq<ItemSegment>,
    fb: Seq<ItemSegment>,
    att: bool,
)
    requires
        all_in(st, Class::Structs),
        all_in(en, Class::Enums),
        all_in(ty, Class::TypedImpls),
        all_in(fb, Class::FallbackImpls),
    ensures
        data_stable(seq![1usize, 2usize, 0usize], st, en, ty, fb, att),
{
    broadcast use lemma_pick_concat;

    let e = Seq::<ItemSegment>::empty();
    let order = seq![1usize, 2usize, 0usize];
    lemma_piece_picks(st, en, ty, fb, att);
    let a = first_groups(st, ty, att);
    let g = first_groups(st, e, att);
    assert(g == (st, e));
    assert(order.drop_first() =~= seq![2usize, 0usize]);
    assert(seq![2usize, 0usize].drop_first() =~= seq![0usize]);
    assert(seq![0usize].drop_first() =~= Seq::<usize>::empty());
    assert(data_groups(Seq::<usize>::empty(), e, e, e, e, att) == e);
    let z = pick(a.0, Class::TypedImpls) + a.1;
    let d = data_groups(order, st, en, ty, fb, att);
    assert(data_groups(seq![0usize], st, e, e, e, att) == st + e);
    assert(data_groups(seq![2usize, 0usize], st, e, ty, fb, att) == ty + fb + (st + e));
    assert(d == en + (ty + fb + (st + e)));
    assert(pick(d, Class::TypedImpls) =~= ty);
    assert(pick(d, Class::Structs) =~= st);
    assert(pick(d, Class::Enums) =~= en);
    assert(pick(d, Class::FallbackImpls) =~= fb);
    assert forall|c: Class|
        is_bucket_class(c) && c != Class::Structs && c != Class::Enums && c != Class::TypedImpls
            && c != Class::FallbackImpls implies #[trigger] pick(d, c) == e by {
        assert(pick(st, c) == e);
        assert(pick(d, c) =~= e);
    }
}

pub proof fn lemma_data_210(
    st: Seq<ItemSegment>,
    en: Seq<ItemSegment>,
    ty: Seq<ItemSegment>,
    fb: Seq<ItemSegment>,
    att: bool,
)
    requires
        all_in(st, Class::Structs),
        all_in(en, Class::Enums),
        all_in(ty, Class::TypedImpls),
        all_in(fb, Class::FallbackImpls),
    ensures
        data_stable(seq![2usize, 1usize, 0usize], st, en, ty, fb, att),
{
    broadcast use lemma_pick_concat;

    let e = Seq::<ItemSegment>::empty();
    let order = seq![2usize, 1usize, 0usize];
    lemma_piece_picks(st, en, ty, fb, att);
    let a = first_groups(st, ty, att);
    let g = first_groups(st, e, att);
    assert(g == (st, e));
    assert(order.drop_first() =~= seq![1usize, 0usize]);
    assert(seq![1usize, 0usize].drop_first() =~= seq![0usize]);
    assert(seq![0usize].drop_first() =~= Seq::<usize>::empty());
    assert(data_groups(Seq::<usize>::empty(), e, e, e, e, att) == e);
    let z = pick(a.0, Class::TypedImpls) + a.1;
    let d = data_groups(order, st, en, ty, fb, att);
    assert(data_groups(seq![0usize], st, e, e, e, att) == st + e);
    assert(data_groups(seq![1usize, 0usize], st, en, e, e, att) == en + (st + e));
    assert(d == ty + fb + (en + (st + e)));
    assert(pick(d, Class::TypedImpls) =~= ty);
    assert(pick(d, Class::Structs) =~= st);
    assert(pick(d, Class::Enums) =~= en);
    assert(pick(d, Class::FallbackImpls) =~= fb);
    assert forall|c: Class|
        is_bucket_class(c) && c != Class::Structs && c != Class::Enums && c != Class::TypedImpls
            && c != Class::FallbackImpls implies #[trigger] pick(d, c) == e by {
        assert(pick(st, c) == e);
        assert(pick(d, c) =~= e);
    }
}

/// The data section of a reordering, class by class.
pub proof fn lemma_data_section_stable(s: Seq<ItemSegment>, config: NormalizeConfig)
    ensures
        data_stable(
            data_order(config),
            pick(s, Class::Structs),
            pick(s, Class::Enums),
            pick(s, Class::TypedImpls),
            pick(s, Class::FallbackImpls),
            data_attach(config),
        ),
{
    let st = pick(s, Class::Structs);
    let en = pick(s, Class::Enums);
    let ty = pick(s, Class::TypedImpls);
    let fb = pick(s, Class::FallbackImpls);
    let att = data_attach(config);
    lemma_all_in_pick(s, Class::Structs);
    lemma_all_in_pick(s, Class::Enums);
    lemma_all_in_pick(s, Class::TypedImpls);
    lemma_all_in_pick(s, Class::FallbackImpls);
    let o = data_order(config);
    if o == seq![0usize, 1usize, 2usize] {
        lemma_data_012(st, en, ty, fb, att);
    } else if o == seq![0usize, 2usize, 1usize] {
        lemma_data_021(st, en, ty, fb, att);
    } else if o == seq![2usize, 0usize, 1usize] {
        lemma_data_201(st, en, ty, fb, att);
    } else if o == seq![1usize, 0usize, 2usize] {
        lemma_data_102(st, en, ty, fb, att);
    } else if o == seq![1usize, 2usize, 0usize] {
        lemma_data_120(st, en, ty, fb, att);
    } else {
        lemma_data_210(st, en, ty, fb, att);
    }
}

pub proof fn lemma_tail_empty(order: Seq<usize>)
    ensures
        tail_groups(
            order,
            Seq::<ItemSegment>::empty(),
            Seq::<ItemSegment>::empty(),
            Seq::<ItemSegment>::empty(),
        ) == Seq::<ItemSegment>::empty(),
    decreases order.len(),
{
    let e = Seq::<ItemSegment>::empty();
    if order.len() > 0 {
        lemma_tail_empty(order.drop_first());
        assert(e + e =~= e);
    }
}

/// Picking a class from the tail groups picks it from each group.
pub proof fn lemma_pick_tail(
    order: Seq<usize>,
    x: Seq<ItemSegment>,
    y: Seq<ItemSegment>,
    z: Seq<ItemSegment>,
    c: Class,
)
    ensures
        pick(tail_groups(order, x, y, z), c) == tail_groups(
            order,
            pick(x, c),
            pick(y, c),
            pick(z, c),
        ),
    decreases order.len(),
{
    broadcast use lemma_pick_concat;

    let e = Seq::<ItemSegment>::empty();
    if order.len() > 0 {
        if order[0] == 0 {
            lemma_pick_tail(order.drop_first(), e, y, z, c);
        } else if order[0] == 1 {
            lemma_pick_tail(order.drop_first(), x, e, z, c);
        } else {
            lemma_pick_tail(order.drop_first(), x, y, e, c);
        }
    }
}

/// Tail groups with one group left: that group.
pub proof fn lemma_tail_single(order: Seq<usize>, x: Seq<ItemSegment>)
    ensures
        order.contains(0usize) ==> tail_groups(
            order,
            x,
            Seq::<ItemSegment>::empty(),
            Seq::<ItemSegment>::empty(),
        ) == x,
        order.contains(1usize) ==> tail_groups(
            order,
            Seq::<ItemSegment>::empty(),
            x,
            Seq::<ItemSegment>::empty(),
        ) == x,
        order.contains(2usize) ==> tail_groups(
            order,
            Seq::<ItemSegment>::empty(),
            Seq::<ItemSegment>::empty(),
            x,
        ) == x,
    decreases order.len(),
{
    let e = Seq::<ItemSegment>::empty();
    if order.len() > 0 {
        let rest = order.drop_first();
        lemma_tail_single(rest, x);
        lemma_tail_empty(rest);
        assert forall|k: usize| order.contains(k) && order[0] != k implies rest.contains(k) by {
            let i = choose|i: int| 0 <= i < order.len() && order[i] == k;
            assert(rest[i - 1] == k);
        }
        assert(x + e =~= x);
        assert(e + x =~= x);
        assert(e + e =~= e);
    }
}

/// The tail section of a reordering, class by class.
pub proof fn lemma_tail_section_picks(s: Seq<ItemSegment>, config: NormalizeConfig, c: Class)
    requires
        is_bucket_class(c),
    ensures
        pick(tail_section(s, config), c) == (if c == Class::Traits || c == Class::Foreign || c
            == Class::Functions {
            pick(s, c)
        } else {
            Seq::<ItemSegment>::empty()
        }),
{
    broadcast use lemma_pick_of_pick;

    let o = tail_order(config);
    crate::ordering_laws::lemma_order3_valid(
        crate::config::spec_rank(config.order@, crate::config::ItemOrder::Traits, 0),
        crate::config::spec_rank(config.order@, crate::config::ItemOrder::Foreign, 1),
        crate::config::spec_rank(config.order@, crate::config::ItemOrder::Functions, 2),
    );
    lemma_pick_tail(o, pick(s, Class::Traits), pick(s, Class::Foreign), pick(s, Class::Functions), c);
    lemma_tail_single(o, pick(s, c));
    lemma_tail_empty(o);
}

pub proof fn lemma_pick_pair(first: bool, x: Seq<ItemSegment>, y: Seq<ItemSegment>, c: Class)
    ensures
        pick(pair(first, x, y), c) == pair(first, pick(x, c), pick(y, c)),
{
    lemma_pick_concat(x, y, c);
    lemma_pick_concat(y, x, c);
}

/// What each class of a full reordering picks from a reordered sequence: what it picks from
/// the original, but for the typed impls, which come as the data section holds them.
pub proof fn lemma_reordered_picks(s: Seq<ItemSegment>, config: NormalizeConfig, c: Class)
    requires
        is_bucket_class(c),
    ensures
        pick(spec_reorder_all(s, config), c) == (if c == Class::TypedImpls {
            pick(data_section(s, config), Class::TypedImpls)
        } else {
            pick(s, c)
        }),
{
    broadcast use lemma_pick_concat, lemma_pick_of_pick;

    let e = Seq::<ItemSegment>::empty();
    let d = data_section(s, config);
    lemma_data_section_stable(s, config);
    lemma_tail_section_picks(s, config, c);
    lemma_pick_pair(
        config.spec_mods_before_macros(),
        pick(s, Class::Modules),
        pick(s, Class::Macros),
        c,
    );
    lemma_pick_pair(
        config.spec_constants_before_types(),
        pick(s, Class::Constants),
        pick(s, Class::TypeAliases),
        c,
    );
    assert(pair(true, e, e) =~= e);
    assert(pair(false, e, e) =~= e);
    assert(pair(true, pick(s, c), e) =~= pick(s, c));
    assert(pair(false, pick(s, c), e) =~= pick(s, c));
    assert(pair(true, e, pick(s, c)) =~= pick(s, c));
    assert(pair(false, e, pick(s, c)) =~= pick(s, c));
    assert(pick(spec_reorder_all(s, config), c) =~= (if c == Class::TypedImpls {
        pick(d, Class::TypedImpls)
    } else {
        pick(s, c)
    }));
}

/// A full reordering is stable: reordering its result again changes nothing.
pub proof fn lemma_reorder_all_stable(s: Seq<ItemSegment>, config: NormalizeConfig)
    ensures
        spec_reorder_all(spec_reorder_all(s, config), config) == spec_reorder_all(s, config),
{
    let t = spec_reorder_all(s, config);
    lemma_data_section_stable(s, config);
    lemma_reordered_picks(s, config, Class::Imports);
    lemma_reordered_picks(s, config, Class::Modules);
    lemma_reordered_picks(s, config, Class::Macros);
    lemma_reordered_picks(s, config, Class::Constants);
    lemma_reordered_picks(s, config, Class::TypeAliases);
    lemma_reordered_picks(s, config, Class::Structs);
    lemma_reordered_picks(s, config, Class::Enums);
    lemma_reordered_picks(s, config, Class::TypedImpls);
    lemma_reordered_picks(s, config, Class::FallbackImpls);
    lemma_reordered_picks(s, config, Class::Traits);
    lemma_reordered_picks(s, config, Class::Foreign);
    lemma_reordered_picks(s, config, Class::Functions);
    lemma_reordered_picks(s, config, Class::Others);
    lemma_reordered_picks(s, config, Class::Tests);
    assert(data_section(t, config) == data_section(s, config));
    assert(tail_section(t, config) == tail_section(s, config));
}

/// One action's reordering of its items is stable.
pub proof fn lemma_action_items_stable(
    sel: Seq<ItemSegment>,
    action: MoveAction,
    config: NormalizeConfig,
)
    ensures
        spec_action_items(spec_action_items(sel, action, config), action, config)
            == spec_action_items(sel, action, config),
{
    broadcast use lemma_pick_of_pick;

    let e = Seq::<ItemSegment>::empty();
    match action {
        MoveAction::ModsMacros => {
            let mo = pick(sel, Class::AnyModules);
            let ma = pick(sel, Class::Macros);
            let b = config.spec_mods_before_macros();
            lemma_pick_in_class(sel, Class::AnyModules);
            lemma_pick_in_class(sel, Class::Macros);
            lemma_pick_all(mo, Class::AnyModules);
            lemma_pick_all(ma, Class::Macros);
            assert forall|i: int| 0 <= i < mo.len() implies !in_class(
                #[trigger] mo[i],
                Class::Macros,
            ) by {
                assert(in_class(mo[i], Class::AnyModules));
            }
            assert forall|i: int| 0 <= i < ma.len() implies !in_class(
                #[trigger] ma[i],
                Class::AnyModules,
            ) by {
                assert(in_class(ma[i], Class::Macros));
            }
            lemma_pick_none(mo, Class::Macros);
            lemma_pick_none(ma, Class::AnyModules);
            lemma_pick_pair(b, mo, ma, Class::AnyModules);
            lemma_pick_pair(b, mo, ma, Class::Macros);
            assert(pair(b, mo, e) =~= mo);
            assert(pair(b, e, ma) =~= ma);
        },
        MoveAction::ConstantsTypes => {
            let b = config.spec_constants_before_types();
            let co = pick(sel, Class::Constants);
            let ta = pick(sel, Class::TypeAliases);
            lemma_pick_pair(b, co, ta, Class::Constants);
            lemma_pick_pair(b, co, ta, Class::TypeAliases);
            assert(pair(b, co, e) =~= co);
            assert(pair(b, e, ta) =~= ta);
        },
        MoveAction::StructsEnumsImpls => {
            lemma_data_section_stable(sel, config);
        },
        MoveAction::TraitsForeignFunctions => {
            lemma_tail_section_picks(sel, config, Class::Traits);
            lemma_tail_section_picks(sel, config, Class::Foreign);
            lemma_tail_section_picks(sel, config, Class::Functions);
        },
    }
}

/// No item is moved by two different actions.
pub proof fn lemma_actions_disjoint(x: ItemSegment, a: MoveAction, b: MoveAction)
    requires
        a != b,
        spec_matches_action(x, a),
    ensures
        !spec_matches_action(x, b),
{
}

/// Filling the moved positions from a sequence of moved items: the moved items are then that
/// sequence, and the items moved by any other action stay as they were.
pub proof fn lemma_merge_back_pick(
    s: Seq<ItemSegment>,
    repl: Seq<ItemSegment>,
    action: MoveAction,
    other: MoveAction,
)
    requires
        repl.len() == pick(s, Class::Selected(action)).len(),
        forall|i: int| 0 <= i < repl.len() ==> spec_matches_action(#[trigger] repl[i], action),
    ensures
        pick(merge_back(s, repl, action), Class::Selected(action)) == repl,
        other != action ==> pick(merge_back(s, repl, action), Class::Selected(other)) == pick(
            s,
            Class::Selected(other),
        ),
    decreases s.len(),
{
    if s.len() == 0 {
        assert(repl =~= Seq::<ItemSegment>::empty());
    } else {
        let rest = s.drop_first();
        assert(s =~= seq![s[0]] + rest);
        lemma_pick_prepend(s[0], rest, Class::Selected(action));
        lemma_pick_prepend(s[0], rest, Class::Selected(other));
        if spec_matches_action(s[0], action) {
            let tail = repl.drop_first();
            assert forall|i: int| 0 <= i < tail.len() implies spec_matches_action(
                #[trigger] tail[i],
                action,
            ) by {
                assert(tail[i] == repl[i + 1]);
            }
            lemma_merge_back_pick(rest, tail, action, other);
            let m = merge_back(rest, tail, action);
            lemma_pick_prepend(repl[0], m, Class::Selected(action));
            lemma_pick_prepend(repl[0], m, Class::Selected(other));
            assert(seq![repl[0]] + tail =~= repl);
            if other != action {
                lemma_actions_disjoint(repl[0], action, other);
                lemma_actions_disjoint(s[0], action, other);
            }
        } else {
            lemma_merge_back_pick(rest, repl, action, other);
            let m = merge_back(rest, repl, action);
            lemma_pick_prepend(s[0], m, Class::Selected(action));
            lemma_pick_prepend(s[0], m, Class::Selected(other));
        }
    }
}

/// Filling the moved positions with the moved items themselves changes nothing.
pub proof fn lemma_merge_back_self(t: Seq<ItemSegment>, action: MoveAction)
    ensures
        merge_back(t, pick(t, Class::Selected(action)), action) == t,
    decreases t.len(),
{
    if t.len() > 0 {
        let rest = t.drop_first();
        assert(t =~= seq![t[0]] + rest);
        lemma_pick_prepend(t[0], rest, Class::Selected(action));
        lemma_merge_back_self(rest, action);
        if spec_matches_action(t[0], action) {
            let p = pick(t, Class::Selected(action));
            assert(p[0] == t[0]);
            assert(p.drop_first() =~= pick(rest, Class::Selected(action)));
        }
    }
}

/// The items an action moves are already in the order it would give them.
pub open spec fn action_settled(u: Seq<ItemSegment>, action: MoveAction, config: NormalizeConfig) -> bool {
    spec_action_items(pick(u, Class::Selected(action)), action, config) == pick(
        u,
        Class::Selected(action),
    )
}

pub proof fn lemma_settled_apply_identity(u: Seq<ItemSegment>, action: MoveAction, config: NormalizeConfig)
    requires
        action_settled(u, action, config),
    ensures
        spec_apply_action(u, action, config) == u,
{
    lemma_merge_back_self(u, action);
}

/// Applying an action settles its items, and leaves those of any other action as they were.
pub proof fn lemma_apply_settles(
    u: Seq<ItemSegment>,
    action: MoveAction,
    other: MoveAction,
    config: NormalizeConfig,
)
    ensures
        action_settled(spec_apply_action(u, action, config), action, config),
        other != action ==> pick(spec_apply_action(u, action, config), Class::Selected(other))
            == pick(u, Class::Selected(other)),
{
    broadcast use vstd::seq_lib::group_to_multiset_ensures;

    let sel = pick(u, Class::Selected(action));
    let r = spec_action_items(sel, action, config);
    lemma_pick_in_class(u, Class::Selected(action));
    lemma_action_items_ms(sel, action, config);
    assert forall|i: int| 0 <= i < r.len() implies spec_matches_action(#[trigger] r[i], action) by {
        assert(r.to_multiset().count(r[i]) > 0);
        assert(sel.contains(r[i]));
        let j = choose|j: int| 0 <= j < sel.len() && sel[j] == r[i];
        assert(in_class(sel[j], Class::Selected(action)));
    }
    lemma_merge_back_pick(u, r, action, other);
    lemma_action_items_stable(sel, action, config);
}

pub proof fn lemma_apply_actions_keep_settled(
    u: Seq<ItemSegment>,
    actions: Seq<MoveAction>,
    action: MoveAction,
    config: NormalizeConfig,
)
    requires
        action_settled(u, action, config),
        !actions.contains(action),
    ensures
        action_settled(apply_actions(u, actions, config), action, config),
    decreases actions.len(),
{
    if actions.len() > 0 {
        assert(actions[0] != action);
        lemma_apply_settles(u, actions[0], action, config);
        let rest = actions.drop_first();
        assert(!rest.contains(action)) by {
            if rest.contains(action) {
                let j = choose|j: int| 0 <= j < rest.len() && rest[j] == action;
                assert(actions[j + 1] == action);
            }
        }
        lemma_apply_actions_keep_settled(
            spec_apply_action(u, actions[0], config),
            rest,
            action,
            config,
        );
    }
}

/// After distinct actions are applied in turn, each of them is settled.
pub proof fn lemma_apply_actions_settle(
    s: Seq<ItemSegment>,
    actions: Seq<MoveAction>,
    config: NormalizeConfig,
)
    requires
        actions.no_duplicates(),
    ensures
        forall|k: int|
            0 <= k < actions.len() ==> action_settled(
                apply_actions(s, actions, config),
                #[trigger] actions[k],
                config,
            ),
    decreases actions.len(),
{
    if actions.len() > 0 {
        let a = actions[0];
        let rest = actions.drop_first();
        let u = spec_apply_action(s, a, config);
        lemma_apply_settles(s, a, a, config);
        assert(rest.no_duplicates());
        assert(!rest.contains(a)) by {
            if rest.contains(a) {
                let j = choose|j: int| 0 <= j < rest.len() && rest[j] == a;
                assert(actions[j + 1] == a);
            }
        }
        lemma_apply_actions_keep_settled(u, rest, a, config);
        lemma_apply_actions_settle(u, rest, config);
        assert forall|k: int| 0 <= k < actions.len() implies action_settled(
            apply_actions(s, actions, config),
            #[trigger] actions[k],
            config,
        ) by {
            if k > 0 {
                assert(actions[k] == rest[k - 1]);
            }
        }
    }
}

/// Applying actions that are all settled changes nothing.
pub proof fn lemma_apply_settled_actions(
    t: Seq<ItemSegment>,
    actions: Seq<MoveAction>,
    config: NormalizeConfig,
)
    requires
        forall|k: int| 0 <= k < actions.len() ==> action_settled(t, #[trigger] actions[k], config),
    ensures
        apply_actions(t, actions, config) == t,
    decreases actions.len(),
{
    if actions.len() > 0 {
        lemma_settled_apply_identity(t, actions[0], config);
        let rest = actions.drop_first();
        assert forall|k: int| 0 <= k < rest.len() implies action_settled(
            t,
            #[trigger] rest[k],
            config,
        ) by {
            assert(rest[k] == actions[k + 1]);
        }
        lemma_apply_settled_actions(t, rest, config);
    }
}

/// The actions of the selected features name each action once.
pub proof fn lemma_unique_prefix_distinct(features: Seq<MoveFeature>, k: nat)
    requires
        k <= features.len(),
    ensures
        unique_prefix(features, k).no_duplicates(),
    decreases k,
{
    if k > 0 {
        lemma_unique_prefix_distinct(features, (k - 1) as nat);
        let acc = unique_prefix(features, (k - 1) as nat);
        match spec_action_for_feature(features[k - 1]) {
            Some(a) => {
                if !acc.contains(a) {
                    assert forall|i: int, j: int|
                        0 <= i < acc.push(a).len() && 0 <= j < acc.push(a).len() && i != j
                            implies acc.push(a)[i] != acc.push(a)[j] by {
                        if i == acc.len() {
                            assert(acc.push(a)[j] == acc[j]);
                        } else if j == acc.len() {
                            assert(acc.push(a)[i] == acc[i]);
                        }
                    }
                }
            },
            None => {},
        }
    }
}

/// Normalizing an already normalized order changes nothing, whatever the selection: a
/// second run with the same configuration and features leaves the items where the first
/// put them.
pub proof fn lemma_reorder_items_stable(
    s: Seq<ItemSegment>,
    config: NormalizeConfig,
    selection: MoveSelection,
)
    ensures
        spec_reorder_items(spec_reorder_items(s, config, selection), config, selection)
            == spec_reorder_items(s, config, selection),
{
    if selection.all {
        lemma_reorder_all_stable(s, config);
    } else if selection.features@.len() > 0 {
        let actions = spec_unique_actions(selection.features@);
        let moved = apply_actions(s, actions, config);
        lemma_unique_prefix_distinct(selection.features@, selection.features@.len());
        lemma_apply_actions_settle(s, actions, config);
        if selection.features@.contains(MoveFeature::Imports) {
            let lifted = lift_imports(moved);
            assert forall|k: int| 0 <= k < actions.len() implies action_settled(
                lifted,
                #[trigger] actions[k],
                config,
            ) by {
                lemma_lift_keeps_selected(moved, actions[k]);
            }
            lemma_apply_settled_actions(lifted, actions, config);
            lemma_lift_imports_stable(moved);
        } else {
            lemma_apply_settled_actions(moved, actions, config);
        }
    }
}

/// Picking a class from the items of a wider class picks the same items; picking it from
/// the items of a disjoint class picks none.
pub proof fn lemma_pick_nested(s: Seq<ItemSegment>, d: Class, c: Class)
    ensures
        (forall|x: ItemSegment| #[trigger] in_class(x, c) ==> in_class(x, d)) ==> pick(
            pick(s, d),
            c,
        ) == pick(s, c),
        (forall|x: ItemSegment| #[trigger] in_class(x, d) ==> !in_class(x, c)) ==> pick(
            pick(s, d),
            c,
        ) == Seq::<ItemSegment>::empty(),
    decreases s.len(),
{
    if s.len() > 0 {
        lemma_pick_nested(s.drop_last(), d, c);
        crate::ordering::lemma_pick_push(pick(s.drop_last(), d), s.last(), c);
    }
}

/// Moving the `use` items to the front leaves the items of every action as they were.
pub proof fn lemma_lift_keeps_selected(u: Seq<ItemSegment>, action: MoveAction)
    ensures
        pick(lift_imports(u), Class::Selected(action)) == pick(u, Class::Selected(action)),
{
    lemma_pick_concat(pick(u, Class::Imports), pick(u, Class::NonImports), Class::Selected(action));
    lemma_pick_nested(u, Class::Imports, Class::Selected(action));
    lemma_pick_nested(u, Class::NonImports, Class::Selected(action));
    assert(Seq::<ItemSegment>::empty() + pick(u, Class::Selected(action)) =~= pick(
        u,
        Class::Selected(action),
    ));
}

/// Moving the `use` items to the front twice is moving them once.
pub proof fn lemma_lift_imports_stable(u: Seq<ItemSegment>)
    ensures
        lift_imports(lift_imports(u)) == lift_imports(u),
{
    let i = pick(u, Class::Imports);
    let o = pick(u, Class::NonImports);
    let e = Seq::<ItemSegment>::empty();
    lemma_pick_concat(i, o, Class::Imports);
    lemma_pick_concat(i, o, Class::NonImports);
    lemma_pick_nested(u, Class::Imports, Class::Imports);
    lemma_pick_nested(u, Class::Imports, Class::NonImports);
    lemma_pick_nested(u, Class::NonImports, Class::Imports);
    lemma_pick_nested(u, Class::NonImports, Class::NonImports);
    assert(i + e =~= i);
    assert(e + o =~= o);
}

/// Filling moved positions with moved items leaves the `use` items as they were.
proof fn lemma_merge_back_keeps_imports(s: Seq<ItemSegment>, repl: Seq<ItemSegment>, action: MoveAction)
    requires
        forall|i: int| 0 <= i < repl.len() ==> spec_matches_action(#[trigger] repl[i], action),
    ensures
        pick(merge_back(s, repl, action), Class::Imports) == pick(s, Class::Imports),
    decreases s.len(),
{
    if s.len() > 0 {
        let rest = s.drop_first();
        assert(s =~= seq![s[0]] + rest);
        lemma_pick_prepend(s[0], rest, Class::Imports);
        if spec_matches_action(s[0], action) && repl.len() > 0 {
            let tail = repl.drop_first();
            assert forall|i: int| 0 <= i < tail.len() implies spec_matches_action(
                #[trigger] tail[i],
                action,
            ) by {
                assert(tail[i] == repl[i + 1]);
            }
            lemma_merge_back_keeps_imports(rest, tail, action);
            lemma_pick_prepend(repl[0], merge_back(rest, tail, action), Class::Imports);
        } else {
            lemma_merge_back_keeps_imports(rest, repl, action);
            lemma_pick_prepend(s[0], merge_back(rest, repl, action), Class::Imports);
        }
    }
}

/// Applying actions leaves the `use` items as they were.
proof fn lemma_apply_actions_keep_imports(
    s: Seq<ItemSegment>,
    actions: Seq<MoveAction>,
    config: NormalizeConfig,
)
    ensures
        pick(apply_actions(s, actions, config), Class::Imports) == pick(s, Class::Imports),
    decreases actions.len(),
{
    broadcast use vstd::seq_lib::group_to_multiset_ensures;

    if actions.len() > 0 {
        let a = actions[0];
        let sel = pick(s, Class::Selected(a));
        let r = spec_action_items(sel, a, config);
        lemma_pick_in_class(s, Class::Selected(a));
        lemma_action_items_ms(sel, a, config);
        assert forall|i: int| 0 <= i < r.len() implies spec_matches_action(#[trigger] r[i], a) by {
            assert(r.to_multiset().count(r[i]) > 0);
            assert(sel.contains(r[i]));
            let j = choose|j: int| 0 <= j < sel.len() && sel[j] == r[i];
            assert(in_class(sel[j], Class::Selected(a)));
        }
        lemma_merge_back_keeps_imports(s, r, a);
        lemma_apply_actions_keep_imports(spec_apply_action(s, a, config), actions.drop_first(), config);
    }
}

/// Moving the `imports` feature brings the `use` items of the file to the top, in their
/// order, followed by all other items as the other selected features leave them.
pub proof fn lemma_imports_feature_lifts(
    s: Seq<ItemSegment>,
    config: NormalizeConfig,
    selection: MoveSelection,
)
    requires
        !selection.all,
        selection.features@.contains(MoveFeature::Imports),
    ensures
        spec_reorder_items(s, config, selection) == pick(s, Class::Imports) + pick(
            apply_actions(s, spec_unique_actions(selection.features@), config),
            Class::NonImports,
        ),
{
    let j = choose|j: int| 0 <= j < selection.features@.len() && selection.features@[j] == MoveFeature::Imports;
    assert(selection.features@.len() > 0);
    lemma_apply_actions_keep_imports(s, spec_unique_actions(selection.features@), config);
}

} // verus!
