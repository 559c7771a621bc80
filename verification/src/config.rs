//! Command-line options and the `normalize.toml` configuration.
use vstd::prelude::*;

use crate::text::{chars_of, same_chars};
use vstd::string::StringExecFns;

verus! {

/// A normalization feature that can be moved on its own (`--move-feature`).
#[derive(Debug, Clone, Copy, PartialEq, Eq, Structural)]
pub enum MoveFeature {
    Attributes,
    Imports,
    Mods,
    Macros,
    Constants,
    Types,
    Enums,
    Structs,
    Impls,
    Traits,
    Foreign,
    Functions,
    Tests,
}

/// A group of items whose place in the configured priority list decides the order.
#[derive(Debug, Clone, Copy, PartialEq, Eq, Structural)]
pub enum ItemOrder {
    Attributes,
    Imports,
    Mods,
    Macros,
    Constants,
    Types,
    Enums,
    Structs,
    Impls,
    Traits,
    Foreign,
    Functions,
    Tests,
}

/// The parsed command line.
pub struct Cli {
    /// Check whether files are normalized without writing changes.
    pub check: bool,
    /// Features to move, in the order given.
    pub move_feature: Vec<MoveFeature>,
    /// Move all normalization features.
    pub all: bool,
    /// File or directory to normalize.
    pub path: String,
}

/// Which normalization features a run moves.
pub struct MoveSelection {
    pub all: bool,
    pub features: Vec<MoveFeature>,
}

/// The contents of `normalize.toml`.
pub struct NormalizeConfig {
    /// Priority of the item groups, first to last.
    pub order: Vec<ItemOrder>,
    pub compact_use_block: bool,
    pub compact_const_block: bool,
    pub compact_mod_block: bool,
    /// If true, a one-line comment with the relative path opens each file.
    pub relative_path_comment: bool,
}

impl Cli {
    /// Check mode is in effect when asked for, or when nothing is asked to move.
    pub open spec fn spec_is_effective_check(&self) -> bool {
        self.check || (!self.all && self.move_feature@.len() == 0)
    }

    pub fn is_effective_check(&self) -> (r: bool)
        ensures
            r == self.spec_is_effective_check(),
    {
        self.check || (!self.all && self.move_feature.len() == 0)
    }

    /// With no feature named and in check mode, every feature is selected.
    pub fn effective_move_selection(&self) -> (r: MoveSelection)
        ensures
            r.all == (self.all || (self.move_feature@.len() == 0
                && self.spec_is_effective_check())),
            r.features@ == self.move_feature@,
    {
        let effective_check = self.is_effective_check();
        let implicit_all = !self.all && self.move_feature.len() == 0 && effective_check;
        let mut features: Vec<MoveFeature> = Vec::new();
        let mut i: usize = 0;
        while i < self.move_feature.len()
            invariant
                i <= self.move_feature@.len(),
                features@ == self.move_feature@.take(i as int),
            decreases self.move_feature.len() - i,
        {
            features.push(self.move_feature[i]);
            i = i + 1;
            assert(features@ =~= self.move_feature@.take(i as int));
        }
        assert(self.move_feature@.take(i as int) =~= self.move_feature@);
        MoveSelection { all: self.all || implicit_all, features }
    }
}

/// Index of the first occurrence of `t` in `s`.
pub open spec fn first_position(s: Seq<ItemOrder>, t: ItemOrder) -> Option<int>
    decreases s.len(),
{
    if s.len() == 0 {
        None
    } else if s[0] == t {
        Some(0)
    } else {
        match first_position(s.drop_first(), t) {
            Some(i) => Some(i + 1),
            None => None,
        }
    }
}

pub proof fn lemma_first_position(s: Seq<ItemOrder>, t: ItemOrder, k: int)
    requires
        0 <= k <= s.len(),
        forall|j: int| 0 <= j < k ==> s[j] != t,
    ensures
        k < s.len() && s[k] == t ==> first_position(s, t) == Some(k),
        k == s.len() ==> first_position(s, t) is None,
    decreases k,
{
    if k > 0 {
        assert forall|j: int| 0 <= j < k - 1 implies s.drop_first()[j] != t by {
            assert(s.drop_first()[j] == s[j + 1]);
        }
        lemma_first_position(s.drop_first(), t, k - 1);
    }
}

/// Whether `left` is listed no later than `right`; an unlisted group comes after listed ones.
pub open spec fn spec_comes_before(order: Seq<ItemOrder>, left: ItemOrder, right: ItemOrder) -> bool {
    match (first_position(order, left), first_position(order, right)) {
        (Some(l), Some(r)) => l <= r,
        (Some(_), None) => true,
        (None, Some(_)) => false,
        (None, None) => true,
    }
}

/// The place of `group` in the priority list, or `default_rank` if it is not listed.
pub open spec fn spec_rank(order: Seq<ItemOrder>, group: ItemOrder, default_rank: usize) -> int {
    match first_position(order, group) {
        Some(i) => i,
        None => default_rank as int,
    }
}

pub open spec fn default_order() -> Seq<ItemOrder> {
    seq![
        ItemOrder::Attributes,
        ItemOrder::Mods,
        ItemOrder::Imports,
        ItemOrder::Macros,
        ItemOrder::Constants,
        ItemOrder::Types,
        ItemOrder::Enums,
        ItemOrder::Structs,
        ItemOrder::Impls,
        ItemOrder::Traits,
        ItemOrder::Foreign,
        ItemOrder::Functions,
        ItemOrder::Tests,
    ]
}

impl NormalizeConfig {
    pub open spec fn spec_mods_before_macros(&self) -> bool {
        spec_comes_before(self.order@, ItemOrder::Mods, ItemOrder::Macros)
    }

    pub open spec fn spec_constants_before_types(&self) -> bool {
        spec_comes_before(self.order@, ItemOrder::Constants, ItemOrder::Types)
    }

    fn position(&self, target: ItemOrder) -> (r: Option<usize>)
        ensures
            r matches Some(i) ==> first_position(self.order@, target) == Some(i as int),
            r is None ==> first_position(self.order@, target) is None,
    {
        let mut i: usize = 0;
        while i < self.order.len()
            invariant
                i <= self.order@.len(),
                forall|j: int| 0 <= j < i ==> self.order@[j] != target,
            decreases self.order.len() - i,
        {
            if self.order[i] == target {
                proof {
                    lemma_first_position(self.order@, target, i as int);
                }
                return Some(i);
            }
            i = i + 1;
        }
        proof {
            lemma_first_position(self.order@, target, i as int);
        }
        None
    }

    fn comes_before(&self, left: ItemOrder, right: ItemOrder) -> (r: bool)
        ensures
            r == spec_comes_before(self.order@, left, right),
    {
        match (self.position(left), self.position(right)) {
            (Some(left_idx), Some(right_idx)) => left_idx <= right_idx,
            (Some(_), None) => true,
            (None, Some(_)) => false,
            (None, None) => true,
        }
    }

    /// The place of `group` in the priority list, or `default_rank` if it is not listed.
    pub fn rank(&self, group: ItemOrder, default_rank: usize) -> (r: usize)
        ensures
            r as int == spec_rank(self.order@, group, default_rank),
    {
        match self.position(group) {
            Some(i) => i,
            None => default_rank,
        }
    }

    /// Whether modules are placed before macros.
    pub fn mods_before_macros(&self) -> (r: bool)
        ensures
            r == self.spec_mods_before_macros(),
    {
        self.comes_before(ItemOrder::Mods, ItemOrder::Macros)
    }

    /// Whether constants are placed before type aliases.
    pub fn constants_before_types(&self) -> (r: bool)
        ensures
            r == self.spec_constants_before_types(),
    {
        self.comes_before(ItemOrder::Constants, ItemOrder::Types)
    }
}

impl Default for NormalizeConfig {
    fn default() -> (r: Self)
        ensures
            r.order@ == default_order(),
            r.compact_use_block,
            r.compact_const_block,
            r.compact_mod_block,
            !r.relative_path_comment,
    {
        let mut order: Vec<ItemOrder> = Vec::new();
        order.push(ItemOrder::Attributes);
        order.push(ItemOrder::Mods);
        order.push(ItemOrder::Imports);
        order.push(ItemOrder::Macros);
        order.push(ItemOrder::Constants);
        order.push(ItemOrder::Types);
        order.push(ItemOrder::Enums);
        order.push(ItemOrder::Structs);
        order.push(ItemOrder::Impls);
        order.push(ItemOrder::Traits);
        order.push(ItemOrder::Foreign);
        order.push(ItemOrder::Functions);
        order.push(ItemOrder::Tests);
        assert(order@ =~= default_order());
        NormalizeConfig {
            order,
            compact_use_block: true,
            compact_const_block: true,
            compact_mod_block: true,
            relative_path_comment: false,
        }
    }
}

/// The arguments a cargo subcommand receives, rewritten for the option parser:
/// a leading `normalize` subcommand word is dropped, and `help` becomes `--help`.
pub open spec fn spec_cli_args(args: Seq<Seq<char>>) -> Seq<Seq<char>> {
    let a = if args.len() > 1 && args[1] == "normalize"@ {
        args.remove(1)
    } else {
        args
    };
    if a.len() > 1 && a[1] == "help"@ {
        a.update(1, "--help"@)
    } else {
        a
    }
}

/// Rewrites the process arguments as `cargo normalize` passes them.
pub fn prepare_cli_args(args: Vec<String>) -> (r: Vec<String>)
    ensures
        r.deep_view() == spec_cli_args(args.deep_view()),
{
    let mut args = args;
    let ghost original = args.deep_view();
    if args.len() > 1 {
        let word = chars_of(args[1].as_str());
        let target = chars_of("normalize");
        if same_chars(word.as_slice(), target.as_slice()) {
            args.remove(1);
            assert(args.deep_view() =~= original.remove(1));
        }
    }
    let ghost middle = args.deep_view();
    if args.len() > 1 {
        let word = chars_of(args[1].as_str());
        let target = chars_of("help");
        if same_chars(word.as_slice(), target.as_slice()) {
            let replacement = String::from_str("--help");
            args.set(1, replacement);
            assert(args.deep_view() =~= middle.update(1, "--help"@));
        }
    }
    args
}

/// Of two groups, at least one is placed no later than the other.
pub proof fn lemma_comes_before_total(order: Seq<ItemOrder>, a: ItemOrder, b: ItemOrder)
    ensures
        spec_comes_before(order, a, b) || spec_comes_before(order, b, a),
{
}

/// The default priority puts modules before macros and constants before type aliases.
pub proof fn lemma_default_order()
    ensures
        spec_comes_before(default_order(), ItemOrder::Mods, ItemOrder::Macros),
        spec_comes_before(default_order(), ItemOrder::Constants, ItemOrder::Types),
        spec_rank(default_order(), ItemOrder::Structs, 0) < spec_rank(
            default_order(),
            ItemOrder::Impls,
            2,
        ),
{
    reveal_with_fuel(first_position, 14);
}

/// Without options, a run checks every feature and writes nothing; naming features
/// without `--check` leaves check mode.
pub proof fn lemma_default_mode(cli: Cli)
    ensures
        !cli.check && !cli.all && cli.move_feature@.len() == 0 ==> cli.spec_is_effective_check()
            && (cli.all || (cli.move_feature@.len() == 0 && cli.spec_is_effective_check())),
        !cli.check && cli.move_feature@.len() > 0 ==> !cli.spec_is_effective_check(),
{
}

} // verus!
