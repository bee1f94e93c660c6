//! Ingredient lists: the grouped quantities of every ingredient, by name,
//! and the rules for adding quantities to a list and merging lists.
use vstd::prelude::*;
use crate::component::Ingredient;
use crate::quantity;
use crate::quantity::{
    into_group_quantity, merge_grouped_quantities, Amount, GroupedQuantity, KeyView, QuantityType,
    ValueView,
};

verus! {

/// The value of a grouped quantity.
pub type GroupMap<N> = Map<KeyView, ValueView<N>>;

/// The value of an ingredient list: each ingredient name's text mapped to
/// its grouped quantity.
pub type ListMap<N> = Map<Seq<char>, GroupMap<N>>;

/// Grouped quantities by ingredient name; each name occurs at most once.
pub struct IngredientList<N> {
    entries: Vec<(String, GroupedQuantity<N>)>,
}

/// The values of a list of ingredient list entries.
pub open spec fn list_entry_views<N>(entries: Seq<(String, GroupedQuantity<N>)>) -> Seq<
    (Seq<char>, GroupMap<N>),
> {
    entries.map_values(|e: (String, GroupedQuantity<N>)| (e.0@, e.1@))
}

impl<N> IngredientList<N> {
    #[verifier::type_invariant]
    spec fn names_unique(self) -> bool {
        quantity::keys_distinct(list_entry_views(self.entries@))
    }

    /// The entries, in the order in which the names were added.
    pub closed spec fn entry_list(self) -> Seq<(Seq<char>, GroupMap<N>)> {
        list_entry_views(self.entries@)
    }
}

impl<N> View for IngredientList<N> {
    type V = ListMap<N>;

    open spec fn view(&self) -> ListMap<N> {
        quantity::map_of(self.entry_list())
    }
}

/// `after` is `before` with `q` added under `name`: merged into the
/// quantity already there (see `merged`), or stored as it is for a new name.
pub open spec fn added_to<N, F: Fn(N, N) -> N>(
    before: ListMap<N>,
    name: Seq<char>,
    q: GroupMap<N>,
    after: ListMap<N>,
    sum: F,
) -> bool {
    &&& after.dom() == before.dom().insert(name)
    &&& forall|n: Seq<char>|
        #![trigger after[n]]
        n != name && before.contains_key(n) ==> after[n] == before[n]
    &&& if before.contains_key(name) {
        quantity::merged(before[name], q, after[name], sum)
    } else {
        after[name] == q
    }
}

/// Whether two lists can be merged: the quantities of every shared name can.
pub open spec fn lists_can_merge<N>(left: ListMap<N>, right: ListMap<N>) -> bool {
    forall|n: Seq<char>|
        #![trigger left.contains_key(n), right.contains_key(n)]
        left.contains_key(n) && right.contains_key(n) ==> quantity::can_merge(left[n], right[n])
}

/// `out` is what merging list `right` into list `left` gives: every name of
/// either, the quantities of the one that has it, and under a shared name
/// the two quantities merged.
pub open spec fn lists_merged<N, F: Fn(N, N) -> N>(
    left: ListMap<N>,
    right: ListMap<N>,
    out: ListMap<N>,
    sum: F,
) -> bool {
    &&& out.dom() == left.dom().union(right.dom())
    &&& forall|n: Seq<char>|
        #![trigger out[n]]
        left.contains_key(n) && !right.contains_key(n) ==> out[n] == left[n]
    &&& forall|n: Seq<char>|
        #![trigger out[n]]
        right.contains_key(n) && !left.contains_key(n) ==> out[n] == right[n]
    &&& forall|n: Seq<char>|
        #![trigger out[n]]
        left.contains_key(n) && right.contains_key(n) ==> quantity::merged(left[n], right[n], out[n], sum)
}

impl<N: Copy> IngredientList<N> {
    /// An empty list.
    pub fn new() -> (r: IngredientList<N>)
        ensures
            r@ == Map::<Seq<char>, GroupMap<N>>::empty(),
    {
        let r = IngredientList { entries: Vec::new() };
        proof {
            assert(r.entry_list() =~= Seq::<(Seq<char>, GroupMap<N>)>::empty());
            quantity::lemma_map_of_empty::<Seq<char>, GroupMap<N>>();
        }
        r
    }

    /// The entries, each name once.
    pub fn entries(&self) -> (r: &Vec<(String, GroupedQuantity<N>)>)
        ensures
            list_entry_views(r@) == self.entry_list(),
            quantity::keys_distinct(list_entry_views(r@)),
            quantity::map_of(list_entry_views(r@)) == self@,
    {
        proof {
            use_type_invariant(self);
        }
        &self.entries
    }

    fn position(&self, name: &String) -> (r: Option<usize>)
        ensures
            match r {
                Some(i) => i < self.entry_list().len() && self.entry_list()[i as int].0 == name@,
                None => !self@.contains_key(name@),
            },
    {
        let n = self.entries.len();
        let mut i: usize = 0;
        while i < n
            invariant
                n == self.entries@.len(),
                0 <= i <= n,
                forall|j: int| 0 <= j < i ==> self.entry_list()[j].0 != name@,
            decreases n - i,
        {
            if self.entries[i].0 == *name {
                return Some(i);
            }
            i = i + 1;
        }
        proof {
            if self@.contains_key(name@) {
                let j = choose|j: int|
                    0 <= j < self.entry_list().len() && #[trigger] self.entry_list()[j].0 == name@;
                assert(self.entry_list()[j].0 == name@);
            }
        }
        None
    }

    /// The grouped quantity of `name`.
    pub fn get(&self, name: &String) -> (r: Option<&GroupedQuantity<N>>)
        ensures
            match r {
                Some(q) => self@.contains_key(name@) && self@[name@] == q@,
                None => !self@.contains_key(name@),
            },
    {
        proof {
            use_type_invariant(self);
        }
        match self.position(name) {
            Some(i) => {
                proof {
                    quantity::lemma_map_of_at(self.entry_list(), i as int);
                }
                Some(&self.entries[i].1)
            },
            None => None,
        }
    }

    /// Stores `quantity` under `name`, replacing what was stored there.
    pub fn insert(&mut self, name: String, quantity: GroupedQuantity<N>)
        ensures
            final(self)@ == old(self)@.insert(name@, quantity@),
    {
        proof {
            use_type_invariant(&*self);
        }
        let pos = self.position(&name);
        let mut entries: Vec<(String, GroupedQuantity<N>)> = Vec::new();
        std::mem::swap(&mut entries, &mut self.entries);
        let ghost before = list_entry_views(entries@);
        let ghost q = quantity@;
        let ghost nm = name@;
        match pos {
            Some(i) => {
                entries.set(i, (name, quantity));
                proof {
                    quantity::lemma_map_of_update(before, i as int, q);
                    assert(list_entry_views(entries@) =~= before.update(
                        i as int,
                        (before[i as int].0, q),
                    ));
                }
            },
            None => {
                entries.push((name, quantity));
                proof {
                    quantity::lemma_map_of_push(before, nm, q);
                    assert(list_entry_views(entries@) =~= before.push((nm, q)));
                }
            },
        }
        self.entries = entries;
    }
}

/// Adds `quantity_to_add` to the list under `name`: merged into the grouped
/// quantity already there, or stored as the new entry of that name.
pub fn add_to_ingredient_list<N: Copy, F: Fn(N, N) -> N>(
    list: &mut IngredientList<N>,
    name: &String,
    quantity_to_add: &GroupedQuantity<N>,
    sum: &F,
)
    requires
        quantity::total_addition(*sum),
        old(list)@.contains_key(name@) ==> quantity::can_merge(old(list)@[name@], quantity_to_add@),
    ensures
        added_to(old(list)@, name@, quantity_to_add@, final(list)@, *sum),
{
    proof {
        use_type_invariant(&*list);
    }
    let ghost start = list@;
    let pos = list.position(name);
    let mut entries: Vec<(String, GroupedQuantity<N>)> = Vec::new();
    std::mem::swap(&mut entries, &mut list.entries);
    let ghost before = list_entry_views(entries@);
    match pos {
        Some(i) => {
            let (stored_name, mut quantity) = entries.remove(i);
            proof {
                quantity::lemma_map_of_at(before, i as int);
                assert(before[i as int] == (stored_name@, quantity@));
            }
            merge_grouped_quantities(&mut quantity, quantity_to_add, sum);
            let ghost q = quantity@;
            entries.insert(i, (stored_name, quantity));
            proof {
                quantity::lemma_map_of_update(before, i as int, q);
                assert(list_entry_views(entries@) =~= before.update(
                    i as int,
                    (before[i as int].0, q),
                ));
            }
        },
        None => {
            let q = quantity_to_add.clone();
            let ghost qv = q@;
            entries.push((name.clone(), q));
            proof {
                quantity::lemma_map_of_push(before, name@, qv);
                assert(list_entry_views(entries@) =~= before.push((name@, qv)));
            }
        },
    }
    list.entries = entries;
    proof {
        assert(list@.dom() =~= start.dom().insert(name@));
    }
}

/// Merges list `right` into list `left`: a name only `right` has is added
/// with its grouped quantity; under a shared name, the quantities are merged.
pub fn merge_ingredient_lists<N: Copy, F: Fn(N, N) -> N>(
    left: &mut IngredientList<N>,
    right: &IngredientList<N>,
    sum: &F,
)
    requires
        quantity::total_addition(*sum),
        lists_can_merge(old(left)@, right@),
    ensures
        lists_merged(old(left)@, right@, final(left)@, *sum),
{
    let ghost start = left@;
    let entries = right.entries();
    let ghost rl = list_entry_views(entries@);
    let n = entries.len();
    let mut j: usize = 0;
    while j < n
        invariant
            n == rl.len(),
            rl == list_entry_views(entries@),
            quantity::keys_distinct(rl),
            quantity::map_of(rl) == right@,
            quantity::total_addition(*sum),
            lists_can_merge(start, right@),
            0 <= j <= n,
            forall|k: Seq<char>|
                #![trigger left@.contains_key(k)]
                left@.contains_key(k) <==> (start.contains_key(k) || quantity::among_first(
                    rl,
                    j as int,
                    k,
                )),
            forall|k: Seq<char>|
                #![trigger left@[k]]
                quantity::among_first(rl, j as int, k) && start.contains_key(k) ==> quantity::merged(
                    start[k],
                    right@[k],
                    left@[k],
                    *sum,
                ),
            forall|k: Seq<char>|
                #![trigger left@[k]]
                quantity::among_first(rl, j as int, k) && !start.contains_key(k) ==> left@[k]
                    == right@[k],
            forall|k: Seq<char>|
                #![trigger left@[k]]
                !quantity::among_first(rl, j as int, k) && start.contains_key(k) ==> left@[k]
                    == start[k],
        decreases n - j,
    {
        let name = &entries[j].0;
        let quantity = &entries[j].1;
        let ghost k = name@;
        proof {
            quantity::lemma_map_of_at(rl, j as int);
            assert(rl[j as int] == (name@, quantity@));
            if quantity::among_first(rl, j as int, k) {
                let i = choose|i: int| 0 <= i < j && #[trigger] rl[i].0 == k;
                assert(rl[i].0 == rl[j as int].0);
            }
            if left@.contains_key(k) {
                assert(start.contains_key(k));
                assert(right@.contains_key(k));
            }
        }
        add_to_ingredient_list(left, name, quantity, sum);
        proof {
            assert forall|x: Seq<char>|
                quantity::among_first(rl, j + 1, x) <==> (quantity::among_first(rl, j as int, x) || x
                    == k) by {
                if quantity::among_first(rl, j + 1, x) {
                    let i = choose|i: int| 0 <= i < j + 1 && #[trigger] rl[i].0 == x;
                    if i < j {
                        assert(quantity::among_first(rl, j as int, x));
                    }
                }
                if x == k {
                    assert(rl[j as int].0 == x);
                }
                if quantity::among_first(rl, j as int, x) {
                    let i = choose|i: int| 0 <= i < j && #[trigger] rl[i].0 == x;
                    assert(rl[i].0 == x);
                }
            }
        }
        j = j + 1;
    }
    proof {
        assert forall|x: Seq<char>| right@.contains_key(x) implies quantity::among_first(
            rl,
            n as int,
            x,
        ) by {
            let i = choose|i: int| 0 <= i < rl.len() && #[trigger] rl[i].0 == x;
            assert(rl[i].0 == x);
        }
        assert forall|x: Seq<char>| quantity::among_first(rl, n as int, x) implies right@.contains_key(
            x,
        ) by {
            let i = choose|i: int| 0 <= i < n && #[trigger] rl[i].0 == x;
            assert(rl[i].0 == x);
        }
        assert(left@.dom() =~= start.dom().union(right@.dom()));
    }
}

/// Merging the empty list into a list leaves it as it is; merging a list
/// into the empty list gives that list.
pub proof fn lemma_lists_merge_with_empty<N, F: Fn(N, N) -> N>(
    m: ListMap<N>,
    out: ListMap<N>,
    sum: F,
)
    ensures
        lists_merged(m, Map::empty(), out, sum) ==> out == m,
        lists_merged(Map::empty(), m, out, sum) ==> out == m,
{
    if lists_merged(m, Map::empty(), out, sum) {
        assert forall|n: Seq<char>| out.contains_key(n) implies #[trigger] out[n] == m[n] by {
            assert(m.contains_key(n));
        }
        assert(out =~= m);
    }
    if lists_merged(Map::empty(), m, out, sum) {
        assert forall|n: Seq<char>| out.contains_key(n) implies #[trigger] out[n] == m[n] by {
            assert(m.contains_key(n));
        }
        assert(out =~= m);
    }
}

/// The grouped quantity of a single (possibly absent) amount.
pub open spec fn single_group<N>(amount: Option<Amount<N>>) -> GroupMap<N> {
    Map::<KeyView, ValueView<N>>::empty().insert(
        quantity::group_key_of(amount),
        quantity::group_value_of(amount),
    )
}

/// The name and grouped quantity that the `i`-th index of `addition` adds.
pub open spec fn addition_name<N>(ingredients: Seq<Ingredient<N>>, addition: Seq<u32>, i: int) -> Seq<
    char,
> {
    ingredients[addition[i] as int].name@
}

/// The grouped quantity that the `i`-th index of `addition` adds.
pub open spec fn addition_group<N>(
    ingredients: Seq<Ingredient<N>>,
    addition: Seq<u32>,
    i: int,
) -> GroupMap<N> {
    single_group(ingredients[addition[i] as int].amount)
}

/// Whether expanding `base` can go through: wherever an added ingredient's
/// quantity lands on a key that `base` already has for that ingredient
/// (a key not of the empty kind), the value there is of the key's kind.
pub open spec fn expansion_can_merge<N>(
    base: ListMap<N>,
    ingredients: Seq<Ingredient<N>>,
    addition: Seq<u32>,
) -> bool {
    forall|i: int|
        #![trigger addition[i]]
        0 <= i < addition.len() ==> {
            let n = addition_name(ingredients, addition, i);
            let k = quantity::group_key_of(ingredients[addition[i] as int].amount);
            base.contains_key(n) && base[n].contains_key(k) && k.1 != QuantityType::Empty
                ==> quantity::kind_of(base[n][k]) == k.1
        }
}

/// `states` runs from the list before the expansion to the list after it,
/// each state being the previous one with the next ingredient's quantity
/// added under its name.
pub open spec fn expansion_steps<N, F: Fn(N, N) -> N>(
    ingredients: Seq<Ingredient<N>>,
    addition: Seq<u32>,
    states: Seq<ListMap<N>>,
    sum: F,
) -> bool {
    &&& states.len() == addition.len() + 1
    &&& forall|i: int|
        #![trigger states[i + 1]]
        0 <= i < addition.len() ==> added_to(
            states[i],
            addition_name(ingredients, addition, i),
            addition_group(ingredients, addition, i),
            states[i + 1],
            sum,
        )
}

/// Every value of `cur` whose kind differs from its key's kind is one that
/// `base` already held there.
pub open spec fn kinds_from<N>(base: ListMap<N>, cur: ListMap<N>) -> bool {
    forall|n: Seq<char>, k: KeyView|
        #![trigger cur[n][k]]
        cur.contains_key(n) && cur[n].contains_key(k) && k.1 != QuantityType::Empty
            && quantity::kind_of(cur[n][k]) != k.1 ==> base.contains_key(n) && base[n].contains_key(
            k,
        ) && cur[n][k] == base[n][k]
}

/// Combining two values under a key of a non-empty kind gives a value of
/// that kind.
pub proof fn lemma_combined_kind<N, F: Fn(N, N) -> N>(
    unit_type: QuantityType,
    stored: ValueView<N>,
    added: ValueView<N>,
    out: ValueView<N>,
    sum: F,
)
    requires
        quantity::combined(unit_type, stored, added, out, sum),
        unit_type != QuantityType::Empty,
    ensures
        quantity::kind_of(out) == unit_type,
{
}

proof fn lemma_addition_keeps_kinds<N, F: Fn(N, N) -> N>(
    base: ListMap<N>,
    cur: ListMap<N>,
    name: Seq<char>,
    k: KeyView,
    v: ValueView<N>,
    next: ListMap<N>,
    sum: F,
)
    requires
        kinds_from(base, cur),
        quantity::kind_of(v) == k.1,
        added_to(cur, name, Map::<KeyView, ValueView<N>>::empty().insert(k, v), next, sum),
    ensures
        kinds_from(base, next),
{
    let single = Map::<KeyView, ValueView<N>>::empty().insert(k, v);
    assert forall|n: Seq<char>, key: KeyView|
        next.contains_key(n) && next[n].contains_key(key) && key.1 != QuantityType::Empty
            && quantity::kind_of(#[trigger] next[n][key]) != key.1 implies base.contains_key(n)
        && base[n].contains_key(key) && next[n][key] == base[n][key] by {
        if n != name {
            assert(next[n] == cur[n]);
            assert(cur[n][key] == next[n][key]);
        } else if cur.contains_key(name) {
            assert(quantity::merged(cur[name], single, next[name], sum));
            if key == k {
                if cur[name].contains_key(k) {
                    assert(quantity::combined(k.1, cur[name][k], single[k], next[name][k], sum));
                    lemma_combined_kind(k.1, cur[name][k], single[k], next[name][k], sum);
                } else {
                    assert(next[name][k] == single[k]);
                }
            } else {
                assert(cur[name].contains_key(key));
                assert(next[name][key] == cur[name][key]);
                assert(cur[n][key] == next[n][key]);
            }
        } else {
            assert(next[name] == single);
        }
    }
}

/// Each step of an expansion adds the listed ingredient's own grouped
/// quantity (the single group of its amount, whether it is a definition or
/// a reference) under that ingredient's name (not its alias).
pub proof fn lemma_expansion_adds_each_ingredient<N, F: Fn(N, N) -> N>(
    ingredients: Seq<Ingredient<N>>,
    addition: Seq<u32>,
    states: Seq<ListMap<N>>,
    sum: F,
)
    requires
        expansion_steps(ingredients, addition, states, sum),
    ensures
        forall|i: int|
            #![trigger addition[i]]
            0 <= i < addition.len() ==> added_to(
                states[i],
                ingredients[addition[i] as int].name@,
                single_group(ingredients[addition[i] as int].amount),
                states[i + 1],
                sum,
            ),
{
    assert forall|i: int| #![trigger addition[i]] 0 <= i < addition.len() implies added_to(
        states[i],
        ingredients[addition[i] as int].name@,
        single_group(ingredients[addition[i] as int].amount),
        states[i + 1],
        sum,
    ) by {
        assert(added_to(
            states[i],
            addition_name(ingredients, addition, i),
            addition_group(ingredients, addition, i),
            states[i + 1],
            sum,
        ));
    }
}

/// After the first `m` steps of an expansion, the list's names are those it
/// started with plus the names of the first `m` listed ingredients; under
/// each name, the keys are those it started with plus the unit-and-kind key
/// of the amount of each of those ingredients with that name.
pub proof fn lemma_expansion_prefix_keys<N, F: Fn(N, N) -> N>(
    ingredients: Seq<Ingredient<N>>,
    addition: Seq<u32>,
    states: Seq<ListMap<N>>,
    sum: F,
    m: int,
)
    requires
        expansion_steps(ingredients, addition, states, sum),
        0 <= m <= addition.len(),
    ensures
        forall|n: Seq<char>|
            #![trigger states[m].contains_key(n)]
            states[m].contains_key(n) <==> (states[0].contains_key(n) || exists|i: int|
                0 <= i < m && #[trigger] ingredients[addition[i] as int].name@ == n),
        forall|n: Seq<char>, k: KeyView|
            #![trigger states[m][n].contains_key(k)]
            (states[m].contains_key(n) && states[m][n].contains_key(k)) <==> ((states[0].contains_key(n)
                && states[0][n].contains_key(k)) || exists|i: int|
                0 <= i < m && #[trigger] ingredients[addition[i] as int].name@ == n
                    && quantity::group_key_of(ingredients[addition[i] as int].amount) == k),
    decreases m,
{
    if m > 0 {
        let p = m - 1;
        lemma_expansion_prefix_keys(ingredients, addition, states, sum, p);
        lemma_expansion_adds_each_ingredient(ingredients, addition, states, sum);
        let name = ingredients[addition[p] as int].name@;
        let key = quantity::group_key_of(ingredients[addition[p] as int].amount);
        let q = single_group(ingredients[addition[p] as int].amount);
        let before = states[p];
        let after = states[m];
        assert(added_to(before, name, q, after, sum));
        assert(q.dom() =~= set![key]);
        assert forall|n: Seq<char>| #![trigger states[m].contains_key(n)] states[m].contains_key(n) <==> (
        states[0].contains_key(n) || exists|i: int|
            0 <= i < m && #[trigger] ingredients[addition[i] as int].name@ == n) by {
            if exists|i: int| 0 <= i < m && #[trigger] ingredients[addition[i] as int].name@ == n {
                let i = choose|i: int| 0 <= i < m && #[trigger] ingredients[addition[i] as int].name@ == n;
                if i < p {
                    assert(before.contains_key(n));
                }
            }
            if before.contains_key(n) && !states[0].contains_key(n) {
                let i = choose|i: int| 0 <= i < p && #[trigger] ingredients[addition[i] as int].name@ == n;
                assert(0 <= i < m && ingredients[addition[i] as int].name@ == n);
            }
        }
        assert forall|n: Seq<char>, k: KeyView|
            #![trigger states[m][n].contains_key(k)]
            (states[m].contains_key(n) && states[m][n].contains_key(k)) <==> ((states[0].contains_key(n)
                && states[0][n].contains_key(k)) || exists|i: int|
                0 <= i < m && #[trigger] ingredients[addition[i] as int].name@ == n
                    && quantity::group_key_of(ingredients[addition[i] as int].amount) == k) by {
            let has_before = before.contains_key(n) && before[n].contains_key(k);
            assert(has_before == (before.contains_key(n) && before[n].contains_key(k)));
            if n != name {
                if before.contains_key(n) {
                    assert(after[n] == before[n]);
                }
                if exists|i: int|
                    0 <= i < m && #[trigger] ingredients[addition[i] as int].name@ == n
                        && quantity::group_key_of(ingredients[addition[i] as int].amount) == k {
                    let i = choose|i: int|
                        0 <= i < m && #[trigger] ingredients[addition[i] as int].name@ == n
                            && quantity::group_key_of(ingredients[addition[i] as int].amount) == k;
                    assert(i < p);
                    assert(before[n].contains_key(k));
                }
            } else {
                if before.contains_key(name) {
                    assert(quantity::merged(before[name], q, after[name], sum));
                    assert(after[name].dom() == before[name].dom().union(q.dom()));
                } else {
                    assert(after[name] == q);
                }
                if exists|i: int|
                    0 <= i < m && #[trigger] ingredients[addition[i] as int].name@ == n
                        && quantity::group_key_of(ingredients[addition[i] as int].amount) == k {
                    let i = choose|i: int|
                        0 <= i < m && #[trigger] ingredients[addition[i] as int].name@ == n
                            && quantity::group_key_of(ingredients[addition[i] as int].amount) == k;
                    if i < p {
                        assert(before[n].contains_key(k));
                    }
                }
                if k == key {
                    assert(0 <= p < m && ingredients[addition[p] as int].name@ == n
                        && quantity::group_key_of(ingredients[addition[p] as int].amount) == k);
                }
                if has_before && !(states[0].contains_key(n) && states[0][n].contains_key(k)) {
                    let i = choose|i: int|
                        0 <= i < p && #[trigger] ingredients[addition[i] as int].name@ == n
                            && quantity::group_key_of(ingredients[addition[i] as int].amount) == k;
                    assert(0 <= i < m);
                }
            }
            if n != name && has_before && !(states[0].contains_key(n) && states[0][n].contains_key(k)) {
                let i = choose|i: int|
                    0 <= i < p && #[trigger] ingredients[addition[i] as int].name@ == n
                        && quantity::group_key_of(ingredients[addition[i] as int].amount) == k;
                assert(0 <= i < m);
            }
        }
    }
}

/// Whether the `i`-th listed ingredient is named `n` and its amount falls
/// under key `k` (its unit and kind of value).
pub open spec fn lands_on<N>(
    ingredients: Seq<Ingredient<N>>,
    addition: Seq<u32>,
    i: int,
    n: Seq<char>,
    k: KeyView,
) -> bool {
    ingredients[addition[i] as int].name@ == n && quantity::group_key_of(
        ingredients[addition[i] as int].amount,
    ) == k
}

proof fn lemma_added_value<N, F: Fn(N, N) -> N>(
    before: ListMap<N>,
    name: Seq<char>,
    key: KeyView,
    val: ValueView<N>,
    after: ListMap<N>,
    sum: F,
    n: Seq<char>,
    k: KeyView,
)
    requires
        added_to(before, name, Map::<KeyView, ValueView<N>>::empty().insert(key, val), after, sum),
    ensures
        (n != name || k != key) && before.contains_key(n) && before[n].contains_key(k)
            ==> after.contains_key(n) && after[n].contains_key(k) && after[n][k] == before[n][k],
        n == name && k == key && !(before.contains_key(n) && before[n].contains_key(k))
            ==> after[n][k] == val,
        n == name && k == key && before.contains_key(n) && before[n].contains_key(k)
            ==> quantity::combined(k.1, before[n][k], val, after[n][k], sum),
{
    let q = Map::<KeyView, ValueView<N>>::empty().insert(key, val);
    if n == name && before.contains_key(name) {
        assert(quantity::merged(before[name], q, after[name], sum));
        assert(after[name].dom() == before[name].dom().union(q.dom()));
        if k != key {
            assert(!q.contains_key(k));
        }
    }
}

/// After the first `m` steps of an expansion, under a name and key:
/// - that no ingredient among the first `m` lands on, the value the list
///   started with stays;
/// - that the list did not have and exactly one of them lands on, the value
///   is that ingredient's own (that of its amount);
/// - that the list did not have and exactly two of them land on, the value
///   is the first one's combined with the second one's (numbers summed by
///   `sum`, texts concatenated).
pub proof fn lemma_expansion_prefix_values<N, F: Fn(N, N) -> N>(
    ingredients: Seq<Ingredient<N>>,
    addition: Seq<u32>,
    states: Seq<ListMap<N>>,
    sum: F,
    m: int,
)
    requires
        expansion_steps(ingredients, addition, states, sum),
        0 <= m <= addition.len(),
    ensures
        forall|n: Seq<char>, k: KeyView|
            #![trigger states[m][n][k]]
            states[0].contains_key(n) && states[0][n].contains_key(k) && (forall|i: int|
                0 <= i < m ==> !#[trigger] lands_on(ingredients, addition, i, n, k))
                ==> states[m][n][k] == states[0][n][k],
        forall|n: Seq<char>, k: KeyView, i: int|
            #![trigger states[m][n][k], lands_on(ingredients, addition, i, n, k)]
            !(states[0].contains_key(n) && states[0][n].contains_key(k)) && 0 <= i < m
                && lands_on(ingredients, addition, i, n, k) && (forall|i2: int|
                0 <= i2 < m && #[trigger] lands_on(ingredients, addition, i2, n, k) ==> i2 == i)
                ==> states[m][n][k] == quantity::group_value_of(
                ingredients[addition[i] as int].amount,
            ),
        forall|n: Seq<char>, k: KeyView, i: int, j: int|
            #![trigger states[m][n][k], lands_on(ingredients, addition, i, n, k), lands_on(ingredients, addition, j, n, k)]
            !(states[0].contains_key(n) && states[0][n].contains_key(k)) && 0 <= i < j < m
                && lands_on(ingredients, addition, i, n, k) && lands_on(ingredients, addition, j, n, k)
                && (forall|i2: int|
                0 <= i2 < m && #[trigger] lands_on(ingredients, addition, i2, n, k) ==> i2 == i || i2
                    == j) ==> quantity::combined(
                k.1,
                quantity::group_value_of(ingredients[addition[i] as int].amount),
                quantity::group_value_of(ingredients[addition[j] as int].amount),
                states[m][n][k],
                sum,
            ),
    decreases m,
{
    if m > 0 {
        let p = m - 1;
        lemma_expansion_prefix_values(ingredients, addition, states, sum, p);
        lemma_expansion_prefix_keys(ingredients, addition, states, sum, p);
        lemma_expansion_adds_each_ingredient(ingredients, addition, states, sum);
        let name = ingredients[addition[p] as int].name@;
        let key = quantity::group_key_of(ingredients[addition[p] as int].amount);
        let val = quantity::group_value_of(ingredients[addition[p] as int].amount);
        let before = states[p];
        let after = states[m];
        assert(added_to(before, name, single_group(ingredients[addition[p] as int].amount), after, sum));
        assert forall|n: Seq<char>, k: KeyView|
            #![trigger states[m][n][k]]
            states[0].contains_key(n) && states[0][n].contains_key(k) && (forall|i: int|
                0 <= i < m ==> !#[trigger] lands_on(ingredients, addition, i, n, k))
                implies states[m][n][k] == states[0][n][k] by {
            assert(!lands_on(ingredients, addition, p, n, k));
            assert(before.contains_key(n) && before[n].contains_key(k));
            lemma_added_value(before, name, key, val, after, sum, n, k);
        }
        assert forall|n: Seq<char>, k: KeyView, i: int|
            #![trigger states[m][n][k], lands_on(ingredients, addition, i, n, k)]
            !(states[0].contains_key(n) && states[0][n].contains_key(k)) && 0 <= i < m
                && lands_on(ingredients, addition, i, n, k) && (forall|i2: int|
                0 <= i2 < m && #[trigger] lands_on(ingredients, addition, i2, n, k) ==> i2 == i)
                implies states[m][n][k] == quantity::group_value_of(
                ingredients[addition[i] as int].amount,
            ) by {
            lemma_added_value(before, name, key, val, after, sum, n, k);
            if i < p {
                assert(!lands_on(ingredients, addition, p, n, k));
                assert(before.contains_key(n) && before[n].contains_key(k));
            } else {
                if before.contains_key(n) && before[n].contains_key(k) {
                    let i2 = choose|i2: int|
                        0 <= i2 < p && #[trigger] ingredients[addition[i2] as int].name@ == n
                            && quantity::group_key_of(ingredients[addition[i2] as int].amount) == k;
                    assert(lands_on(ingredients, addition, i2, n, k));
                }
            }
        }
        assert forall|n: Seq<char>, k: KeyView, i: int, j: int|
            #![trigger states[m][n][k], lands_on(ingredients, addition, i, n, k), lands_on(ingredients, addition, j, n, k)]
            !(states[0].contains_key(n) && states[0][n].contains_key(k)) && 0 <= i < j < m
                && lands_on(ingredients, addition, i, n, k) && lands_on(ingredients, addition, j, n, k)
                && (forall|i2: int|
                0 <= i2 < m && #[trigger] lands_on(ingredients, addition, i2, n, k) ==> i2 == i || i2
                    == j) implies quantity::combined(
                k.1,
                quantity::group_value_of(ingredients[addition[i] as int].amount),
                quantity::group_value_of(ingredients[addition[j] as int].amount),
                states[m][n][k],
                sum,
            ) by {
            lemma_added_value(before, name, key, val, after, sum, n, k);
            assert(ingredients[addition[i] as int].name@ == n);
            assert(before.contains_key(n) && before[n].contains_key(k));
            if j < p {
                assert(!lands_on(ingredients, addition, p, n, k));
            } else {
                assert(forall|i2: int|
                    0 <= i2 < p && #[trigger] lands_on(ingredients, addition, i2, n, k) ==> i2 == i);
            }
        }
    }
}

/// Adds to `base` the grouped quantity of each ingredient whose index
/// `addition` lists, in order, under the ingredient's name.
pub fn expand_with_ingredients<N: Copy, F: Fn(N, N) -> N>(
    ingredients: &[Ingredient<N>],
    base: &mut IngredientList<N>,
    addition: &Vec<u32>,
    sum: &F,
)
    requires
        quantity::total_addition(*sum),
        forall|i: int| 0 <= i < addition@.len() ==> #[trigger] addition@[i] < ingredients@.len(),
        expansion_can_merge(old(base)@, ingredients@, addition@),
    ensures
        exists|states: Seq<ListMap<N>>|
            #![trigger expansion_steps(ingredients@, addition@, states, *sum)]
            expansion_steps(ingredients@, addition@, states, *sum) && states[0] == old(base)@
                && states.last() == final(base)@ && (forall|i: int|
                #![trigger addition@[i]]
                0 <= i < addition@.len() ==> added_to(
                    states[i],
                    ingredients@[addition@[i] as int].name@,
                    single_group(ingredients@[addition@[i] as int].amount),
                    states[i + 1],
                    *sum,
                )),
        forall|n: Seq<char>|
            #![trigger final(base)@.contains_key(n)]
            final(base)@.contains_key(n) <==> (old(base)@.contains_key(n) || exists|i: int|
                0 <= i < addition@.len() && #[trigger] ingredients@[addition@[i] as int].name@
                    == n),
        forall|n: Seq<char>, k: KeyView|
            #![trigger final(base)@[n].contains_key(k)]
            (final(base)@.contains_key(n) && final(base)@[n].contains_key(k)) <==> ((old(
                base,
            )@.contains_key(n) && old(base)@[n].contains_key(k)) || exists|i: int|
                0 <= i < addition@.len() && #[trigger] ingredients@[addition@[i] as int].name@ == n
                    && quantity::group_key_of(ingredients@[addition@[i] as int].amount) == k),
        forall|n: Seq<char>, k: KeyView|
            #![trigger final(base)@[n][k]]
            old(base)@.contains_key(n) && old(base)@[n].contains_key(k) && (forall|i: int|
                0 <= i < addition@.len() ==> !#[trigger] lands_on(ingredients@, addition@, i, n, k))
                ==> final(base)@[n][k] == old(base)@[n][k],
        forall|n: Seq<char>, k: KeyView, i: int|
            #![trigger final(base)@[n][k], lands_on(ingredients@, addition@, i, n, k)]
            !(old(base)@.contains_key(n) && old(base)@[n].contains_key(k)) && 0 <= i
                < addition@.len() && lands_on(ingredients@, addition@, i, n, k) && (forall|i2: int|
                0 <= i2 < addition@.len() && #[trigger] lands_on(ingredients@, addition@, i2, n, k)
                    ==> i2 == i) ==> final(base)@[n][k] == quantity::group_value_of(
                ingredients@[addition@[i] as int].amount,
            ),
        forall|n: Seq<char>, k: KeyView, i: int, j: int|
            #![trigger final(base)@[n][k], lands_on(ingredients@, addition@, i, n, k), lands_on(ingredients@, addition@, j, n, k)]
            !(old(base)@.contains_key(n) && old(base)@[n].contains_key(k)) && 0 <= i < j
                < addition@.len() && lands_on(ingredients@, addition@, i, n, k) && lands_on(
                ingredients@,
                addition@,
                j,
                n,
                k,
            ) && (forall|i2: int|
                0 <= i2 < addition@.len() && #[trigger] lands_on(ingredients@, addition@, i2, n, k)
                    ==> i2 == i || i2 == j) ==> quantity::combined(
                k.1,
                quantity::group_value_of(ingredients@[addition@[i] as int].amount),
                quantity::group_value_of(ingredients@[addition@[j] as int].amount),
                final(base)@[n][k],
                *sum,
            ),
{
    let ghost base0 = base@;
    let ghost mut states: Seq<ListMap<N>> = seq![base0];
    let n = addition.len();
    let mut j: usize = 0;
    while j < n
        invariant
            n == addition@.len(),
            0 <= j <= n,
            quantity::total_addition(*sum),
            forall|i: int| 0 <= i < addition@.len() ==> #[trigger] addition@[i] < ingredients@.len(),
            expansion_can_merge(base0, ingredients@, addition@),
            states.len() == j + 1,
            states[0] == base0,
            states[j as int] == base@,
            forall|i: int|
                #![trigger states[i + 1]]
                0 <= i < j ==> added_to(
                    states[i],
                    addition_name(ingredients@, addition@, i),
                    addition_group(ingredients@, addition@, i),
                    states[i + 1],
                    *sum,
                ),
            kinds_from(base0, base@),
        decreases n - j,
    {
        let index = addition[j] as usize;
        proof {
            assert(addition@[j as int] < ingredients@.len());
        }
        let ingredient = &ingredients[index];
        let quantity = into_group_quantity(&ingredient.amount);
        let ghost k = quantity::group_key_of(ingredient.amount);
        let ghost v = quantity::group_value_of(ingredient.amount);
        let ghost cur = base@;
        let ghost name = ingredient.name@;
        proof {
            assert(quantity@ == single_group(ingredient.amount));
            assert(quantity::kind_of(v) == k.1);
            if cur.contains_key(name) {
                assert forall|key: KeyView|
                    #![trigger cur[name].contains_key(key), quantity@.contains_key(key)]
                    cur[name].contains_key(key) && quantity@.contains_key(key) && key.1
                        != QuantityType::Empty implies quantity::kind_of(cur[name][key]) == key.1
                    && quantity::kind_of(quantity@[key]) == key.1 by {
                    assert(key == k);
                    assert(addition@[j as int] == index);
                    if quantity::kind_of(cur[name][key]) != key.1 {
                        assert(base0.contains_key(name) && base0[name].contains_key(key)
                            && cur[name][key] == base0[name][key]);
                    }
                }
            }
        }
        add_to_ingredient_list(base, &ingredient.name, &quantity, sum);
        proof {
            lemma_addition_keeps_kinds(base0, cur, name, k, v, base@, *sum);
            let old_states = states;
            states = states.push(base@);
            assert forall|i: int|
                #![trigger states[i + 1]]
                0 <= i < j + 1 implies added_to(
                states[i],
                addition_name(ingredients@, addition@, i),
                addition_group(ingredients@, addition@, i),
                states[i + 1],
                *sum,
            ) by {
                if i < j {
                    assert(old_states[i + 1] == states[i + 1]);
                    assert(old_states[i] == states[i]);
                } else {
                    assert(addition@[i] == index);
                }
            }
        }
        j = j + 1;
    }
    proof {
        assert(expansion_steps(ingredients@, addition@, states, *sum));
        lemma_expansion_adds_each_ingredient(ingredients@, addition@, states, *sum);
        lemma_expansion_prefix_keys(ingredients@, addition@, states, *sum, n as int);
        lemma_expansion_prefix_values(ingredients@, addition@, states, *sum, n as int);
        assert(states.last() == states[n as int]);
    }
}

} // verus!
