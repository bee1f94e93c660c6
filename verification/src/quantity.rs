//! Quantities of components, and the grouping of ingredient quantities by
//! unit and kind of value, as used to build ingredient lists.
//!
//! The numeric part of a value is a type parameter: the library never
//! computes with numbers itself; where two numbers are summed, it calls the
//! addition that its caller hands in.
use vstd::prelude::*;
use vstd::string::*;

verus! {

/// Type of quantity value in a grouped quantity
#[derive(Debug, Clone, Copy, Hash, Eq, PartialEq, Structural)]
pub enum QuantityType {
    Number,
    Range,
    Text,
    Empty,
}

/// Key for grouping quantities by unit and type
#[derive(Debug, Hash, Eq, PartialEq)]
pub struct GroupedQuantityKey {
    pub name: String,
    pub unit_type: QuantityType,
}

/// The value of a grouping key: the unit name's text and the kind of value.
pub type KeyView = (Seq<char>, QuantityType);

impl View for GroupedQuantityKey {
    type V = KeyView;

    open spec fn view(&self) -> KeyView {
        (self.name@, self.unit_type)
    }
}

impl Clone for GroupedQuantityKey {
    fn clone(&self) -> (r: Self)
        ensures
            r == *self,
    {
        GroupedQuantityKey { name: self.name.clone(), unit_type: self.unit_type }
    }
}

impl GroupedQuantityKey {
    /// Whether two keys have the same unit name and kind.
    fn same_key(&self, other: &GroupedQuantityKey) -> (r: bool)
        ensures
            r == (self@ == other@),
    {
        self.unit_type == other.unit_type && self.name == other.name
    }
}

/// Types of values that can represent quantities; `N` is the type of the
/// numbers.
#[derive(Debug, PartialEq)]
pub enum Value<N> {
    Number { value: N },
    Range { start: N, end: N },
    Text { value: String },
    Empty,
}

/// The value of a `Value`: text taken as its characters.
pub enum ValueView<N> {
    Number { value: N },
    Range { start: N, end: N },
    Text { value: Seq<char> },
    Empty,
}

impl<N> View for Value<N> {
    type V = ValueView<N>;

    open spec fn view(&self) -> ValueView<N> {
        match self {
            Value::Number { value } => ValueView::Number { value: *value },
            Value::Range { start, end } => ValueView::Range { start: *start, end: *end },
            Value::Text { value } => ValueView::Text { value: value@ },
            Value::Empty => ValueView::Empty,
        }
    }
}

impl<N: Copy> Clone for Value<N> {
    fn clone(&self) -> (r: Self)
        ensures
            r == *self,
    {
        match self {
            Value::Number { value } => Value::Number { value: *value },
            Value::Range { start, end } => Value::Range { start: *start, end: *end },
            Value::Text { value } => Value::Text { value: value.clone() },
            Value::Empty => Value::Empty,
        }
    }
}

/// The kind of a value.
pub open spec fn kind_of<N>(value: ValueView<N>) -> QuantityType {
    match value {
        ValueView::Number { .. } => QuantityType::Number,
        ValueView::Range { .. } => QuantityType::Range,
        ValueView::Text { .. } => QuantityType::Text,
        ValueView::Empty => QuantityType::Empty,
    }
}

/// Represents a quantity with optional units
#[derive(Debug, PartialEq)]
pub struct Amount<N> {
    pub quantity: Value<N>,
    pub units: Option<String>,
}

impl<N: Copy> Clone for Amount<N> {
    fn clone(&self) -> (r: Self)
        ensures
            r == *self,
    {
        Amount { quantity: self.quantity.clone(), units: self.units.clone() }
    }
}

/// The map that a list of distinct keys and their values stands for.
pub open spec fn map_of<K, V>(pairs: Seq<(K, V)>) -> Map<K, V> {
    Map::new(
        |k: K| exists|i: int| 0 <= i < pairs.len() && #[trigger] pairs[i].0 == k,
        |k: K| pairs[choose|i: int| 0 <= i < pairs.len() && #[trigger] pairs[i].0 == k].1,
    )
}

/// No key occurs twice in the list.
pub open spec fn keys_distinct<K, V>(pairs: Seq<(K, V)>) -> bool {
    forall|i: int, j: int|
        0 <= i < pairs.len() && 0 <= j < pairs.len() && i != j ==> #[trigger] pairs[i].0
            != #[trigger] pairs[j].0
}

/// Where a key of a list without repeated keys stands, its map holds the
/// value stored beside it.
pub proof fn lemma_map_of_at<K, V>(pairs: Seq<(K, V)>, i: int)
    requires
        keys_distinct(pairs),
        0 <= i < pairs.len(),
    ensures
        map_of(pairs).contains_key(pairs[i].0),
        map_of(pairs)[pairs[i].0] == pairs[i].1,
{
    let k = pairs[i].0;
    assert(pairs[i].0 == k);
    let j = choose|j: int| 0 <= j < pairs.len() && #[trigger] pairs[j].0 == k;
    assert(pairs[j].0 == k);
}

/// Appending a new key adds it to the map.
pub proof fn lemma_map_of_push<K, V>(pairs: Seq<(K, V)>, k: K, v: V)
    requires
        keys_distinct(pairs),
        !map_of(pairs).contains_key(k),
    ensures
        keys_distinct(pairs.push((k, v))),
        map_of(pairs.push((k, v))) == map_of(pairs).insert(k, v),
{
    let p = pairs.push((k, v));
    assert forall|i: int, j: int|
        0 <= i < p.len() && 0 <= j < p.len() && i != j implies #[trigger] p[i].0 != #[trigger] p[j].0 by {
        if i == pairs.len() as int {
            assert(pairs[j].0 == p[j].0);
            if p[j].0 == k {
                assert(map_of(pairs).contains_key(k));
            }
        } else if j == pairs.len() as int {
            assert(pairs[i].0 == p[i].0);
            if p[i].0 == k {
                assert(map_of(pairs).contains_key(k));
            }
        } else {
            assert(p[i] == pairs[i] && p[j] == pairs[j]);
        }
    }
    assert forall|key: K| #[trigger] map_of(p).contains_key(key) <==> map_of(pairs).insert(
        k,
        v,
    ).contains_key(key) by {
        if map_of(p).contains_key(key) {
            let i = choose|i: int| 0 <= i < p.len() && #[trigger] p[i].0 == key;
            if i < pairs.len() {
                assert(pairs[i].0 == key);
            }
        }
        if map_of(pairs).contains_key(key) {
            let i = choose|i: int| 0 <= i < pairs.len() && #[trigger] pairs[i].0 == key;
            assert(p[i].0 == key);
        }
        if key == k {
            assert(p[pairs.len() as int].0 == key);
        }
    }
    assert forall|key: K| #[trigger] map_of(p).contains_key(key) implies map_of(p)[key] == map_of(
        pairs,
    ).insert(k, v)[key] by {
        let i = choose|i: int| 0 <= i < p.len() && #[trigger] p[i].0 == key;
        lemma_map_of_at(p, i);
        if i < pairs.len() {
            assert(p[i] == pairs[i]);
            lemma_map_of_at(pairs, i);
        }
    }
    assert(map_of(p) =~= map_of(pairs).insert(k, v));
}

/// Replacing the value beside a key replaces it in the map.
pub proof fn lemma_map_of_update<K, V>(pairs: Seq<(K, V)>, i: int, v: V)
    requires
        keys_distinct(pairs),
        0 <= i < pairs.len(),
    ensures
        keys_distinct(pairs.update(i, (pairs[i].0, v))),
        map_of(pairs.update(i, (pairs[i].0, v))) == map_of(pairs).insert(pairs[i].0, v),
{
    let k = pairs[i].0;
    let p = pairs.update(i, (k, v));
    assert forall|a: int, b: int|
        0 <= a < p.len() && 0 <= b < p.len() && a != b implies #[trigger] p[a].0 != #[trigger] p[b].0 by {
        assert(p[a].0 == pairs[a].0 && p[b].0 == pairs[b].0);
    }
    assert forall|key: K| #[trigger] map_of(p).contains_key(key) <==> map_of(pairs).insert(
        k,
        v,
    ).contains_key(key) by {
        if map_of(p).contains_key(key) {
            let j = choose|j: int| 0 <= j < p.len() && #[trigger] p[j].0 == key;
            assert(pairs[j].0 == key);
        }
        if map_of(pairs).contains_key(key) {
            let j = choose|j: int| 0 <= j < pairs.len() && #[trigger] pairs[j].0 == key;
            assert(p[j].0 == key);
        }
        if key == k {
            assert(p[i].0 == key);
        }
    }
    assert forall|key: K| #[trigger] map_of(p).contains_key(key) implies map_of(p)[key] == map_of(
        pairs,
    ).insert(k, v)[key] by {
        let j = choose|j: int| 0 <= j < p.len() && #[trigger] p[j].0 == key;
        lemma_map_of_at(p, j);
        if j != i {
            lemma_map_of_at(pairs, j);
        }
    }
    assert(map_of(p) =~= map_of(pairs).insert(k, v));
}

/// The empty list stands for the empty map.
pub proof fn lemma_map_of_empty<K, V>()
    ensures
        map_of(Seq::<(K, V)>::empty()) == Map::<K, V>::empty(),
{
    assert(map_of(Seq::<(K, V)>::empty()) =~= Map::<K, V>::empty());
}

/// Quantities of one ingredient grouped by unit and kind of value; each
/// key occurs at most once.
pub struct GroupedQuantity<N> {
    entries: Vec<(GroupedQuantityKey, Value<N>)>,
}

/// The values of a list of grouped quantity entries.
pub open spec fn entry_views<N>(entries: Seq<(GroupedQuantityKey, Value<N>)>) -> Seq<
    (KeyView, ValueView<N>),
> {
    entries.map_values(|e: (GroupedQuantityKey, Value<N>)| (e.0@, e.1@))
}

impl<N> GroupedQuantity<N> {
    #[verifier::type_invariant]
    spec fn keys_unique(self) -> bool {
        keys_distinct(entry_views(self.entries@))
    }

    /// The entries, in the order in which they were added.
    pub closed spec fn entry_list(self) -> Seq<(KeyView, ValueView<N>)> {
        entry_views(self.entries@)
    }
}

impl<N> View for GroupedQuantity<N> {
    type V = Map<KeyView, ValueView<N>>;

    open spec fn view(&self) -> Map<KeyView, ValueView<N>> {
        map_of(self.entry_list())
    }
}

impl<N: Copy> GroupedQuantity<N> {
    /// A grouped quantity with no entry.
    pub fn new() -> (r: GroupedQuantity<N>)
        ensures
            r@ == Map::<KeyView, ValueView<N>>::empty(),
    {
        let r = GroupedQuantity { entries: Vec::new() };
        proof {
            assert(r.entry_list() =~= Seq::<(KeyView, ValueView<N>)>::empty());
            lemma_map_of_empty::<KeyView, ValueView<N>>();
        }
        r
    }

    /// The entries, each key once.
    pub fn entries(&self) -> (r: &Vec<(GroupedQuantityKey, Value<N>)>)
        ensures
            entry_views(r@) == self.entry_list(),
            keys_distinct(entry_views(r@)),
            map_of(entry_views(r@)) == self@,
    {
        proof {
            use_type_invariant(self);
        }
        &self.entries
    }

    /// Where `key` is, if it is there.
    fn position(&self, key: &GroupedQuantityKey) -> (r: Option<usize>)
        ensures
            match r {
                Some(i) => i < self.entry_list().len() && self.entry_list()[i as int].0 == key@,
                None => !self@.contains_key(key@),
            },
    {
        let n = self.entries.len();
        let mut i: usize = 0;
        while i < n
            invariant
                n == self.entries@.len(),
                0 <= i <= n,
                forall|j: int| 0 <= j < i ==> self.entry_list()[j].0 != key@,
            decreases n - i,
        {
            if self.entries[i].0.same_key(key) {
                return Some(i);
            }
            i = i + 1;
        }
        proof {
            if self@.contains_key(key@) {
                let j = choose|j: int|
                    0 <= j < self.entry_list().len() && #[trigger] self.entry_list()[j].0 == key@;
                assert(self.entry_list()[j].0 == key@);
            }
        }
        None
    }

    /// The value stored under `key`.
    pub fn get(&self, key: &GroupedQuantityKey) -> (r: Option<&Value<N>>)
        ensures
            match r {
                Some(v) => self@.contains_key(key@) && self@[key@] == v@,
                None => !self@.contains_key(key@),
            },
    {
        proof {
            use_type_invariant(self);
        }
        match self.position(key) {
            Some(i) => {
                proof {
                    lemma_map_of_at(self.entry_list(), i as int);
                }
                Some(&self.entries[i].1)
            },
            None => None,
        }
    }

    /// Stores `value` under `key`, replacing what was stored there.
    pub fn insert(&mut self, key: GroupedQuantityKey, value: Value<N>)
        ensures
            final(self)@ == old(self)@.insert(key@, value@),
    {
        proof {
            use_type_invariant(&*self);
        }
        let pos = self.position(&key);
        let mut entries: Vec<(GroupedQuantityKey, Value<N>)> = Vec::new();
        std::mem::swap(&mut entries, &mut self.entries);
        let ghost before = entry_views(entries@);
        match pos {
            Some(i) => {
                entries.set(i, (key, value));
                proof {
                    lemma_map_of_update(before, i as int, value@);
                    assert(entry_views(entries@) =~= before.update(i as int, (before[i as int].0, value@)));
                }
            },
            None => {
                entries.push((key, value));
                proof {
                    lemma_map_of_push(before, key@, value@);
                    assert(entry_views(entries@) =~= before.push((key@, value@)));
                }
            },
        }
        self.entries = entries;
    }
}

impl<N: Copy> Clone for GroupedQuantity<N> {
    fn clone(&self) -> (r: Self)
        ensures
            r@ == self@,
            r.entry_list() == self.entry_list(),
    {
        proof {
            use_type_invariant(self);
        }
        let n = self.entries.len();
        let mut entries: Vec<(GroupedQuantityKey, Value<N>)> = Vec::new();
        let mut i: usize = 0;
        while i < n
            invariant
                n == self.entries@.len(),
                0 <= i <= n,
                entry_views(entries@) =~= self.entry_list().take(i as int),
            decreases n - i,
        {
            let key = self.entries[i].0.clone();
            let value = self.entries[i].1.clone();
            let ghost before = entries@;
            entries.push((key, value));
            proof {
                assert(entries@ == before.push((key, value)));
                assert(entry_views(entries@) =~= entry_views(before).push((key@, value@)));
                assert(self.entry_list()[i as int] == (self.entries@[i as int].0@, self.entries@[i as int].1@));
                assert(self.entry_list().take(i + 1) =~= self.entry_list().take(i as int).push(
                    self.entry_list()[i as int],
                ));
            }
            i = i + 1;
        }
        proof {
            assert(self.entry_list().take(n as int) =~= self.entry_list());
        }
        GroupedQuantity { entries }
    }
}

/// The grouping key of an amount: its unit (empty without one) and the kind
/// of its value; no amount groups under no unit and an empty value.
pub open spec fn group_key_of<N>(amount: Option<Amount<N>>) -> KeyView {
    match amount {
        Some(a) => (
            match a.units {
                Some(u) => u@,
                None => Seq::empty(),
            },
            kind_of(a.quantity@),
        ),
        None => (Seq::empty(), QuantityType::Empty),
    }
}

/// The value an amount contributes: its quantity, or an empty value.
pub open spec fn group_value_of<N>(amount: Option<Amount<N>>) -> ValueView<N> {
    match amount {
        Some(a) => a.quantity@,
        None => ValueView::Empty,
    }
}

/// The grouped quantity of a single (possibly absent) amount: one entry,
/// under the amount's unit and kind of value.
pub fn into_group_quantity<N: Copy>(amount: &Option<Amount<N>>) -> (r: GroupedQuantity<N>)
    ensures
        r@ == Map::<KeyView, ValueView<N>>::empty().insert(
            group_key_of(*amount),
            group_value_of(*amount),
        ),
{
    let key = match amount {
        Some(amount) => {
            let units = match &amount.units {
                Some(u) => u.clone(),
                None => String::new(),
            };
            let unit_type = match &amount.quantity {
                Value::Number { .. } => QuantityType::Number,
                Value::Range { .. } => QuantityType::Range,
                Value::Text { .. } => QuantityType::Text,
                Value::Empty => QuantityType::Empty,
            };
            GroupedQuantityKey { name: units, unit_type }
        },
        None => GroupedQuantityKey { name: String::new(), unit_type: QuantityType::Empty },
    };
    let value = match amount {
        Some(amount) => amount.quantity.clone(),
        None => Value::Empty,
    };
    let mut r = GroupedQuantity::new();
    r.insert(key, value);
    r
}

/// Whether two grouped quantities can be merged: under every key they share,
/// unless the key is of the empty kind, both values are of the key's kind.
pub open spec fn can_merge<N>(
    left: Map<KeyView, ValueView<N>>,
    right: Map<KeyView, ValueView<N>>,
) -> bool {
    forall|k: KeyView|
        #![trigger left.contains_key(k), right.contains_key(k)]
        left.contains_key(k) && right.contains_key(k) && k.1 != QuantityType::Empty ==> kind_of(left[k])
            == k.1 && kind_of(right[k]) == k.1
}

/// `out` is what merging `added` into `stored` under a key of kind
/// `unit_type` gives: numbers (and the two ends of ranges) summed by `sum`,
/// texts concatenated, an empty value kept as it is.
pub open spec fn combined<N, F: Fn(N, N) -> N>(
    unit_type: QuantityType,
    stored: ValueView<N>,
    added: ValueView<N>,
    out: ValueView<N>,
    sum: F,
) -> bool {
    match unit_type {
        QuantityType::Number => match (stored, added, out) {
            (
                ValueView::Number { value: a },
                ValueView::Number { value: b },
                ValueView::Number { value: c },
            ) => call_ensures(sum, (a, b), c),
            _ => false,
        },
        QuantityType::Range => match (stored, added, out) {
            (
                ValueView::Range { start: s1, end: e1 },
                ValueView::Range { start: s2, end: e2 },
                ValueView::Range { start: s, end: e },
            ) => call_ensures(sum, (s1, s2), s) && call_ensures(sum, (e1, e2), e),
            _ => false,
        },
        QuantityType::Text => match (stored, added, out) {
            (
                ValueView::Text { value: a },
                ValueView::Text { value: b },
                ValueView::Text { value: c },
            ) => c == a + b,
            _ => false,
        },
        QuantityType::Empty => out == stored,
    }
}

/// `out` is what merging `right` into `left` gives: every key of either,
/// the value of the one that has it, and under a shared key the two values
/// combined.
pub open spec fn merged<N, F: Fn(N, N) -> N>(
    left: Map<KeyView, ValueView<N>>,
    right: Map<KeyView, ValueView<N>>,
    out: Map<KeyView, ValueView<N>>,
    sum: F,
) -> bool {
    &&& out.dom() == left.dom().union(right.dom())
    &&& forall|k: KeyView|
        #![trigger out[k]]
        left.contains_key(k) && !right.contains_key(k) ==> out[k] == left[k]
    &&& forall|k: KeyView|
        #![trigger out[k]]
        right.contains_key(k) && !left.contains_key(k) ==> out[k] == right[k]
    &&& forall|k: KeyView|
        #![trigger out[k]]
        left.contains_key(k) && right.contains_key(k) ==> combined(k.1, left[k], right[k], out[k], sum)
}

/// Whether `sum` may be called on any two numbers.
pub open spec fn total_addition<N, F: Fn(N, N) -> N>(sum: F) -> bool {
    forall|a: N, b: N| #[trigger] call_requires(sum, (a, b))
}

fn combine_values<N: Copy, F: Fn(N, N) -> N>(
    unit_type: QuantityType,
    stored: &Value<N>,
    added: &Value<N>,
    sum: &F,
) -> (r: Value<N>)
    requires
        total_addition(*sum),
        unit_type != QuantityType::Empty ==> kind_of(stored@) == unit_type && kind_of(added@)
            == unit_type,
    ensures
        combined(unit_type, stored@, added@, r@, *sum),
{
    match unit_type {
        QuantityType::Number => match (stored, added) {
            (Value::Number { value: a }, Value::Number { value: b }) => {
                let c = sum(*a, *b);
                Value::Number { value: c }
            },
            _ => {
                proof {
                    assert(false);
                }
                Value::Empty
            },
        },
        QuantityType::Range => match (stored, added) {
            (Value::Range { start: s1, end: e1 }, Value::Range { start: s2, end: e2 }) => {
                let s = sum(*s1, *s2);
                let e = sum(*e1, *e2);
                Value::Range { start: s, end: e }
            },
            _ => {
                proof {
                    assert(false);
                }
                Value::Empty
            },
        },
        QuantityType::Text => match (stored, added) {
            (Value::Text { value: a }, Value::Text { value: b }) => {
                let mut c = a.clone();
                c.append(b.as_str());
                Value::Text { value: c }
            },
            _ => {
                proof {
                    assert(false);
                }
                Value::Empty
            },
        },
        QuantityType::Empty => stored.clone(),
    }
}

/// Every value is of its key's kind, except under keys of the empty kind.
pub open spec fn well_kinded<N>(m: Map<KeyView, ValueView<N>>) -> bool {
    forall|k: KeyView|
        #![trigger m[k]]
        m.contains_key(k) && k.1 != QuantityType::Empty ==> kind_of(m[k]) == k.1
}

/// The grouped quantity of one amount is well kinded: its value is of the
/// kind its key names.
pub proof fn lemma_single_group_well_kinded<N>(amount: Option<Amount<N>>)
    ensures
        kind_of(group_value_of(amount)) == group_key_of(amount).1,
        well_kinded(
            Map::<KeyView, ValueView<N>>::empty().insert(
                group_key_of(amount),
                group_value_of(amount),
            ),
        ),
{
}

/// Two well-kinded grouped quantities can always be merged, and merging
/// them gives a well-kinded grouped quantity.
pub proof fn lemma_merge_keeps_kinds<N, F: Fn(N, N) -> N>(
    left: Map<KeyView, ValueView<N>>,
    right: Map<KeyView, ValueView<N>>,
    out: Map<KeyView, ValueView<N>>,
    sum: F,
)
    requires
        well_kinded(left),
        well_kinded(right),
    ensures
        can_merge(left, right),
        merged(left, right, out, sum) ==> well_kinded(out),
{
    if merged(left, right, out, sum) {
        assert forall|k: KeyView| out.contains_key(k) && k.1 != QuantityType::Empty implies kind_of(
            #[trigger] out[k],
        ) == k.1 by {
            if left.contains_key(k) && right.contains_key(k) {
                assert(combined(k.1, left[k], right[k], out[k], sum));
            } else if left.contains_key(k) {
                assert(out[k] == left[k]);
            } else {
                assert(out[k] == right[k]);
            }
        }
    }
}

/// Merging nothing into a grouped quantity leaves it as it is; merging a
/// grouped quantity into nothing gives that grouped quantity.
pub proof fn lemma_merge_with_empty<N, F: Fn(N, N) -> N>(
    m: Map<KeyView, ValueView<N>>,
    out: Map<KeyView, ValueView<N>>,
    sum: F,
)
    ensures
        merged(m, Map::empty(), out, sum) ==> out == m,
        merged(Map::empty(), m, out, sum) ==> out == m,
{
    if merged(m, Map::empty(), out, sum) {
        assert forall|k: KeyView| out.contains_key(k) implies #[trigger] out[k] == m[k] by {
            assert(m.contains_key(k));
        }
        assert(out =~= m);
    }
    if merged(Map::empty(), m, out, sum) {
        assert forall|k: KeyView| out.contains_key(k) implies #[trigger] out[k] == m[k] by {
            assert(m.contains_key(k));
        }
        assert(out =~= m);
    }
}

/// Every value is of the kind its key names, an empty value under a key of
/// the empty kind included.
pub open spec fn strictly_kinded<N>(m: Map<KeyView, ValueView<N>>) -> bool {
    forall|k: KeyView| #![trigger m[k]] m.contains_key(k) ==> kind_of(m[k]) == k.1
}

/// `sum` gives the same result for two numbers in either order.
pub open spec fn commutative_addition<N, F: Fn(N, N) -> N>(sum: F) -> bool {
    forall|a: N, b: N, x: N, y: N|
        #![trigger call_ensures(sum, (a, b), x), call_ensures(sum, (b, a), y)]
        call_ensures(sum, (a, b), x) && call_ensures(sum, (b, a), y) ==> x == y
}

/// The grouped quantity of one amount is strictly kinded, and merging two
/// strictly kinded grouped quantities gives a strictly kinded one.
pub proof fn lemma_strict_kinds<N, F: Fn(N, N) -> N>(
    amount: Option<Amount<N>>,
    left: Map<KeyView, ValueView<N>>,
    right: Map<KeyView, ValueView<N>>,
    out: Map<KeyView, ValueView<N>>,
    sum: F,
)
    ensures
        strictly_kinded(
            Map::<KeyView, ValueView<N>>::empty().insert(
                group_key_of(amount),
                group_value_of(amount),
            ),
        ),
        strictly_kinded(left) && strictly_kinded(right) && merged(left, right, out, sum)
            ==> strictly_kinded(out),
{
    if strictly_kinded(left) && strictly_kinded(right) && merged(left, right, out, sum) {
        assert forall|k: KeyView| out.contains_key(k) implies kind_of(#[trigger] out[k]) == k.1 by {
            if left.contains_key(k) && right.contains_key(k) {
                assert(combined(k.1, left[k], right[k], out[k], sum));
                assert(kind_of(left[k]) == k.1);
            } else if left.contains_key(k) {
                assert(out[k] == left[k]);
            } else {
                assert(out[k] == right[k]);
            }
        }
    }
}

/// Merging is commutative for numbers, ranges and empty values: with an
/// addition that is commutative, merging `right` into `left` and `left`
/// into `right` give the same grouped quantity, as long as every value is of
/// its key's kind and no text key is shared (texts concatenate in order).
pub proof fn lemma_merge_commutes<N, F: Fn(N, N) -> N>(
    left: Map<KeyView, ValueView<N>>,
    right: Map<KeyView, ValueView<N>>,
    out1: Map<KeyView, ValueView<N>>,
    out2: Map<KeyView, ValueView<N>>,
    sum: F,
)
    requires
        strictly_kinded(left),
        strictly_kinded(right),
        commutative_addition(sum),
        forall|k: KeyView|
            #![trigger left.contains_key(k), right.contains_key(k)]
            left.contains_key(k) && right.contains_key(k) ==> k.1 != QuantityType::Text,
        merged(left, right, out1, sum),
        merged(right, left, out2, sum),
    ensures
        out1 == out2,
{
    assert forall|k: KeyView| out1.contains_key(k) implies #[trigger] out1[k] == out2[k] by {
        if left.contains_key(k) && right.contains_key(k) {
            assert(combined(k.1, left[k], right[k], out1[k], sum));
            assert(combined(k.1, right[k], left[k], out2[k], sum));
            assert(kind_of(left[k]) == k.1 && kind_of(right[k]) == k.1);
            match (left[k], right[k], out1[k], out2[k]) {
                (
                    ValueView::Number { value: a },
                    ValueView::Number { value: b },
                    ValueView::Number { value: x },
                    ValueView::Number { value: y },
                ) => {
                    assert(call_ensures(sum, (a, b), x) && call_ensures(sum, (b, a), y));
                },
                (
                    ValueView::Range { start: s1, end: e1 },
                    ValueView::Range { start: s2, end: e2 },
                    ValueView::Range { start: s, end: e },
                    ValueView::Range { start: t, end: f },
                ) => {
                    assert(call_ensures(sum, (s1, s2), s) && call_ensures(sum, (s2, s1), t));
                    assert(call_ensures(sum, (e1, e2), e) && call_ensures(sum, (e2, e1), f));
                },
                _ => {},
            }
        } else if left.contains_key(k) {
            assert(out1[k] == left[k] && out2[k] == left[k]);
        } else {
            assert(out1[k] == right[k] && out2[k] == right[k]);
        }
    }
    assert(out1.dom() =~= out2.dom());
    assert(out1 =~= out2);
}

/// Whether `k` is among the keys of the first `j` entries.
pub open spec fn among_first<K, V>(pairs: Seq<(K, V)>, j: int, k: K) -> bool {
    exists|i: int| 0 <= i < j && #[trigger] pairs[i].0 == k
}

/// Merges the quantities of `right` into `left`: a key only `right` has is
/// added with its value; under a shared key, numbers (and both ends of
/// ranges) are summed with `sum`, texts concatenated, and an empty value is
/// left as it is.
pub fn merge_grouped_quantities<N: Copy, F: Fn(N, N) -> N>(
    left: &mut GroupedQuantity<N>,
    right: &GroupedQuantity<N>,
    sum: &F,
)
    requires
        total_addition(*sum),
        can_merge(old(left)@, right@),
    ensures
        merged(old(left)@, right@, final(left)@, *sum),
{
    let ghost start = left@;
    let entries = right.entries();
    let ghost rl = entry_views(entries@);
    let n = entries.len();
    let mut j: usize = 0;
    while j < n
        invariant
            n == rl.len(),
            rl == entry_views(entries@),
            keys_distinct(rl),
            map_of(rl) == right@,
            total_addition(*sum),
            can_merge(start, right@),
            0 <= j <= n,
            forall|k: KeyView|
                #![trigger left@.contains_key(k)]
                left@.contains_key(k) <==> (start.contains_key(k) || among_first(rl, j as int, k)),
            forall|k: KeyView|
                #![trigger left@[k]]
                among_first(rl, j as int, k) && start.contains_key(k) ==> combined(
                    k.1,
                    start[k],
                    right@[k],
                    left@[k],
                    *sum,
                ),
            forall|k: KeyView|
                #![trigger left@[k]]
                among_first(rl, j as int, k) && !start.contains_key(k) ==> left@[k] == right@[k],
            forall|k: KeyView|
                #![trigger left@[k]]
                !among_first(rl, j as int, k) && start.contains_key(k) ==> left@[k] == start[k],
        decreases n - j,
    {
        let key = &entries[j].0;
        let value = &entries[j].1;
        let ghost k = key@;
        let ghost before = left@;
        proof {
            lemma_map_of_at(rl, j as int);
            assert(rl[j as int] == (key@, value@));
            if among_first(rl, j as int, k) {
                let i = choose|i: int| 0 <= i < j && #[trigger] rl[i].0 == k;
                assert(rl[i].0 == rl[j as int].0);
            }
        }
        let stored = left.get(key);
        match stored {
            Some(v) => {
                proof {
                    assert(start.contains_key(k));
                    assert(right@.contains_key(k));
                    assert(before[k] == start[k]);
                }
                let c = combine_values(key.unit_type, v, value, sum);
                left.insert(key.clone(), c);
            },
            None => {
                left.insert(key.clone(), value.clone());
            },
        }
        proof {
            assert forall|x: KeyView| among_first(rl, j + 1, x) <==> (among_first(rl, j as int, x) || x == k) by {
                if among_first(rl, j + 1, x) {
                    let i = choose|i: int| 0 <= i < j + 1 && #[trigger] rl[i].0 == x;
                    if i < j {
                        assert(among_first(rl, j as int, x));
                    }
                }
                if x == k {
                    assert(rl[j as int].0 == x);
                }
                if among_first(rl, j as int, x) {
                    let i = choose|i: int| 0 <= i < j && #[trigger] rl[i].0 == x;
                    assert(rl[i].0 == x);
                }
            }
        }
        j = j + 1;
    }
    proof {
        assert forall|x: KeyView| right@.contains_key(x) implies among_first(rl, n as int, x) by {
            let i = choose|i: int| 0 <= i < rl.len() && #[trigger] rl[i].0 == x;
            assert(rl[i].0 == x);
        }
        assert forall|x: KeyView| among_first(rl, n as int, x) implies right@.contains_key(x) by {
            let i = choose|i: int| 0 <= i < n && #[trigger] rl[i].0 == x;
            assert(rl[i].0 == x);
        }
        assert(left@.dom() =~= start.dom().union(right@.dom()));
    }
}

} // verus!
