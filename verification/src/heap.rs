//! The machine's heap: tables, arrays, functions and the scopes that
//! functions capture, each kept in an arena and referred to by index; and
//! the operations on it that the language's built-ins perform.

use vstd::prelude::*;
use crate::value::{Value, ValueV, OpCode, OpCodeV, ops_v};

verus! {

/// A table: its entries in the order they were first set, the table that
/// overloads its operators, and the table it inherits fields from.
pub struct TableData {
    pub data: Vec<(Value, Value)>,
    pub meta: Option<usize>,
    pub prototype: Option<usize>,
}

/// A function value: its parameter count, its code, and the scopes it
/// captured (indices into the heap's scopes, outermost first).
pub struct Func {
    pub param_count: usize,
    pub code: Vec<OpCode>,
    pub env: Vec<usize>,
}

/// The heap of the machine.
pub struct Heap {
    pub tables: Vec<TableData>,
    pub arrays: Vec<Vec<Value>>,
    pub funcs: Vec<Func>,
    pub envs: Vec<Vec<Value>>,
}

pub struct TableV {
    pub data: Seq<(ValueV, ValueV)>,
    pub meta: Option<usize>,
    pub prototype: Option<usize>,
}

pub struct FuncV {
    pub param_count: usize,
    pub code: Seq<OpCodeV>,
    pub env: Seq<usize>,
}

pub struct HeapV {
    pub tables: Seq<TableV>,
    pub arrays: Seq<Seq<ValueV>>,
    pub funcs: Seq<FuncV>,
    pub envs: Seq<Seq<ValueV>>,
}

/// The values of a sequence of values.
pub open spec fn vals_v(s: Seq<Value>) -> Seq<ValueV> {
    s.map_values(|v: Value| v@)
}

/// The values of a sequence of pairs of values.
pub open spec fn pairs_v(s: Seq<(Value, Value)>) -> Seq<(ValueV, ValueV)> {
    s.map_values(|p: (Value, Value)| (p.0@, p.1@))
}

impl View for TableData {
    type V = TableV;

    open spec fn view(&self) -> TableV {
        TableV { data: pairs_v(self.data@), meta: self.meta, prototype: self.prototype }
    }
}

impl Func {
    /// A function value with the scopes it captures.
    pub fn new(param_count: usize, code: Vec<OpCode>, env: Vec<usize>) -> (f: Func)
        ensures
            f.param_count == param_count,
            f.code == code,
            f.env == env,
    {
        Func { param_count, code, env }
    }
}

impl View for Func {
    type V = FuncV;

    open spec fn view(&self) -> FuncV {
        FuncV { param_count: self.param_count, code: ops_v(self.code@), env: self.env@ }
    }
}

impl View for Heap {
    type V = HeapV;

    open spec fn view(&self) -> HeapV {
        HeapV {
            tables: self.tables@.map_values(|t: TableData| t@),
            arrays: self.arrays@.map_values(|a: Vec<Value>| vals_v(a@)),
            funcs: self.funcs@.map_values(|f: Func| f@),
            envs: self.envs@.map_values(|e: Vec<Value>| vals_v(e@)),
        }
    }
}

/// The index of the entry for `k` in an association list (the last one, if
/// several: the lists this crate builds hold each key once).
pub open spec fn assoc_find<K, V>(data: Seq<(K, V)>, k: K) -> Option<int>
    decreases data.len(),
{
    if data.len() == 0 {
        None
    } else if data.last().0 == k {
        Some(data.len() - 1)
    } else {
        assoc_find(data.drop_last(), k)
    }
}

/// The value set for `k`.
pub open spec fn assoc_get<K, V>(data: Seq<(K, V)>, k: K) -> Option<V> {
    match assoc_find(data, k) {
        Some(i) => Some(data[i].1),
        None => None,
    }
}

/// Setting `k` to `v`: the entry for `k` is replaced, or a new one added at the end.
pub open spec fn assoc_set<K, V>(data: Seq<(K, V)>, k: K, v: V) -> Seq<(K, V)> {
    match assoc_find(data, k) {
        Some(i) => data.update(i, (k, v)),
        None => data.push((k, v)),
    }
}

/// No key occurs twice among the entries.
pub open spec fn keys_unique<K, V>(d: Seq<(K, V)>) -> bool {
    forall|i: int, j: int| 0 <= i < j < d.len() ==> (#[trigger] d[i]).0 != (#[trigger] d[j]).0
}

/// No table of the heap holds a key twice.
pub open spec fn tables_keys_unique(h: HeapV) -> bool {
    forall|t: int| 0 <= t < h.tables.len() ==> keys_unique(#[trigger] h.tables[t].data)
}

/// What the index found means: the last entry for the key; or, if none is
/// found, no entry has the key.
pub proof fn lemma_assoc_find<K, V>(d: Seq<(K, V)>, k: K)
    ensures
        match assoc_find(d, k) {
            Some(i) => 0 <= i < d.len() && d[i].0 == k && forall|j: int| i < j < d.len() ==> d[j].0 != k,
            None => forall|j: int| 0 <= j < d.len() ==> d[j].0 != k,
        },
    decreases d.len(),
{
    if d.len() > 0 {
        let e = d.drop_last();
        lemma_assoc_find(e, k);
        assert forall|j: int| 0 <= j < e.len() implies e[j] == d[j] by {}
    }
}

/// The last entry for a key is the one found.
pub proof fn lemma_assoc_find_is<K, V>(d: Seq<(K, V)>, k: K, i: int)
    requires
        0 <= i < d.len(),
        d[i].0 == k,
        forall|j: int| i < j < d.len() ==> d[j].0 != k,
    ensures
        assoc_find(d, k) == Some(i),
{
    lemma_assoc_find(d, k);
    match assoc_find(d, k) {
        Some(i2) => {
            if i2 < i {
                assert(d[i].0 != k);
            } else if i2 > i {
                assert(d[i2].0 != k);
            }
        },
        None => {
            assert(d[i].0 != k);
        },
    }
}

/// What reading a key gives after it was set: the value set, and any other
/// key is unaffected.
/// Setting a key keeps the keys unique: an existing entry is replaced in
/// place, a new key is added at the end.
pub proof fn lemma_assoc_set_unique<K, V>(data: Seq<(K, V)>, k: K, v: V)
    requires
        keys_unique(data),
    ensures
        keys_unique(assoc_set(data, k, v)),
{
    lemma_assoc_find(data, k);
    let d2 = assoc_set(data, k, v);
    match assoc_find(data, k) {
        Some(i) => {
            assert forall|a: int, b: int| 0 <= a < b < d2.len() implies (#[trigger] d2[a]).0 != (#[trigger] d2[b]).0 by {
                assert(d2[a].0 == data[a].0);
                assert(d2[b].0 == data[b].0);
            }
        },
        None => {
            assert forall|a: int, b: int| 0 <= a < b < d2.len() implies (#[trigger] d2[a]).0 != (#[trigger] d2[b]).0 by {
                if b == data.len() {
                    assert(d2[a] == data[a]);
                } else {
                    assert(d2[a] == data[a] && d2[b] == data[b]);
                }
            }
        },
    }
}

pub proof fn lemma_assoc_set_get<K, V>(data: Seq<(K, V)>, k: K, v: V, other: K)
    ensures
        assoc_get(assoc_set(data, k, v), k) == Some(v),
        other != k ==> assoc_get(assoc_set(data, k, v), other) == assoc_get(data, other),
{
    lemma_assoc_find(data, k);
    lemma_assoc_find(data, other);
    let d2 = assoc_set(data, k, v);
    match assoc_find(data, k) {
        Some(i) => {
            lemma_assoc_find_is(d2, k, i);
            if other != k {
                match assoc_find(data, other) {
                    Some(i2) => {
                        lemma_assoc_find_is(d2, other, i2);
                    },
                    None => {
                        lemma_assoc_find(d2, other);
                        if assoc_find(d2, other) is Some {
                            let i3 = assoc_find(d2, other)->0;
                            assert(d2[i3].0 == other);
                            assert(data[i3].0 != other);
                        }
                    },
                }
            }
        },
        None => {
            assert(d2.drop_last() =~= data);
        },
    }
}

/// Whether two values are the same value: numbers, booleans and strings by
/// what they hold, built-ins by which one, and functions, arrays and tables
/// by identity.
pub fn same_value(a: &Value, b: &Value) -> (r: bool)
    ensures
        r == (a@ == b@),
{
    match (a, b) {
        (Value::Float(x), Value::Float(y)) => *x == *y,
        (Value::Integer(x), Value::Integer(y)) => *x == *y,
        (Value::Bool(x), Value::Bool(y)) => *x == *y,
        (Value::String(x), Value::String(y)) => *x == *y,
        (Value::BuiltInFunc(x), Value::BuiltInFunc(y)) => *x == *y,
        (Value::Func(x), Value::Func(y)) => *x == *y,
        (Value::Array(x), Value::Array(y)) => *x == *y,
        (Value::Table(x), Value::Table(y)) => *x == *y,
        (Value::Nil, Value::Nil) => true,
        _ => false,
    }
}

/// The index of the entry for `k` in a table's entries.
pub fn entry_index(data: &Vec<(Value, Value)>, k: &Value) -> (r: Option<usize>)
    ensures
        assoc_find(pairs_v(data@), k@) == (match r {
            Some(i) => Some(i as int),
            None => None::<int>,
        }),
        r matches Some(i) ==> i < data@.len(),
{
    let ghost dv = pairs_v(data@);
    let mut i: usize = data.len();
    proof {
        assert(dv.take(i as int) =~= dv);
    }
    while i > 0
        invariant
            i <= data.len(),
            dv == pairs_v(data@),
            assoc_find(dv, k@) == assoc_find(dv.take(i as int), k@),
        decreases i,
    {
        proof {
            assert(dv.take(i as int).drop_last() =~= dv.take(i - 1));
        }
        if same_value(&data[i - 1].0, k) {
            return Some(i - 1);
        }
        i = i - 1;
    }
    None
}

/// The value a table's entries hold for `k`.
pub fn entry_get(data: &Vec<(Value, Value)>, k: &Value) -> (r: Option<Value>)
    ensures
        match r {
            Some(v) => assoc_get(pairs_v(data@), k@) == Some(v@),
            None => assoc_get(pairs_v(data@), k@) is None,
        },
{
    match entry_index(data, k) {
        Some(i) => Some(data[i].1.duplicate()),
        None => None,
    }
}

/// Sets `k` to `v` in a table's entries.
pub fn entry_set(data: &mut Vec<(Value, Value)>, k: Value, v: Value)
    ensures
        pairs_v(final(data)@) == assoc_set(pairs_v(old(data)@), k@, v@),
{
    match entry_index(data, &k) {
        Some(i) => {
            let ghost kv = (k@, v@);
            data.set(i, (k, v));
            proof {
                assert(pairs_v(data@) =~= pairs_v(old(data)@).update(i as int, kv));
            }
        },
        None => {
            let ghost kv = (k@, v@);
            data.push((k, v));
            proof {
                assert(pairs_v(data@) =~= pairs_v(old(data)@).push(kv));
            }
        },
    }
}

/// A table with no entries, no metatable and no prototype.
pub open spec fn empty_table() -> TableV {
    TableV { data: Seq::empty(), meta: None, prototype: None }
}

impl Heap {
    /// An empty heap.
    pub fn new() -> (h: Heap)
        ensures
            h@.tables.len() == 0,
            h@.arrays.len() == 0,
            h@.funcs.len() == 0,
            h@.envs.len() == 0,
    {
        Heap { tables: Vec::new(), arrays: Vec::new(), funcs: Vec::new(), envs: Vec::new() }
    }
}

/// Whether a table's prototype chain, from table `t`, reaches a table that
/// holds `k` or ends within `fuel` tables, all in the heap; and if so, what
/// reading `k` gives: the value of the first table on the chain that holds
/// it, or the empty value.
pub open spec fn chain_get(h: HeapV, t: int, k: ValueV, fuel: nat) -> Option<ValueV>
    decreases fuel,
{
    if fuel == 0 || !(0 <= t < h.tables.len()) {
        None
    } else {
        match assoc_get(h.tables[t].data, k) {
            Some(v) => Some(v),
            None => match h.tables[t].prototype {
                Some(p) => chain_get(h, p as int, k, (fuel - 1) as nat),
                None => Some(ValueV::Nil),
            },
        }
    }
}

/// Reads `k` from table `t`, looking along its prototype chain: the value of
/// the first table on the chain that holds `k`, or the empty value.
/// Returns `None` where the chain visits a table outside the heap, or more
/// tables than the heap holds (then it loops).
pub fn index(heap: &Heap, target: usize, key: &Value) -> (r: Option<Value>)
    ensures
        match r {
            Some(v) => chain_get(heap@, target as int, key@, heap@.tables.len()) == Some(v@),
            None => chain_get(heap@, target as int, key@, heap@.tables.len()) is None,
        },
{
    let mut cur: usize = target;
    let mut fuel: usize = heap.tables.len();
    while fuel > 0
        invariant
            fuel <= heap.tables.len(),
            chain_get(heap@, target as int, key@, heap@.tables.len()) == chain_get(heap@, cur as int, key@, fuel as nat),
        decreases fuel,
    {
        if cur >= heap.tables.len() {
            return None;
        }
        proof {
            assert(heap@.tables[cur as int] == heap.tables@[cur as int]@);
        }
        match entry_get(&heap.tables[cur].data, key) {
            Some(v) => {
                return Some(v);
            },
            None => {},
        }
        match heap.tables[cur].prototype {
            Some(p) => {
                cur = p;
                fuel = fuel - 1;
            },
            None => {
                return Some(Value::Nil);
            },
        }
    }
    None
}

} // verus!
