//! A generic configuration value: a tagged tree able to hold structured
//! configuration data whose target schema is not yet known.
//!
//! The parsing code in this crate never interprets a value beyond its top
//! level: it locates and removes one entry of a table and moves every other
//! subtree unchanged. Contracts therefore speak of the top-level entry
//! sequence of a table, with subtrees compared as whole values.

use vstd::prelude::*;

verus! {

/// A type-erased configuration value tree.
#[derive(Debug)]
pub enum ConfigValue {
    /// A boolean scalar.
    Bool(bool),
    /// An unsigned integer scalar.
    U64(u64),
    /// A signed integer scalar.
    I64(i64),
    /// A text scalar.
    Text(String),
    /// The unit (empty) value.
    Unit,
    /// An ordered sequence of values.
    List(Vec<ConfigValue>),
    /// A mapping from values to values, held as an entry list in the order
    /// the producing map yields it — for a key-sorted map, key order.
    Table(Vec<(ConfigValue, ConfigValue)>),
}

/// Structural equality of two values: equal tags, equal scalar contents, and
/// pairwise equal children. Text compares by its characters.
pub open spec fn val_eq(a: ConfigValue, b: ConfigValue) -> bool
    decreases a,
{
    match a {
        ConfigValue::Bool(x) => b matches ConfigValue::Bool(y) && x == y,
        ConfigValue::U64(x) => b matches ConfigValue::U64(y) && x == y,
        ConfigValue::I64(x) => b matches ConfigValue::I64(y) && x == y,
        ConfigValue::Text(x) => b matches ConfigValue::Text(y) && x@ == y@,
        ConfigValue::Unit => b matches ConfigValue::Unit,
        ConfigValue::List(xs) => b matches ConfigValue::List(ys) && val_seq_eq(xs@, ys@),
        ConfigValue::Table(es) => b matches ConfigValue::Table(fs) && val_entry_seq_eq(es@, fs@),
    }
}

/// Pairwise structural equality of two sequences of values.
pub open spec fn val_seq_eq(xs: Seq<ConfigValue>, ys: Seq<ConfigValue>) -> bool
    decreases xs,
{
    if xs.len() == 0 {
        ys.len() == 0
    } else {
        ys.len() == xs.len() && val_eq(xs[0], ys[0]) && val_seq_eq(
            xs.subrange(1, xs.len() as int),
            ys.subrange(1, ys.len() as int),
        )
    }
}

/// Pairwise structural equality of two sequences of table entries.
pub open spec fn val_entry_seq_eq(
    es: Seq<(ConfigValue, ConfigValue)>,
    fs: Seq<(ConfigValue, ConfigValue)>,
) -> bool
    decreases es,
{
    if es.len() == 0 {
        fs.len() == 0
    } else {
        fs.len() == es.len() && val_eq(es[0].0, fs[0].0) && val_eq(es[0].1, fs[0].1)
            && val_entry_seq_eq(
            es.subrange(1, es.len() as int),
            fs.subrange(1, fs.len() as int),
        )
    }
}

/// Structural equality of a sequence of values coincides with pairwise
/// structural equality of its elements.
pub proof fn lemma_val_seq_eq_pointwise(xs: Seq<ConfigValue>, ys: Seq<ConfigValue>)
    requires
        xs.len() == ys.len(),
    ensures
        val_seq_eq(xs, ys) <==> (forall|j: int|
            0 <= j < xs.len() ==> val_eq(#[trigger] xs[j], ys[j])),
    decreases xs.len(),
{
    if xs.len() == 0 {
    } else {
        let xt = xs.subrange(1, xs.len() as int);
        let yt = ys.subrange(1, ys.len() as int);
        lemma_val_seq_eq_pointwise(xt, yt);
        if val_seq_eq(xs, ys) {
            assert forall|j: int| 0 <= j < xs.len() implies val_eq(#[trigger] xs[j], ys[j]) by {
                if j > 0 {
                    assert(val_eq(xt[j - 1], yt[j - 1]));
                }
            }
        }
        if forall|j: int| 0 <= j < xs.len() ==> val_eq(#[trigger] xs[j], ys[j]) {
            assert forall|j: int| 0 <= j < xt.len() implies val_eq(#[trigger] xt[j], yt[j]) by {
                assert(val_eq(xs[j + 1], ys[j + 1]));
            }
        }
    }
}

/// Structural equality of a sequence of table entries coincides with
/// pairwise structural equality of the keys and the values.
pub proof fn lemma_val_entry_seq_eq_pointwise(
    es: Seq<(ConfigValue, ConfigValue)>,
    fs: Seq<(ConfigValue, ConfigValue)>,
)
    requires
        es.len() == fs.len(),
    ensures
        val_entry_seq_eq(es, fs) <==> (forall|j: int| #![trigger es[j]]
            0 <= j < es.len() ==> val_eq(es[j].0, fs[j].0) && val_eq(es[j].1, fs[j].1)),
    decreases es.len(),
{
    if es.len() == 0 {
    } else {
        let et = es.subrange(1, es.len() as int);
        let ft = fs.subrange(1, fs.len() as int);
        lemma_val_entry_seq_eq_pointwise(et, ft);
        if val_entry_seq_eq(es, fs) {
            assert forall|j: int| #![trigger es[j]]
                0 <= j < es.len() implies val_eq(es[j].0, fs[j].0) && val_eq(es[j].1, fs[j].1) by {
                if j > 0 {
                    assert(et[j - 1] == es[j]);
                    assert(val_eq(et[j - 1].0, ft[j - 1].0) && val_eq(et[j - 1].1, ft[j - 1].1));
                }
            }
        }
        if forall|j: int| #![trigger es[j]]
            0 <= j < es.len() ==> val_eq(es[j].0, fs[j].0) && val_eq(es[j].1, fs[j].1) {
            assert forall|j: int| #![trigger et[j]]
                0 <= j < et.len() implies val_eq(et[j].0, ft[j].0) && val_eq(et[j].1, ft[j].1) by {
                assert(es[j + 1] == et[j]);
                assert(val_eq(es[j + 1].0, fs[j + 1].0) && val_eq(es[j + 1].1, fs[j + 1].1));
            }
        }
    }
}

/// Decide structural equality of two values.
#[verifier::loop_isolation(false)]
fn value_eq(a: &ConfigValue, b: &ConfigValue) -> (r: bool)
    ensures
        r == val_eq(*a, *b),
    decreases *a,
{
    proof {
        broadcast use vstd::std_specs::vec::axiom_vec_index_decreases;
    }
    match (a, b) {
        (ConfigValue::Bool(x), ConfigValue::Bool(y)) => *x == *y,
        (ConfigValue::U64(x), ConfigValue::U64(y)) => *x == *y,
        (ConfigValue::I64(x), ConfigValue::I64(y)) => *x == *y,
        (ConfigValue::Text(x), ConfigValue::Text(y)) => *x == *y,
        (ConfigValue::Unit, ConfigValue::Unit) => true,
        (ConfigValue::List(xs), ConfigValue::List(ys)) => {
            if xs.len() != ys.len() {
                proof {
                    lemma_val_seq_eq_len(xs@, ys@);
                }
                return false;
            }
            proof {
                lemma_val_seq_eq_pointwise(xs@, ys@);
            }
            let mut i: usize = 0;
            while i < xs.len()
                invariant
                    xs@.len() == ys@.len(),
                    0 <= i <= xs@.len(),
                    forall|j: int| 0 <= j < i ==> val_eq(#[trigger] xs@[j], ys@[j]),
                    val_seq_eq(xs@, ys@) <==> (forall|j: int|
                        0 <= j < xs@.len() ==> val_eq(#[trigger] xs@[j], ys@[j])),
                decreases xs@.len() - i,
            {
                if !value_eq(&xs[i], &ys[i]) {
                    return false;
                }
                i = i + 1;
            }
            true
        },
        (ConfigValue::Table(es), ConfigValue::Table(fs)) => {
            if es.len() != fs.len() {
                proof {
                    lemma_val_entry_seq_eq_len(es@, fs@);
                }
                return false;
            }
            let mut i: usize = 0;
            while i < es.len()
                invariant
                    es@.len() == fs@.len(),
                    0 <= i <= es@.len(),
                    forall|j: int| #![trigger es@[j]]
                        0 <= j < i ==> val_eq(es@[j].0, fs@[j].0) && val_eq(es@[j].1, fs@[j].1),
                decreases es@.len() - i,
            {
                let e = &es[i];
                let f = &fs[i];
                if !value_eq(&e.0, &f.0) {
                    proof {
                        lemma_val_entry_seq_eq_pointwise(es@, fs@);
                        assert(!(val_eq(es@[i as int].0, fs@[i as int].0) && val_eq(
                            es@[i as int].1,
                            fs@[i as int].1,
                        )));
                    }
                    return false;
                }
                if !value_eq(&e.1, &f.1) {
                    proof {
                        lemma_val_entry_seq_eq_pointwise(es@, fs@);
                        assert(!(val_eq(es@[i as int].0, fs@[i as int].0) && val_eq(
                            es@[i as int].1,
                            fs@[i as int].1,
                        )));
                    }
                    return false;
                }
                i = i + 1;
            }
            proof {
                lemma_val_entry_seq_eq_pointwise(es@, fs@);
            }
            true
        },
        _ => false,
    }
}

/// Structurally equal value sequences have equal lengths.
proof fn lemma_val_seq_eq_len(xs: Seq<ConfigValue>, ys: Seq<ConfigValue>)
    ensures
        val_seq_eq(xs, ys) ==> xs.len() == ys.len(),
{
}

/// Structurally equal entry sequences have equal lengths.
proof fn lemma_val_entry_seq_eq_len(
    es: Seq<(ConfigValue, ConfigValue)>,
    fs: Seq<(ConfigValue, ConfigValue)>,
)
    ensures
        val_entry_seq_eq(es, fs) ==> es.len() == fs.len(),
{
}

impl PartialEq for ConfigValue {
    /// Equality of configuration values is structural: `==` holds exactly
    /// when the two trees have the same shape and the same contents.
    fn eq(&self, other: &ConfigValue) -> bool {
        value_eq(self, other)
    }
}

impl vstd::std_specs::cmp::PartialEqSpecImpl for ConfigValue {
    open spec fn obeys_eq_spec() -> bool {
        true
    }

    open spec fn eq_spec(&self, other: &ConfigValue) -> bool {
        val_eq(*self, *other)
    }
}

/// The outermost shape of a [`ConfigValue`], used to report what a value
/// turned out to be where another shape was expected.
#[derive(Debug, Clone, Copy, PartialEq, Eq, Structural)]
pub enum ValueTag {
    Bool,
    U64,
    I64,
    Text,
    Unit,
    List,
    Table,
}

/// The outermost shape of `v`.
pub open spec fn tag_of(v: ConfigValue) -> ValueTag {
    match v {
        ConfigValue::Bool(_) => ValueTag::Bool,
        ConfigValue::U64(_) => ValueTag::U64,
        ConfigValue::I64(_) => ValueTag::I64,
        ConfigValue::Text(_) => ValueTag::Text,
        ConfigValue::Unit => ValueTag::Unit,
        ConfigValue::List(_) => ValueTag::List,
        ConfigValue::Table(_) => ValueTag::Table,
    }
}

impl ConfigValue {
    /// Report the outermost shape of this value.
    pub fn tag(&self) -> (t: ValueTag)
        ensures
            t == tag_of(*self),
    {
        match self {
            ConfigValue::Bool(_) => ValueTag::Bool,
            ConfigValue::U64(_) => ValueTag::U64,
            ConfigValue::I64(_) => ValueTag::I64,
            ConfigValue::Text(_) => ValueTag::Text,
            ConfigValue::Unit => ValueTag::Unit,
            ConfigValue::List(_) => ValueTag::List,
            ConfigValue::Table(_) => ValueTag::Table,
        }
    }
}

} // verus!
