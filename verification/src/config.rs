//! Parsing one filter declaration into a discriminator and a residual value.
//!
//! A declaration arrives as a generic configuration value that must be a
//! table. Parsing removes the entry whose key is the text `"kind"` and keeps
//! every other entry, untouched and in order, as the residual configuration;
//! an external registry later re-interprets that residue under the schema the
//! kind names. This is a two-phase deserialization: the discriminator is
//! stripped before the target type is known.

use crate::value::{tag_of, ConfigValue, ValueTag};
use vstd::prelude::*;
use vstd::string::StringExecFns;

verus! {

/// Configuration for a filter.
#[derive(Debug, PartialEq)]
pub struct FilterConfig {
    /// The filter kind.
    pub kind: String,
    /// The filter configuration.
    pub config: ConfigValue,
}

/// Why a filter declaration failed to parse.
#[derive(Debug, Clone, Copy, PartialEq, Eq, Structural)]
pub enum ConfigError {
    /// The declaration was not a table; the payload says what it was.
    NotATable(ValueTag),
    /// The declaration has no `kind` entry.
    MissingKind,
    /// The `kind` entry is present but its value is not text; the payload
    /// says what it was.
    KindNotText(ValueTag),
}

/// Whether `k` is the key that holds the discriminator: the text `"kind"`.
pub open spec fn is_kind_key(k: ConfigValue) -> bool {
    k matches ConfigValue::Text(s) && s@ == "kind"@
}

/// The value of the first `"kind"`-keyed entry of `es`, if any.
pub open spec fn kind_entry(es: Seq<(ConfigValue, ConfigValue)>) -> Option<ConfigValue>
    decreases es.len(),
{
    if es.len() == 0 {
        None
    } else if is_kind_key(es[0].0) {
        Some(es[0].1)
    } else {
        kind_entry(es.drop_first())
    }
}

/// The entries of `es` whose key is not `"kind"`, in order.
pub open spec fn residual_entries(es: Seq<(ConfigValue, ConfigValue)>) -> Seq<
    (ConfigValue, ConfigValue),
>
    decreases es.len(),
{
    if es.len() == 0 {
        Seq::empty()
    } else if is_kind_key(es[0].0) {
        residual_entries(es.drop_first())
    } else {
        seq![es[0]] + residual_entries(es.drop_first())
    }
}

/// What parsing the declaration `value` must produce: the `kind` text and
/// the residual table, or the error that names the first thing wrong.
pub open spec fn parse_result(value: ConfigValue, r: Result<FilterConfig, ConfigError>) -> bool {
    match value {
        ConfigValue::Table(es) => match kind_entry(es@) {
            Option::None => r == Result::<FilterConfig, ConfigError>::Err(ConfigError::MissingKind),
            Option::Some(kv) => match kv {
                ConfigValue::Text(s) => r matches Ok(rec) && rec.kind@ == s@ && (rec.config
                    matches ConfigValue::Table(res) && res@ == residual_entries(es@)),
                _ => r == Result::<FilterConfig, ConfigError>::Err(
                    ConfigError::KindNotText(tag_of(kv)),
                ),
            },
        },
        _ => r == Result::<FilterConfig, ConfigError>::Err(ConfigError::NotATable(tag_of(value))),
    }
}

impl ConfigError {
    /// A short description of the failure, naming the field at fault.
    pub fn message(&self) -> (m: String)
        ensures
            m@ == match *self {
                ConfigError::NotATable(_) => "invalid type: map expected"@,
                ConfigError::MissingKind => "missing field: kind"@,
                ConfigError::KindNotText(_) => "invalid type: string expected for field: kind"@,
            },
    {
        match self {
            ConfigError::NotATable(_) => String::from_str("invalid type: map expected"),
            ConfigError::MissingKind => String::from_str("missing field: kind"),
            ConfigError::KindNotText(_) => String::from_str(
                "invalid type: string expected for field: kind",
            ),
        }
    }
}

/// Parsing keeps exactly the non-`kind` fields: an entry is in the residual
/// table if and only if it is an entry of the declaration whose key is not
/// the text `"kind"`. Re-interpreting `config` under the schema its `kind`
/// names therefore sees every original field unchanged.
pub proof fn lemma_residual_preserves_fields(es: Seq<(ConfigValue, ConfigValue)>)
    ensures
        forall|e: (ConfigValue, ConfigValue)| #[trigger] residual_entries(es).contains(e) <==> (
        es.contains(e) && !is_kind_key(e.0)),
    decreases es.len(),
{
    if es.len() == 0 {
    } else {
        let tail = es.drop_first();
        lemma_residual_preserves_fields(tail);
        assert forall|e: (ConfigValue, ConfigValue)| #[trigger] residual_entries(es).contains(e)
            <==> (es.contains(e) && !is_kind_key(e.0)) by {
            let r = residual_entries(es);
            let rt = residual_entries(tail);
            if tail.contains(e) {
                let i = choose|i: int| 0 <= i < tail.len() && tail[i] == e;
                assert(es[i + 1] == e);
            }
            if es.contains(e) && e != es[0] {
                let i = choose|i: int| 0 <= i < es.len() && es[i] == e;
                assert(tail[i - 1] == e);
            }
            if !is_kind_key(es[0].0) {
                if r.contains(e) {
                    let i = choose|i: int| 0 <= i < r.len() && r[i] == e;
                    if i == 0 {
                        assert(es[0] == e);
                    } else {
                        assert(rt[i - 1] == e);
                    }
                }
                if e == es[0] {
                    assert(r[0] == e);
                }
                if rt.contains(e) {
                    let i = choose|i: int| 0 <= i < rt.len() && rt[i] == e;
                    assert(r[i + 1] == e);
                }
            }
        }
    }
}

/// A parsed record's `config` never includes the `kind` key.
pub proof fn lemma_config_excludes_kind(es: Seq<(ConfigValue, ConfigValue)>)
    ensures
        forall|e: (ConfigValue, ConfigValue)| #[trigger] residual_entries(es).contains(e)
            ==> !is_kind_key(e.0),
{
    lemma_residual_preserves_fields(es);
}

/// Whether `v` is the text `"kind"`.
fn is_kind_text(v: &ConfigValue) -> (r: bool)
    ensures
        r == is_kind_key(*v),
{
    match v {
        ConfigValue::Text(s) => {
            let k: String = String::from_str("kind");
            *s == k
        },
        _ => false,
    }
}

impl FilterConfig {
    /// Parse one filter declaration.
    ///
    /// The declaration must be a table holding a `kind` entry whose value is
    /// text; the record keeps that text and, as `config`, a table of every
    /// other entry unchanged and in order. Each failure names the first
    /// thing wrong: a declaration that is not a table, a missing `kind`, or
    /// a `kind` that is not text.
    pub fn deserialize(value: ConfigValue) -> (r: Result<FilterConfig, ConfigError>)
        ensures
            parse_result(value, r),
    {
        let mut es: Vec<(ConfigValue, ConfigValue)> = match value {
            ConfigValue::Table(es) => es,
            other => {
                return Err(ConfigError::NotATable(other.tag()));
            },
        };
        let ghost orig = es@;
        let mut rest: Vec<(ConfigValue, ConfigValue)> = Vec::new();
        let mut kind_val: Option<ConfigValue> = None;
        while es.len() > 0
            invariant
                kind_entry(orig) == (if kind_val is Some {
                    kind_val
                } else {
                    kind_entry(es@)
                }),
                residual_entries(orig) == rest@ + residual_entries(es@),
            decreases es.len(),
        {
            let ghost before = es@;
            let e = es.remove(0);
            proof {
                assert(before.remove(0) =~= before.drop_first());
            }
            if is_kind_text(&e.0) {
                if kind_val.is_none() {
                    kind_val = Some(e.1);
                }
            } else {
                let ghost rest_before = rest@;
                rest.push(e);
                proof {
                    assert(residual_entries(before) == seq![e] + residual_entries(es@));
                    assert(rest_before + (seq![e] + residual_entries(es@)) =~= rest@
                        + residual_entries(es@));
                }
            }
        }
        proof {
            assert(residual_entries(orig) =~= rest@);
        }
        let kv = match kind_val {
            Some(kv) => kv,
            None => {
                return Err(ConfigError::MissingKind);
            },
        };
        match kv {
            ConfigValue::Text(s) => Ok(FilterConfig { kind: s, config: ConfigValue::Table(rest) }),
            other => Err(ConfigError::KindNotText(other.tag())),
        }
    }
}

} // verus!
