//! Configuration-derived decisions: queue kind, model family, dtype, and
//! the shard list read from a weight map.

use vstd::prelude::*;
use crate::errors::ConfigError;
use crate::strings::str_eq;
use vstd::string::StringExecFns;

verus! {

/// Supported queue kinds for job processing; only the local one is wired
/// up by the serving core.
#[derive(Debug, Clone, PartialEq, Eq, Structural)]
pub enum QueueType {
    Local,
    Redis,
    Kafka,
}

impl QueueType {
    /// The configuration spelling of this queue kind.
    pub fn label(&self) -> (r: &'static str)
        ensures
            *self == QueueType::Local ==> r@ == "local"@,
            *self == QueueType::Redis ==> r@ == "redis"@,
            *self == QueueType::Kafka ==> r@ == "kafka"@,
    {
        match self {
            QueueType::Local => "local",
            QueueType::Redis => "redis",
            QueueType::Kafka => "kafka",
        }
    }
}

/// The tensor element widths a model can be loaded in.
#[derive(Debug, Clone, Copy, PartialEq, Eq, Structural)]
pub enum DtypeKind {
    F16,
    BF16,
    F32,
}

/// Parse the configured dtype: absent means `f16`, anything but the three
/// known spellings is rejected.
pub fn parse_dtype(dtype: &Option<String>) -> (r: Result<DtypeKind, ConfigError>)
    ensures
        dtype is None ==> r == Ok::<DtypeKind, ConfigError>(DtypeKind::F16),
        dtype matches Some(s) ==> {
            &&& s@ == "f16"@ ==> r == Ok::<DtypeKind, ConfigError>(DtypeKind::F16)
            &&& s@ == "bf16"@ ==> r == Ok::<DtypeKind, ConfigError>(DtypeKind::BF16)
            &&& s@ == "f32"@ ==> r == Ok::<DtypeKind, ConfigError>(DtypeKind::F32)
            &&& s@ != "f16"@ && s@ != "bf16"@ && s@ != "f32"@ ==> r is Err
        },
{
    proof {
        reveal_strlit("f16");
        reveal_strlit("bf16");
        reveal_strlit("f32");
        assert("f16"@.len() == 3);
        assert("bf16"@.len() == 4);
        assert("f32"@.len() == 3);
        assert("f16"@[1] == '1');
        assert("f32"@[1] == '3');
    }
    match dtype {
        Option::Some(s) => {
            if str_eq(s.as_str(), "f16") {
                Ok(DtypeKind::F16)
            } else if str_eq(s.as_str(), "bf16") {
                Ok(DtypeKind::BF16)
            } else if str_eq(s.as_str(), "f32") {
                Ok(DtypeKind::F32)
            } else {
                let mut msg = String::new();
                msg.append("Unsupported dtype ");
                msg.append(s.as_str());
                Err(ConfigError::new(msg))
            }
        },
        Option::None => Ok(DtypeKind::F16),
    }
}

/// The model families a backend exists for.
#[derive(Debug, Clone, Copy, PartialEq, Eq, Structural)]
pub enum ModelFamily {
    Llama,
    Qwen,
}

/// Parse the configured model family; an unknown family is fatal at
/// startup.
pub fn parse_model_family(family: &str) -> (r: Result<ModelFamily, ConfigError>)
    ensures
        family@ == "llama"@ ==> r == Ok::<ModelFamily, ConfigError>(ModelFamily::Llama),
        family@ == "qwen"@ ==> r == Ok::<ModelFamily, ConfigError>(ModelFamily::Qwen),
        family@ != "llama"@ && family@ != "qwen"@ ==> r is Err,
{
    proof {
        reveal_strlit("llama");
        reveal_strlit("qwen");
        assert("llama"@.len() == 5);
        assert("qwen"@.len() == 4);
    }
    if str_eq(family, "llama") {
        Ok(ModelFamily::Llama)
    } else if str_eq(family, "qwen") {
        Ok(ModelFamily::Qwen)
    } else {
        let mut msg = String::new();
        msg.append("Unsupported model family: ");
        msg.append(family);
        Err(ConfigError::new(msg))
    }
}

/// Whether `x` already occurs among the strings of `r`.
pub open spec fn occurs_in(r: Seq<String>, x: Seq<char>) -> bool {
    exists|i: int| 0 <= i < r.len() && r[i]@ == x
}

/// Whether the weight-map value `v` names the shard file `x`.
pub open spec fn value_is(v: Option<String>, x: Seq<char>) -> bool {
    v matches Some(s) && s@ == x
}

/// Whether some weight-map value names the shard file `x`.
pub open spec fn from_values(vs: Seq<Option<String>>, x: Seq<char>) -> bool {
    exists|j: int| 0 <= j < vs.len() && #[trigger] value_is(vs[j], x)
}

fn contains_str(r: &Vec<String>, x: &String) -> (b: bool)
    ensures
        b == occurs_in(r@, x@),
{
    let mut i: usize = 0;
    while i < r.len()
        invariant
            i <= r@.len(),
            forall|j: int| 0 <= j < i ==> r@[j]@ != x@,
        decreases r@.len() - i,
    {
        if r[i].eq(x) {
            assert(r@[i as int]@ == x@);
            return true;
        }
        i = i + 1;
    }
    false
}

/// The distinct shard file names among the weight map's values, first
/// occurrence first. A value that is not a string carries no file name and
/// is skipped.
#[verifier::loop_isolation(false)]
pub fn shard_files_from_weight_map(values: &Vec<Option<String>>) -> (r: Vec<String>)
    ensures
        forall|i: int, j: int| 0 <= i < j < r@.len() ==> r@[i]@ != r@[j]@,
        forall|i: int| #![trigger r@[i]] 0 <= i < r@.len() ==> from_values(values@, r@[i]@),
        forall|j: int, x: Seq<char>|
            0 <= j < values@.len() && #[trigger] value_is(values@[j], x) ==> occurs_in(r@, x),
{
    let mut r: Vec<String> = Vec::new();
    let mut j: usize = 0;
    while j < values.len()
        invariant
            j <= values@.len(),
            forall|p: int, q: int| 0 <= p < q < r@.len() ==> r@[p]@ != r@[q]@,
            forall|p: int| #![trigger r@[p]] 0 <= p < r@.len() ==> from_values(values@, r@[p]@),
            forall|q: int, x: Seq<char>|
                0 <= q < j && #[trigger] value_is(values@[q], x) ==> occurs_in(r@, x),
        decreases values@.len() - j,
    {
        let ghost prev = r@;
        match &values[j] {
            Option::Some(s) => {
                if !contains_str(&r, s) {
                    r.push(s.clone());
                } else {
                }
                proof {
                    assert(value_is(values@[j as int], s@));
                    assert forall|p: int| #![trigger r@[p]]
                        0 <= p < r@.len() implies from_values(values@, r@[p]@) by {
                        if p < prev.len() {
                            assert(r@[p] == prev[p]);
                            assert(from_values(values@, prev[p]@));
                        } else {
                            assert(r@[p]@ == s@);
                            assert(value_is(values@[j as int], r@[p]@));
                        }
                    }
                    assert(occurs_in(r@, s@)) by {
                        if occurs_in(prev, s@) {
                            let i0 = choose|i: int| 0 <= i < prev.len() && prev[i]@ == s@;
                            assert(r@[i0] == prev[i0]);
                        } else {
                            assert(r@[r@.len() - 1]@ == s@);
                        }
                    }
                    assert forall|q: int, x: Seq<char>|
                        0 <= q < j + 1 && #[trigger] value_is(values@[q], x) implies occurs_in(
                        r@,
                        x,
                    ) by {
                        if q < j {
                            assert(occurs_in(prev, x));
                            let i0 = choose|i: int| 0 <= i < prev.len() && prev[i]@ == x;
                            assert(r@[i0] == prev[i0]);
                        } else {
                            assert(x == s@);
                        }
                    }
                }
            },
            Option::None => {
                proof {
                    assert(r@ == prev);
                    assert forall|q: int, x: Seq<char>|
                        0 <= q < j + 1 && #[trigger] value_is(values@[q], x) implies occurs_in(
                        r@,
                        x,
                    ) by {
                        if q == j {
                            assert(values@[q] is None);
                        }
                    }
                }
            },
        }
        j = j + 1;
    }
    r
}

} // verus!
