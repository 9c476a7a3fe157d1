use vstd::prelude::*;

use crate::decision::{Decision, DecisiveClause, DecisiveView, DenyShape, Effect};
use crate::evaluate::{copy_facts, copy_label, copy_reads, copy_reason};
use crate::facts::Presence;
use crate::identity::{identifier_check, ClauseLabel, FactId, GatekeepError, ParamKey, ReasonCode};
use crate::order::{lex_less, lemma_lex_total, lemma_lex_transitive, str_less, strictly_sorted};

verus! {

/// Opaque serialized value used only for trace and audit output.
pub type TraceValue = serde_json::Value;

/// Declares the serialized value type of `serde_json`.
#[verifier::external_type_specification]
#[verifier::external_body]
pub struct ExTraceValue(serde_json::Value);

/// Declares the error type of `serde_json`.
#[verifier::external_type_specification]
#[verifier::external_body]
pub struct ExJsonError(serde_json::Error);

/// Whether two serialized values are equal, as `serde_json::Value`'s `==`
/// decides.
pub uninterp spec fn json_equal(a: TraceValue, b: TraceValue) -> bool;

/// `serde_json::Value`'s `==`. A value always compares equal to itself: the
/// comparison is derived field by field, and a JSON number never holds NaN.
#[verifier::external_body]
pub(crate) fn trace_values_equal(a: &TraceValue, b: &TraceValue) -> (r: bool)
    ensures
        r == json_equal(*a, *b),
        *a == *b ==> r,
{
    a == b
}

/// `serde_json::Value`'s derived `clone`, which copies the value; the copy
/// compares equal to the original.
#[verifier::external_body]
pub(crate) fn copy_trace_value(v: &TraceValue) -> (r: TraceValue)
    ensures
        r == *v,
        json_equal(r, *v),
        json_equal(*v, r),
{
    v.clone()
}

/// Structured denial-reason parameter value.
#[derive(Debug)]
pub enum ReasonValue {
    /// String parameter.
    Str(String),
    /// Integer parameter.
    Int(i64),
    /// Fact identity parameter.
    Fact(FactId),
    /// Serialized outcome parameter.
    Outcome(TraceValue),
}

/// Stable denial reason emitted by the core.
#[derive(Debug)]
pub struct DenialReason {
    /// Stable translation key.
    pub code: ReasonCode,
    /// Structured parameters for presentation, ordered by key.
    pub params: Vec<(ParamKey, ReasonValue)>,
    /// Disclosure shape for presentation.
    pub shape: DenyShape,
}

/// Serialized decisive clause.
#[derive(Debug)]
pub enum TraceClause {
    /// Permit clause with a serialized outcome.
    Permit {
        /// Serialized granted outcome.
        granted: TraceValue,
        /// Facts that satisfied the deciding condition.
        satisfied: Vec<FactId>,
        /// Optional stable clause label.
        label: Option<ClauseLabel>,
    },
    /// Deny clause with an optional serialized requested outcome.
    Deny {
        /// Serialized denied outcome, when one exists.
        denied: Option<TraceValue>,
        /// Facts that caused the deciding condition to fail.
        unsatisfied: Vec<FactId>,
        /// Optional stable clause label.
        label: Option<ClauseLabel>,
        /// Optional stable reason code.
        reason: Option<ReasonCode>,
        /// Disclosure shape for presentation.
        shape: DenyShape,
    },
}

/// Durable, non-generic decision trace.
#[derive(Debug)]
pub struct Trace {
    /// Facts read by the evaluator in first-read order.
    pub consulted: Vec<(FactId, Presence)>,
    /// Serialized decisive clause.
    pub decisive: TraceClause,
}

/// Error produced while serializing trace or reason values.
#[derive(Debug)]
pub enum TraceError {
    /// Outcome serialization failed.
    Outcome(serde_json::Error),
    /// Stable identity validation failed while building a reason.
    Identity(GatekeepError),
}

/// Text of a decimal digit.
pub open spec fn digit_text(d: nat) -> Seq<char> {
    if d == 0 {
        "0"@
    } else if d == 1 {
        "1"@
    } else if d == 2 {
        "2"@
    } else if d == 3 {
        "3"@
    } else if d == 4 {
        "4"@
    } else if d == 5 {
        "5"@
    } else if d == 6 {
        "6"@
    } else if d == 7 {
        "7"@
    } else if d == 8 {
        "8"@
    } else {
        "9"@
    }
}

/// Decimal text of a natural number.
pub open spec fn decimal(n: nat) -> Seq<char>
    decreases n,
{
    if n < 10 {
        digit_text(n)
    } else {
        decimal(n / 10) + digit_text(n % 10)
    }
}

pub(crate) fn decimal_string(n: usize) -> (s: String)
    ensures
        s@ == decimal(n as nat),
    decreases n,
{
    let mut s = if n < 10 {
        String::new()
    } else {
        decimal_string(n / 10)
    };
    let d = n % 10;
    if d == 0 {
        s.append("0");
    } else if d == 1 {
        s.append("1");
    } else if d == 2 {
        s.append("2");
    } else if d == 3 {
        s.append("3");
    } else if d == 4 {
        s.append("4");
    } else if d == 5 {
        s.append("5");
    } else if d == 6 {
        s.append("6");
    } else if d == 7 {
        s.append("7");
    } else if d == 8 {
        s.append("8");
    } else {
        s.append("9");
    }
    s
}

/// Key of the parameter naming the `i`-th fact that failed.
pub open spec fn missing_key(i: nat) -> Seq<char> {
    if i == 0 {
        "missing_fact"@
    } else {
        "missing_fact_"@ + decimal(i)
    }
}

/// Keys of a list of parameters.
pub open spec fn param_keys<V>(s: Seq<(ParamKey, V)>) -> Seq<Seq<char>> {
    Seq::new(s.len(), |i: int| s[i].0@)
}

/// Parameters as a map from key text.
pub open spec fn param_map<V>(s: Seq<(ParamKey, V)>) -> Map<Seq<char>, V> {
    Map::new(
        |k: Seq<char>| exists|i: int| 0 <= i < s.len() && s[i].0@ == k,
        |k: Seq<char>| s[choose|i: int| 0 <= i < s.len() && s[i].0@ == k].1,
    )
}

/// Parameters naming the failed facts `u[..n]`, the `i`-th under `missing_key(i)`.
pub open spec fn missing_params(u: Seq<FactId>, n: nat) -> Map<Seq<char>, ReasonValue>
    decreases n,
{
    if n == 0 {
        Map::empty()
    } else {
        missing_params(u, (n - 1) as nat).insert(
            missing_key((n - 1) as nat),
            ReasonValue::Fact(u[n - 1]),
        )
    }
}

/// The parameters of a denial reason: each failed fact, then the denied
/// outcome when the clause names one.
pub open spec fn reason_params(unsatisfied: Seq<FactId>, has_denied: bool, outcome: TraceValue) -> Map<
    Seq<char>,
    ReasonValue,
> {
    let m = missing_params(unsatisfied, unsatisfied.len());
    if has_denied {
        m.insert("denied_outcome"@, ReasonValue::Outcome(outcome))
    } else {
        m
    }
}

/// The code of a denial reason: the reason code, else the label checked as a
/// reason code; none without either.
pub open spec fn reason_code_of<O>(d: DecisiveView<O>) -> Option<Result<Seq<char>, GatekeepError>> {
    match d {
        DecisiveView::Deny { reason: Some(r), .. } => Some(Ok(r)),
        DecisiveView::Deny { reason: None, label: Some(l), .. } => Some(
            identifier_check("reason_code", false, l),
        ),
        _ => None,
    }
}

/// Inserts a parameter into a list ordered by key, replacing an equal key.
#[verifier::rlimit(40)]
fn insert_param(v: &mut Vec<(ParamKey, ReasonValue)>, k: ParamKey, val: ReasonValue)
    requires
        strictly_sorted(param_keys(old(v)@)),
    ensures
        strictly_sorted(param_keys(final(v)@)),
        param_map(final(v)@) == param_map(old(v)@).insert(k@, val),
{
    let ghost s = v@;
    let ghost ks = param_keys(s);
    let mut j: usize = 0;
    while j < v.len() && str_less(v[j].0.as_str(), k.as_str())
        invariant
            j <= v@.len(),
            v@ == s,
            ks == param_keys(s),
            strictly_sorted(ks),
            forall|i: int| 0 <= i < j ==> lex_less(#[trigger] ks[i], k@),
        decreases v@.len() - j,
    {
        j = j + 1;
    }
    let ghost key = k@;
    let ghost value = val;
    if j < v.len() && v[j].0.same(&k) {
        v.set(j, (k, val));
        proof {
            let t = v@;
            assert(param_keys(t) =~= ks);
            assert forall|x: Seq<char>| #[trigger] param_map(t).contains_key(x) == param_map(s).insert(
                key,
                value,
            ).contains_key(x) by {
                if x == key {
                    assert(t[j as int].0@ == key);
                    assert(s[j as int].0@ == key);
                }
                if exists|i: int| 0 <= i < s.len() && s[i].0@ == x {
                    let i = choose|i: int| 0 <= i < s.len() && s[i].0@ == x;
                    assert(t[i].0@ == ks[i]);
                }
                if exists|i: int| 0 <= i < t.len() && t[i].0@ == x {
                    let i = choose|i: int| 0 <= i < t.len() && t[i].0@ == x;
                    assert(s[i].0@ == ks[i]);
                }
            }
            assert forall|x: Seq<char>| #[trigger] param_map(t).contains_key(x) implies param_map(t)[x]
                == param_map(s).insert(key, value)[x] by {
                let i = choose|i: int| 0 <= i < t.len() && t[i].0@ == x;
                assert(t[i].0@ == ks[i]);
                if x == key {
                    lemma_unique_index(ks, i, j as int);
                } else {
                    assert(i != j);
                    assert(s[i] == t[i]);
                    let i2 = choose|i2: int| 0 <= i2 < s.len() && s[i2].0@ == x;
                    assert(s[i2].0@ == ks[i2]);
                    lemma_unique_index(ks, i, i2);
                }
            }
            assert(param_map(t) =~= param_map(s).insert(key, value));
        }
        return;
    }
    proof {
        if j < s.len() {
            assert(s[j as int].0@ == ks[j as int]);
            lemma_lex_total(ks[j as int], key);
        }
    }
    v.insert(j, (k, val));
    proof {
        let t = v@;
        s.insert_ensures(j as int, (k, val));
        let tk = param_keys(t);
        assert forall|i: int| 0 <= i < tk.len() implies #[trigger] tk[i] == (if i < j {
            ks[i]
        } else if i == j {
            key
        } else {
            ks[i - 1]
        }) by {}
        assert forall|a: int, b: int| 0 <= a < b < tk.len() implies lex_less(
            #[trigger] tk[a],
            #[trigger] tk[b],
        ) by {
            if a == j && b - 1 > j {
                lemma_lex_transitive(key, ks[j as int], ks[b - 1]);
            }
        }
        assert forall|x: Seq<char>| #[trigger] param_map(t).contains_key(x) == param_map(s).insert(
            key,
            value,
        ).contains_key(x) by {
            if exists|i: int| 0 <= i < t.len() && t[i].0@ == x {
                let i = choose|i: int| 0 <= i < t.len() && t[i].0@ == x;
                if i < j {
                    assert(s[i] == t[i]);
                } else if i > j {
                    assert(s[i - 1] == t[i]);
                }
            }
            if exists|i: int| 0 <= i < s.len() && s[i].0@ == x {
                let i = choose|i: int| 0 <= i < s.len() && s[i].0@ == x;
                if i < j {
                    assert(t[i] == s[i]);
                } else {
                    assert(t[i + 1] == s[i]);
                }
            }
            if x == key {
                assert(t[j as int].0@ == key);
            }
        }
        assert forall|x: Seq<char>| #[trigger] param_map(t).contains_key(x) implies param_map(t)[x]
            == param_map(s).insert(key, value)[x] by {
            let i = choose|i: int| 0 <= i < t.len() && t[i].0@ == x;
            assert(t[i].0@ == tk[i]);
            if x == key {
                assert(tk[j as int] == key);
                lemma_unique_index(tk, i, j as int);
            } else {
                assert(i != j);
                let i2 = choose|i2: int| 0 <= i2 < s.len() && s[i2].0@ == x;
                assert(s[i2].0@ == ks[i2]);
                let ti = if i < j { i } else { i - 1 };
                assert(s[ti] == t[i]);
                lemma_unique_index(ks, ti, i2);
            }
        }
        assert(param_map(t) =~= param_map(s).insert(key, value));
    }
}

/// In a strictly sorted list, equal entries stand at the same index.
proof fn lemma_unique_index(ks: Seq<Seq<char>>, a: int, b: int)
    requires
        strictly_sorted(ks),
        0 <= a < ks.len(),
        0 <= b < ks.len(),
        ks[a] == ks[b],
    ensures
        a == b,
{
    if a < b {
        crate::order::lemma_lex_irreflexive(ks[a]);
    } else if b < a {
        crate::order::lemma_lex_irreflexive(ks[a]);
    }
}

/// `r` is the denial reason that `Decision::denial_reason` builds for `d`
/// with the serialized outcome `outcome` when it succeeds.
pub open spec fn built_reason<O>(d: Decision<O>, outcome: TraceValue, r: Option<DenialReason>) -> bool {
    if !(d@.effect is Deny) {
        r is None
    } else {
        match d.trace.decisive {
            DecisiveClause::Deny { denied, unsatisfied, shape, .. } => match reason_code_of(d@.decisive) {
                None => r is None,
                Some(Err(_)) => false,
                Some(Ok(code)) => r matches Some(reason) && reason.code@ == code && reason.shape == shape
                    && strictly_sorted(param_keys(reason.params@)) && param_map(reason.params@) == reason_params(
                    unsatisfied@,
                    denied is Some,
                    outcome,
                ),
            },
            DecisiveClause::Permit { .. } => r is None,
        }
    }
}

impl<O> Decision<O> {
    /// Builds a stable denial reason for a denied grant.
    ///
    /// `outcome` is the serialized outcome that the decisive clause denied; it
    /// is recorded under `denied_outcome` when the clause names one. The code
    /// is the clause's reason code, else its label; a clause with neither, or
    /// a permit, gives no reason. Each failed fact is recorded under
    /// `missing_fact`, `missing_fact_1`, ... in order.
    pub fn denial_reason(&self, outcome: TraceValue) -> (r: Result<Option<DenialReason>, TraceError>)
        ensures
            !(self@.effect is Deny) ==> r matches Ok(None),
            self@.effect is Deny ==> match self.trace.decisive {
                DecisiveClause::Deny { denied, unsatisfied, shape, .. } => match reason_code_of(
                    self@.decisive,
                ) {
                    None => r matches Ok(None),
                    Some(Err(e)) => r matches Err(TraceError::Identity(e2)) && e2 == e,
                    Some(Ok(code)) => r matches Ok(Some(reason)) && reason.code@ == code
                        && reason.shape == shape && strictly_sorted(param_keys(reason.params@))
                        && param_map(reason.params@) == reason_params(
                        unsatisfied@,
                        denied is Some,
                        outcome,
                    ),
                },
                DecisiveClause::Permit { .. } => r matches Ok(None),
            },
            r matches Ok(x) ==> built_reason(*self, outcome, x),
    {
        match self.effect {
            Effect::Deny => {},
            Effect::Permit(_) => return Ok(None),
        }
        let (denied, unsatisfied, label, reason, shape) = match &self.trace.decisive {
            DecisiveClause::Deny { denied, unsatisfied, label, reason, shape } => (
                denied,
                unsatisfied,
                label,
                reason,
                *shape,
            ),
            DecisiveClause::Permit { .. } => return Ok(None),
        };
        let code = match (reason, label) {
            (Some(reason), _) => reason.duplicate(),
            (None, Some(label)) => match ReasonCode::new(label.as_str()) {
                Ok(c) => c,
                Err(e) => return Err(TraceError::Identity(e)),
            },
            (None, None) => return Ok(None),
        };
        let mut params: Vec<(ParamKey, ReasonValue)> = Vec::new();
        assert(param_keys(params@) =~= Seq::<Seq<char>>::empty());
        assert(param_map(params@) =~= Map::<Seq<char>, ReasonValue>::empty());
        let mut index: usize = 0;
        while index < unsatisfied.len()
            invariant
                index <= unsatisfied@.len(),
                strictly_sorted(param_keys(params@)),
                param_map(params@) == missing_params(unsatisfied@, index as nat),
            decreases unsatisfied@.len() - index,
        {
            let key = if index == 0 {
                ParamKey::from_trusted("missing_fact")
            } else {
                let mut text = String::from_str("missing_fact_");
                let digits = decimal_string(index);
                text.append(digits.as_str());
                ParamKey::from_trusted(text.as_str())
            };
            let fact = unsatisfied[index].duplicate();
            insert_param(&mut params, key, ReasonValue::Fact(fact));
            index = index + 1;
        }
        if denied.is_some() {
            insert_param(&mut params, ParamKey::from_trusted("denied_outcome"), ReasonValue::Outcome(outcome));
        }
        Ok(Some(DenialReason { code, params, shape }))
    }
}


/// Whether a serialized clause records a typed clause, with `outcome` as the
/// serialized outcome of the typed clause.
pub open spec fn records_clause<O>(t: TraceClause, d: DecisiveClause<O>, outcome: TraceValue) -> bool {
    match (t, d) {
        (
            TraceClause::Permit { granted, satisfied: s2, label: l2 },
            DecisiveClause::Permit { satisfied, label, .. },
        ) => granted == outcome && s2.deep_view() == satisfied.deep_view() && l2.deep_view()
            == label.deep_view(),
        (
            TraceClause::Deny { denied: d2, unsatisfied: u2, label: l2, reason: r2, shape: h2 },
            DecisiveClause::Deny { denied, unsatisfied, label, reason, shape },
        ) => d2 == (if denied is Some {
            Some(outcome)
        } else {
            None
        }) && u2.deep_view() == unsatisfied.deep_view() && l2.deep_view() == label.deep_view()
            && r2.deep_view() == reason.deep_view() && h2 == shape,
        _ => false,
    }
}

impl<O> Decision<O> {
    /// Converts the typed trace into a durable, non-generic trace.
    ///
    /// `outcome` is the serialized outcome of the decisive clause: the granted
    /// outcome of a permit, or the denied outcome of a denial that names one
    /// (a denial without one ignores it).
    pub fn to_trace(&self, outcome: TraceValue) -> (t: Trace)
        ensures
            t.consulted.deep_view() == self@.consulted,
            records_clause(t.decisive, self.trace.decisive, outcome),
    {
        let decisive = match &self.trace.decisive {
            DecisiveClause::Permit { satisfied, label, .. } => TraceClause::Permit {
                granted: outcome,
                satisfied: copy_facts(satisfied),
                label: copy_label(label),
            },
            DecisiveClause::Deny { denied, unsatisfied, label, reason, shape } => TraceClause::Deny {
                denied: if denied.is_some() {
                    Some(outcome)
                } else {
                    None
                },
                unsatisfied: copy_facts(unsatisfied),
                label: copy_label(label),
                reason: copy_reason(reason),
                shape: *shape,
            },
        };
        Trace { consulted: copy_reads(&self.trace.consulted), decisive }
    }
}


/// Each digit's text is one character, distinct for distinct digits.
proof fn lemma_digit_text(d: nat)
    requires
        d < 10,
    ensures
        digit_text(d).len() == 1,
        digit_text(d)[0] == ((d + 48) as u32) as char,
{
    reveal_strlit("0");
    reveal_strlit("1");
    reveal_strlit("2");
    reveal_strlit("3");
    reveal_strlit("4");
    reveal_strlit("5");
    reveal_strlit("6");
    reveal_strlit("7");
    reveal_strlit("8");
    reveal_strlit("9");
}

/// Decimal text is never empty, and has one character exactly below ten.
proof fn lemma_decimal_len(n: nat)
    ensures
        decimal(n).len() >= 1,
        n < 10 <==> decimal(n).len() == 1,
    decreases n,
{
    if n < 10 {
        lemma_digit_text(n);
    } else {
        lemma_decimal_len(n / 10);
        lemma_digit_text(n % 10);
    }
}

/// Distinct numbers have distinct decimal text.
pub proof fn lemma_decimal_injective(a: nat, b: nat)
    requires
        decimal(a) == decimal(b),
    ensures
        a == b,
    decreases a,
{
    lemma_decimal_len(a);
    lemma_decimal_len(b);
    if a < 10 && b < 10 {
        lemma_digit_text(a);
        lemma_digit_text(b);
        assert(decimal(a)[0] == decimal(b)[0]);
    } else if a >= 10 && b >= 10 {
        lemma_digit_text(a % 10);
        lemma_digit_text(b % 10);
        let da = decimal(a / 10);
        let db = decimal(b / 10);
        assert(decimal(a) == da + digit_text(a % 10));
        assert(decimal(b) == db + digit_text(b % 10));
        assert(decimal(a)[decimal(a).len() - 1] == digit_text(a % 10)[0]);
        assert(decimal(b)[decimal(b).len() - 1] == digit_text(b % 10)[0]);
        assert(a % 10 == b % 10);
        assert(da =~= decimal(a).subrange(0, da.len() as int));
        assert(db =~= decimal(b).subrange(0, db.len() as int));
        lemma_decimal_injective(a / 10, b / 10);
    }
}

/// Distinct failed-fact positions have distinct keys, none of which is the
/// key of the denied outcome.
pub proof fn lemma_missing_key_injective(i: nat, j: nat)
    ensures
        missing_key(i) == missing_key(j) ==> i == j,
        missing_key(i) != "denied_outcome"@,
{
    reveal_strlit("missing_fact");
    reveal_strlit("missing_fact_");
    reveal_strlit("denied_outcome");
    lemma_decimal_len(i);
    lemma_decimal_len(j);
    assert(missing_key(i)[0] == 'm');
    assert("denied_outcome"@[0] == 'd');
    if missing_key(i) == missing_key(j) {
        if i > 0 && j > 0 {
            assert(decimal(i) =~= missing_key(i).subrange(13, missing_key(i).len() as int));
            assert(decimal(j) =~= missing_key(j).subrange(13, missing_key(j).len() as int));
            lemma_decimal_injective(i, j);
        } else if i > 0 || j > 0 {
            assert(missing_key(i).len() != missing_key(j).len());
        }
    }
}

/// The keys of the first `n` failed facts are exactly `n` distinct keys, and
/// each names its fact.
pub proof fn lemma_missing_params(u: Seq<FactId>, n: nat)
    ensures
        missing_params(u, n).dom().finite(),
        missing_params(u, n).dom().len() == n,
        forall|k: Seq<char>| missing_params(u, n).contains_key(k) <==> exists|i: nat| i < n && k == missing_key(i),
        forall|i: nat| i < n ==> missing_params(u, n).contains_key(#[trigger] missing_key(i)) && missing_params(u, n)[missing_key(i)]
            == ReasonValue::Fact(u[i as int]),
    decreases n,
{
    if n > 0 {
        let m = (n - 1) as nat;
        lemma_missing_params(u, m);
        let k = missing_key(m);
        assert(!missing_params(u, m).contains_key(k)) by {
            if missing_params(u, m).contains_key(k) {
                let i = choose|i: nat| i < m && k == missing_key(i);
                lemma_missing_key_injective(i, m);
            }
        }
        assert forall|i: nat| i < n implies missing_params(u, n).contains_key(#[trigger] missing_key(i)) && missing_params(u, n)[missing_key(i)]
            == ReasonValue::Fact(u[i as int]) by {
            if i < m {
                lemma_missing_key_injective(i, m);
            }
        }
        assert forall|key: Seq<char>| missing_params(u, n).contains_key(key) implies exists|i: nat| i < n && key == missing_key(i) by {
            if key != k {
                let i = choose|i: nat| i < m && key == missing_key(i);
                assert(i < n);
            }
        }
    }
}

} // verus!
