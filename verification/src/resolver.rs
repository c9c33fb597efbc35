//! The answer resolver: it walks the variables in declaration order,
//! skips the ones whose asking condition is not met by the answers
//! collected so far, and records one value per question asked.

use vstd::prelude::*;
use crate::values::{Value, ValueModel, value_eq};
use crate::context::AnswerContext;
use crate::definition::{TemplateDefinition, Variable, VariableModel};

verus! {

/// Whether a variable is asked at all, given the answers collected so far:
/// an unconditioned variable always is; a conditioned one only when the
/// referenced variable was collected with exactly the expected value.  An
/// absent reference counts as a mismatch.
pub open spec fn spec_should_ask(v: VariableModel, ctx: Map<Seq<char>, ValueModel>) -> bool {
    match v.only_if {
        Some(c) => ctx.contains_key(c.name) && ctx[c.name] == c.value,
        None => true,
    }
}

/// Whether two values have the same shape (question type).
pub open spec fn spec_same_shape(a: ValueModel, b: ValueModel) -> bool {
    (a is Boolean && b is Boolean) || (a is Text && b is Text) || (a is Integer && b is Integer)
}

/// Whether a supplied answer is acceptable for a variable: its shape must
/// match the default's shape, and when the variable declares choices the
/// answer must be one of them.
pub open spec fn spec_answer_fits(v: VariableModel, a: ValueModel) -> bool {
    spec_same_shape(a, v.default) && match v.choices {
        Some(cs) => cs.contains(a),
        None => true,
    }
}

/// The context the resolver builds, starting from `acc`: each asked
/// question consumes the next supplied answer; an asked question whose
/// supplied answer is missing or unacceptable records the default instead.
pub open spec fn spec_resolve_from(
    vars: Seq<VariableModel>,
    answers: Seq<ValueModel>,
    acc: Map<Seq<char>, ValueModel>,
) -> Map<Seq<char>, ValueModel>
    decreases vars.len(),
{
    if vars.len() == 0 {
        acc
    } else {
        let v = vars.first();
        if !spec_should_ask(v, acc) {
            spec_resolve_from(vars.drop_first(), answers, acc)
        } else {
            let chosen = if answers.len() > 0 && spec_answer_fits(v, answers.first()) {
                answers.first()
            } else {
                v.default
            };
            let rest = if answers.len() > 0 {
                answers.drop_first()
            } else {
                answers
            };
            spec_resolve_from(vars.drop_first(), rest, acc.insert(v.name, chosen))
        }
    }
}

/// The context resolved for a variable list and a supplied answer list.
pub open spec fn spec_resolve(vars: Seq<VariableModel>, answers: Seq<ValueModel>) -> Map<
    Seq<char>,
    ValueModel,
> {
    spec_resolve_from(vars, answers, Map::empty())
}

/// Ghost meaning of a supplied answer list.
pub open spec fn spec_values(s: Seq<Value>) -> Seq<ValueModel> {
    s.map_values(|v: Value| v@)
}

/// Decide whether a variable is asked, per its `only_if` condition and the
/// answers collected so far.
pub fn should_ask(var: &Variable, ctx: &AnswerContext) -> (r: bool)
    ensures
        r == spec_should_ask(var@, ctx@),
{
    match &var.only_if {
        Some(cond) => match ctx.get(cond.name.as_str()) {
            Some(v) => value_eq(v, &cond.value),
            None => false,
        },
        None => true,
    }
}

/// Decide whether a supplied answer is acceptable for a variable.
pub fn answer_fits(var: &Variable, a: &Value) -> (r: bool)
    ensures
        r == spec_answer_fits(var@, a@),
{
    let shape_ok = match (a, &var.default) {
        (Value::Boolean(_), Value::Boolean(_)) => true,
        (Value::Text(_), Value::Text(_)) => true,
        (Value::Integer(_), Value::Integer(_)) => true,
        _ => false,
    };
    if !shape_ok {
        return false;
    }
    match &var.choices {
        Some(cs) => {
            let n = cs.len();
            let mut i: usize = 0;
            while i < n
                invariant
                    i <= n,
                    n == cs@.len(),
                    var@.choices matches Some(csm) && csm =~= cs@.map_values(|v: Value| v@),
                    spec_same_shape(a@, var@.default),
                    forall|j: int| 0 <= j < i ==> (#[trigger] cs@[j])@ != a@,
                decreases n - i,
            {
                if value_eq(&cs[i], a) {
                    proof {
                        let csm = cs@.map_values(|v: Value| v@);
                        assert(csm[i as int] == a@);
                        assert(csm.contains(a@));
                    }
                    return true;
                }
                i = i + 1;
            }
            proof {
                let csm = cs@.map_values(|v: Value| v@);
                assert forall|j: int| 0 <= j < csm.len() implies csm[j] != a@ by {
                    assert(csm[j] == cs@[j]@);
                }
                assert(!csm.contains(a@));
            }
            false
        },
        None => true,
    }
}

/// Resolve the whole context for a definition, consuming the supplied
/// answers in question order.  Each asked question takes the next supplied
/// answer; when the answers run out, or a supplied answer does not fit the
/// question, the variable's default is recorded instead.  Skipped variables
/// consume nothing and record nothing.
pub fn resolve_context(def: &TemplateDefinition, answers: &Vec<Value>) -> (ctx: AnswerContext)
    ensures
        ctx@ == spec_resolve(def@.variables, spec_values(answers@)),
{
    let ghost vm = def@.variables;
    let ghost am = spec_values(answers@);
    let mut ctx = AnswerContext::new();
    proof {
        assert(vm.skip(0) =~= vm);
        assert(am.skip(0) =~= am);
    }
    let n = def.variables.len();
    let mut i: usize = 0;
    let mut k: usize = 0;
    while i < n
        invariant
            i <= n,
            k <= am.len(),
            n == def.variables@.len(),
            vm == def@.variables,
            am == spec_values(answers@),
            vm.len() == n,
            am.len() == answers@.len(),
            spec_resolve_from(vm.skip(i as int), am.skip(k as int), ctx@) == spec_resolve(vm, am),
        decreases n - i,
    {
        let var = &def.variables[i];
        proof {
            assert(vm.skip(i as int).first() == vm[i as int]);
            assert(vm.skip(i as int).drop_first() =~= vm.skip(i as int + 1));
            assert(vm[i as int] == var@);
        }
        if should_ask(var, &ctx) {
            let chosen: Value;
            if k < answers.len() {
                proof {
                    assert(am.skip(k as int).first() == am[k as int]);
                    assert(am.skip(k as int).drop_first() =~= am.skip(k as int + 1));
                    assert(am[k as int] == answers@[k as int]@);
                }
                let a = &answers[k];
                if answer_fits(var, a) {
                    chosen = a.duplicate();
                } else {
                    chosen = var.default.duplicate();
                }
                k = k + 1;
            } else {
                proof {
                    assert(am.skip(k as int).len() == 0);
                }
                chosen = var.default.duplicate();
            }
            ctx.insert(var.name.clone(), chosen);
        }
        i = i + 1;
    }
    proof {
        assert(vm.skip(n as int) =~= Seq::<VariableModel>::empty());
    }
    ctx
}

/// No two variables of the list share a name.
pub open spec fn spec_names_distinct(vars: Seq<VariableModel>) -> bool {
    forall|p: int, q: int|
        0 <= p < q < vars.len() ==> (#[trigger] vars[p]).name != (#[trigger] vars[q]).name
}

/// A key that no variable of the list owns is untouched by resolution:
/// it is present in the result exactly when it is present in `acc`, with
/// the same value.
proof fn lemma_resolve_frame(
    vars: Seq<VariableModel>,
    answers: Seq<ValueModel>,
    acc: Map<Seq<char>, ValueModel>,
    key: Seq<char>,
)
    requires
        forall|j: int| 0 <= j < vars.len() ==> (#[trigger] vars[j]).name != key,
    ensures
        spec_resolve_from(vars, answers, acc).contains_key(key) == acc.contains_key(key),
        acc.contains_key(key) ==> spec_resolve_from(vars, answers, acc)[key] == acc[key],
    decreases vars.len(),
{
    if vars.len() > 0 {
        let v = vars.first();
        let tail = vars.drop_first();
        assert forall|j: int| 0 <= j < tail.len() implies (#[trigger] tail[j]).name != key by {
            assert(tail[j] == vars[j + 1]);
        }
        if !spec_should_ask(v, acc) {
            lemma_resolve_frame(tail, answers, acc, key);
        } else {
            let chosen = if answers.len() > 0 && spec_answer_fits(v, answers.first()) {
                answers.first()
            } else {
                v.default
            };
            let rest = if answers.len() > 0 {
                answers.drop_first()
            } else {
                answers
            };
            lemma_resolve_frame(tail, rest, acc.insert(v.name, chosen), key);
        }
    }
}

proof fn lemma_mismatch_skips_from(
    vars: Seq<VariableModel>,
    answers: Seq<ValueModel>,
    acc: Map<Seq<char>, ValueModel>,
    i: int,
    c: crate::definition::ConditionModel,
)
    requires
        spec_names_distinct(vars),
        forall|p: int| 0 <= p < vars.len() ==> !acc.contains_key((#[trigger] vars[p]).name),
        0 <= i < vars.len(),
        vars[i].only_if == Some(c),
        !(spec_resolve_from(vars, answers, acc).contains_key(c.name)
            && spec_resolve_from(vars, answers, acc)[c.name] == c.value),
    ensures
        !spec_resolve_from(vars, answers, acc).contains_key(vars[i].name),
    decreases vars.len(),
{
    let v = vars.first();
    let tail = vars.drop_first();
    assert(spec_names_distinct(tail)) by {
        assert forall|p: int, q: int|
            0 <= p < q < tail.len() implies (#[trigger] tail[p]).name != (#[trigger] tail[q]).name by {
            assert(tail[p] == vars[p + 1]);
            assert(tail[q] == vars[q + 1]);
        }
    }
    let chosen = if answers.len() > 0 && spec_answer_fits(v, answers.first()) {
        answers.first()
    } else {
        v.default
    };
    let rest = if answers.len() > 0 {
        answers.drop_first()
    } else {
        answers
    };
    if i == 0 {
        if spec_should_ask(v, acc) {
            // The condition's variable was collected in `acc` with the
            // expected value; no later variable owns that key, so the value
            // survives to the result, contradicting the mismatch.
            assert(acc.contains_key(c.name) && acc[c.name] == c.value);
            assert forall|j: int| 0 <= j < tail.len() implies (#[trigger] tail[j]).name
                != c.name by {
                assert(tail[j] == vars[j + 1]);
            }
            assert(v.name != c.name);
            let acc2 = acc.insert(v.name, chosen);
            lemma_resolve_frame(tail, rest, acc2, c.name);
            assert(false);
        }
        assert forall|j: int| 0 <= j < tail.len() implies (#[trigger] tail[j]).name != v.name by {
            assert(tail[j] == vars[j + 1]);
        }
        lemma_resolve_frame(tail, answers, acc, v.name);
    } else {
        assert(tail[i - 1] == vars[i]);
        if !spec_should_ask(v, acc) {
            lemma_mismatch_skips_from(tail, answers, acc, i - 1, c);
        } else {
            let acc2 = acc.insert(v.name, chosen);
            assert forall|p: int| 0 <= p < tail.len() implies !acc2.contains_key(
                (#[trigger] tail[p]).name,
            ) by {
                assert(tail[p] == vars[p + 1]);
            }
            lemma_mismatch_skips_from(tail, rest, acc2, i - 1, c);
        }
    }
}

proof fn lemma_resolve_keys_from(
    vars: Seq<VariableModel>,
    answers: Seq<ValueModel>,
    acc: Map<Seq<char>, ValueModel>,
    key: Seq<char>,
)
    requires
        spec_resolve_from(vars, answers, acc).contains_key(key),
    ensures
        acc.contains_key(key) || exists|j: int|
            0 <= j < vars.len() && (#[trigger] vars[j]).name == key,
    decreases vars.len(),
{
    if vars.len() > 0 {
        let v = vars.first();
        let tail = vars.drop_first();
        let chosen = if answers.len() > 0 && spec_answer_fits(v, answers.first()) {
            answers.first()
        } else {
            v.default
        };
        let rest = if answers.len() > 0 {
            answers.drop_first()
        } else {
            answers
        };
        if !spec_should_ask(v, acc) {
            lemma_resolve_keys_from(tail, answers, acc, key);
        } else {
            lemma_resolve_keys_from(tail, rest, acc.insert(v.name, chosen), key);
        }
        if !acc.contains_key(key) {
            if exists|j: int| 0 <= j < tail.len() && (#[trigger] tail[j]).name == key {
                let j = choose|j: int| 0 <= j < tail.len() && (#[trigger] tail[j]).name == key;
                assert(vars[j + 1].name == key);
            }
        }
    }
}

/// Law: the resolved context holds values only under the names of the
/// definition's variables — resolution invents no binding of its own.
pub proof fn lemma_context_keys_are_variable_names(
    vars: Seq<VariableModel>,
    answers: Seq<ValueModel>,
    key: Seq<char>,
)
    requires
        spec_resolve(vars, answers).contains_key(key),
    ensures
        exists|j: int| 0 <= j < vars.len() && (#[trigger] vars[j]).name == key,
{
    lemma_resolve_keys_from(vars, answers, Map::empty(), key);
}

/// Law: when a variable's `only_if` condition refers to a variable whose
/// collected value differs from the expected one — or that was never
/// collected — the conditioned variable is skipped and appears nowhere in
/// the resolved context.  The variable names must be pairwise distinct,
/// since a second variable of the same name would record under the same
/// key.
pub proof fn lemma_condition_mismatch_never_recorded(
    vars: Seq<VariableModel>,
    answers: Seq<ValueModel>,
    i: int,
    c: crate::definition::ConditionModel,
)
    requires
        spec_names_distinct(vars),
        0 <= i < vars.len(),
        vars[i].only_if == Some(c),
        !(spec_resolve(vars, answers).contains_key(c.name)
            && spec_resolve(vars, answers)[c.name] == c.value),
    ensures
        !spec_resolve(vars, answers).contains_key(vars[i].name),
{
    lemma_mismatch_skips_from(vars, answers, Map::empty(), i, c);
}

proof fn lemma_shape_from(
    vars: Seq<VariableModel>,
    answers: Seq<ValueModel>,
    acc: Map<Seq<char>, ValueModel>,
    i: int,
)
    requires
        spec_names_distinct(vars),
        forall|p: int| 0 <= p < vars.len() ==> !acc.contains_key((#[trigger] vars[p]).name),
        0 <= i < vars.len(),
        spec_resolve_from(vars, answers, acc).contains_key(vars[i].name),
    ensures
        spec_same_shape(spec_resolve_from(vars, answers, acc)[vars[i].name], vars[i].default),
    decreases vars.len(),
{
    let v = vars.first();
    let tail = vars.drop_first();
    assert(spec_names_distinct(tail)) by {
        assert forall|p: int, q: int|
            0 <= p < q < tail.len() implies (#[trigger] tail[p]).name != (#[trigger] tail[q]).name by {
            assert(tail[p] == vars[p + 1]);
            assert(tail[q] == vars[q + 1]);
        }
    }
    let chosen = if answers.len() > 0 && spec_answer_fits(v, answers.first()) {
        answers.first()
    } else {
        v.default
    };
    let rest = if answers.len() > 0 {
        answers.drop_first()
    } else {
        answers
    };
    if i == 0 {
        assert forall|j: int| 0 <= j < tail.len() implies (#[trigger] tail[j]).name != v.name by {
            assert(tail[j] == vars[j + 1]);
        }
        if !spec_should_ask(v, acc) {
            lemma_resolve_frame(tail, answers, acc, v.name);
            assert(false);
        } else {
            let acc2 = acc.insert(v.name, chosen);
            lemma_resolve_frame(tail, rest, acc2, v.name);
        }
    } else {
        assert(tail[i - 1] == vars[i]);
        if !spec_should_ask(v, acc) {
            lemma_shape_from(tail, answers, acc, i - 1);
        } else {
            let acc2 = acc.insert(v.name, chosen);
            assert forall|p: int| 0 <= p < tail.len() implies !acc2.contains_key(
                (#[trigger] tail[p]).name,
            ) by {
                assert(tail[p] == vars[p + 1]);
            }
            lemma_shape_from(tail, rest, acc2, i - 1);
        }
    }
}

/// Law: a collected value always has the shape of its question — the
/// supplied answer only ever replaces the default when its shape fits, so
/// one key never holds two differently-shaped values across a run.  The
/// variable names must be pairwise distinct.
pub proof fn lemma_recorded_shape_matches_default(
    vars: Seq<VariableModel>,
    answers: Seq<ValueModel>,
    i: int,
)
    requires
        spec_names_distinct(vars),
        0 <= i < vars.len(),
        spec_resolve(vars, answers).contains_key(vars[i].name),
    ensures
        spec_same_shape(spec_resolve(vars, answers)[vars[i].name], vars[i].default),
{
    lemma_shape_from(vars, answers, Map::empty(), i);
}

} // verus!
