//! The cleanup pass: after the tree is materialised, every rule whose
//! trigger variable was collected with the rule's value has its path
//! templates rendered and the resulting output paths deleted.  The pass is
//! planned here as the list of relative paths to delete, in rule order;
//! deleting them — where absence is a harmless no-op — is the caller's
//! business.

use vstd::prelude::*;
use crate::context::AnswerContext;
use crate::definition::{CleanupRuleModel, TemplateDefinition};
use crate::errors::{ErrorModel, GenError};
use crate::outside::rendered;
use crate::render::TemplateRenderer;
use crate::text::spec_texts;
use crate::values::{ValueModel, value_eq};

verus! {

/// Whether a rule fires: its variable was collected, with exactly the
/// rule's value.  An absent variable never fires a rule.
pub open spec fn spec_rule_triggered(
    rule: CleanupRuleModel,
    vars: Map<Seq<char>, ValueModel>,
) -> bool {
    vars.contains_key(rule.name) && vars[rule.name] == rule.value
}

/// Every path template of a rule, rendered in order; a rejected template
/// aborts with a render error carrying no path, since the template is not
/// tied to a walked file.
pub open spec fn spec_render_paths(
    paths: Seq<Seq<char>>,
    vars: Map<Seq<char>, ValueModel>,
) -> Result<Seq<Seq<char>>, ErrorModel>
    decreases paths.len(),
{
    if paths.len() == 0 {
        Ok(Seq::empty())
    } else {
        match rendered(paths.first(), vars) {
            None => Err(ErrorModel::Render { path: None }),
            Some(p) => match spec_render_paths(paths.drop_first(), vars) {
                Err(e) => Err(e),
                Ok(rest) => Ok(seq![p] + rest),
            },
        }
    }
}

/// The paths the cleanup pass deletes: those of the fired rules, in rule
/// order, each rendered against the collected answers.
pub open spec fn spec_cleanup(
    rules: Seq<CleanupRuleModel>,
    vars: Map<Seq<char>, ValueModel>,
) -> Result<Seq<Seq<char>>, ErrorModel>
    decreases rules.len(),
{
    if rules.len() == 0 {
        Ok(Seq::empty())
    } else {
        let r0 = rules.first();
        if !spec_rule_triggered(r0, vars) {
            spec_cleanup(rules.drop_first(), vars)
        } else {
            match spec_render_paths(r0.paths, vars) {
                Err(e) => Err(e),
                Ok(ps) => match spec_cleanup(rules.drop_first(), vars) {
                    Err(e) => Err(e),
                    Ok(rest) => Ok(ps + rest),
                },
            }
        }
    }
}

/// Render one rule's path templates in order.
fn render_rule_paths(paths: &Vec<String>, renderer: &TemplateRenderer) -> (r: Result<
    Vec<String>,
    GenError,
>)
    ensures
        (match r {
            Ok(ps) => spec_render_paths(spec_texts(paths@), renderer.bindings()) == Ok::<
                Seq<Seq<char>>,
                ErrorModel,
            >(spec_texts(ps@)),
            Err(e) => spec_render_paths(spec_texts(paths@), renderer.bindings()) == Err::<
                Seq<Seq<char>>,
                ErrorModel,
            >(e@),
        }),
{
    let ghost pm = spec_texts(paths@);
    let ghost vars = renderer.bindings();
    let mut out: Vec<String> = Vec::new();
    proof {
        assert(pm.skip(0) =~= pm);
        match spec_render_paths(pm, vars) {
            Ok(o) => {
                assert(Seq::<Seq<char>>::empty() + o =~= o);
            },
            Err(_) => {},
        }
    }
    let n = paths.len();
    let mut i: usize = 0;
    while i < n
        invariant
            i <= n,
            n == paths@.len(),
            pm == spec_texts(paths@),
            pm.len() == n,
            vars == renderer.bindings(),
            (match spec_render_paths(pm.skip(i as int), vars) {
                Ok(rest) => spec_render_paths(pm, vars) == Ok::<Seq<Seq<char>>, ErrorModel>(
                    spec_texts(out@) + rest,
                ),
                Err(e) => spec_render_paths(pm, vars) == Err::<Seq<Seq<char>>, ErrorModel>(e),
            }),
        decreases n - i,
    {
        proof {
            assert(pm.skip(i as int).first() == pm[i as int]);
            assert(pm.skip(i as int).drop_first() =~= pm.skip(i as int + 1));
            assert(pm[i as int] == paths@[i as int]@);
        }
        match renderer.render(paths[i].as_str()) {
            Some(p) => {
                let ghost old_out = out@;
                let ghost rp = p@;
                out.push(p);
                proof {
                    assert(Some(rp) == rendered(pm[i as int], vars));
                    assert(spec_texts(out@) =~= spec_texts(old_out).push(rp));
                    match spec_render_paths(pm.skip(i as int + 1), vars) {
                        Ok(rest) => {
                            assert(spec_texts(old_out) + (seq![rp] + rest) =~= spec_texts(out@)
                                + rest);
                        },
                        Err(_) => {},
                    }
                }
            },
            None => {
                return Err(GenError::Render { path: None });
            },
        }
        i = i + 1;
    }
    proof {
        assert(pm.skip(n as int) =~= Seq::<Seq<char>>::empty());
        assert(spec_texts(out@) + Seq::<Seq<char>>::empty() =~= spec_texts(out@));
    }
    Ok(out)
}

/// Plan the cleanup pass: the relative output paths to delete, in rule
/// order, for the rules the collected answers fire.  The plan is a
/// function of the definition and the answers alone, so running it again
/// over the same answers deletes nothing new.
pub fn plan_cleanup(def: &TemplateDefinition, ctx: &AnswerContext) -> (r: Result<
    Vec<String>,
    GenError,
>)
    ensures
        (match r {
            Ok(ps) => spec_cleanup(def@.cleanup, ctx@) == Ok::<Seq<Seq<char>>, ErrorModel>(
                spec_texts(ps@),
            ),
            Err(e) => spec_cleanup(def@.cleanup, ctx@) == Err::<Seq<Seq<char>>, ErrorModel>(e@),
        }),
{
    let renderer = TemplateRenderer::from_context(ctx);
    let ghost rm = def@.cleanup;
    let ghost vars = ctx@;
    let mut out: Vec<String> = Vec::new();
    proof {
        assert(rm.skip(0) =~= rm);
        match spec_cleanup(rm, vars) {
            Ok(o) => {
                assert(Seq::<Seq<char>>::empty() + o =~= o);
            },
            Err(_) => {},
        }
    }
    let n = def.cleanup.len();
    let mut i: usize = 0;
    while i < n
        invariant
            i <= n,
            n == def.cleanup@.len(),
            rm == def@.cleanup,
            rm.len() == n,
            vars == ctx@,
            renderer.bindings() == ctx@,
            (match spec_cleanup(rm.skip(i as int), vars) {
                Ok(rest) => spec_cleanup(rm, vars) == Ok::<Seq<Seq<char>>, ErrorModel>(
                    spec_texts(out@) + rest,
                ),
                Err(e) => spec_cleanup(rm, vars) == Err::<Seq<Seq<char>>, ErrorModel>(e),
            }),
        decreases n - i,
    {
        proof {
            assert(rm.skip(i as int).first() == rm[i as int]);
            assert(rm.skip(i as int).drop_first() =~= rm.skip(i as int + 1));
            assert(rm[i as int] == def.cleanup@[i as int]@);
        }
        let rule = &def.cleanup[i];
        let fired = match ctx.get(rule.name.as_str()) {
            Some(v) => value_eq(v, &rule.value),
            None => false,
        };
        if fired {
            match render_rule_paths(&rule.paths, &renderer) {
                Ok(ps) => {
                    let ghost old_out = out@;
                    let m = ps.len();
                    let mut k: usize = 0;
                    while k < m
                        invariant
                            k <= m,
                            m == ps@.len(),
                            out@.len() == old_out.len() + k,
                            spec_texts(out@) =~= spec_texts(old_out) + spec_texts(ps@).take(
                                k as int,
                            ),
                        decreases m - k,
                    {
                        let ghost before = out@;
                        out.push(ps[k].clone());
                        proof {
                            assert(spec_texts(out@) =~= spec_texts(before).push(ps@[k as int]@));
                            assert(spec_texts(ps@).take(k as int + 1) =~= spec_texts(ps@).take(
                                k as int,
                            ).push(spec_texts(ps@)[k as int]));
                        }
                        k = k + 1;
                    }
                    proof {
                        assert(spec_texts(ps@).take(m as int) =~= spec_texts(ps@));
                        match spec_cleanup(rm.skip(i as int + 1), vars) {
                            Ok(rest) => {
                                assert(spec_texts(old_out) + (spec_texts(ps@) + rest) =~= spec_texts(
                                    out@,
                                ) + rest);
                            },
                            Err(_) => {},
                        }
                    }
                },
                Err(e) => {
                    return Err(e);
                },
            }
        }
        i = i + 1;
    }
    proof {
        assert(rm.skip(n as int) =~= Seq::<CleanupRuleModel>::empty());
        assert(spec_texts(out@) + Seq::<Seq<char>>::empty() =~= spec_texts(out@));
    }
    Ok(out)
}

/// Law: a rule whose trigger variable was collected with a different
/// value — or not collected at all — contributes no path: the cleanup
/// plan is the plan without that rule, so none of its paths is touched.
pub proof fn lemma_untriggered_rule_inert(
    rules: Seq<CleanupRuleModel>,
    vars: Map<Seq<char>, ValueModel>,
    i: int,
)
    requires
        0 <= i < rules.len(),
        !spec_rule_triggered(rules[i], vars),
    ensures
        spec_cleanup(rules, vars) == spec_cleanup(rules.remove(i), vars),
    decreases rules.len(),
{
    if i == 0 {
        assert(rules.remove(0) =~= rules.drop_first());
    } else {
        let tail = rules.drop_first();
        assert(tail[i - 1] == rules[i]);
        lemma_untriggered_rule_inert(tail, vars, i - 1);
        assert(rules.remove(i).first() == rules.first());
        assert(rules.remove(i).drop_first() =~= tail.remove(i - 1));
    }
}

} // verus!
