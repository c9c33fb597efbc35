//! The rendering front: a template renderer built once from the resolved
//! answers, whose bindings provably mirror the answer context.

use vstd::prelude::*;
use crate::context::{AnswerContext, pairs_as_map};
use crate::outside::{
    is_literal, rendered, tera_context_insert_bool, tera_context_insert_integer,
    tera_context_insert_text, tera_context_new, tera_one_off, tera_vars,
};
use crate::values::{Value, ValueModel};

verus! {

/// A template renderer holding the collected answers as engine bindings.
pub struct TemplateRenderer {
    tc: tera::Context,
}

impl TemplateRenderer {
    /// The bindings the engine sees.
    pub closed spec fn bindings(&self) -> Map<Seq<char>, ValueModel> {
        tera_vars(self.tc)
    }

    /// Build a renderer whose bindings are exactly the answers collected
    /// in `ctx`.
    pub fn from_context(ctx: &AnswerContext) -> (r: TemplateRenderer)
        ensures
            r.bindings() == ctx@,
    {
        let mut tc = tera_context_new();
        let n = ctx.count();
        let mut i: usize = 0;
        while i < n
            invariant
                i <= n,
                n == ctx.pairs().len(),
                tera_vars(tc) == pairs_as_map(ctx.pairs().take(i as int)),
            decreases n - i,
        {
            let pair = ctx.pair_at(i);
            match &pair.1 {
                Value::Boolean(b) => tera_context_insert_bool(&mut tc, pair.0.as_str(), *b),
                Value::Text(s) => tera_context_insert_text(&mut tc, pair.0.as_str(), s.as_str()),
                Value::Integer(x) => tera_context_insert_integer(&mut tc, pair.0.as_str(), *x),
            }
            proof {
                let ps = ctx.pairs();
                assert(ps.take(i as int + 1).drop_last() =~= ps.take(i as int));
                assert(ps.take(i as int + 1).last() == ps[i as int]);
            }
            i = i + 1;
        }
        proof {
            assert(ctx.pairs().take(n as int) =~= ctx.pairs());
            ctx.lemma_view_is_pairs();
        }
        TemplateRenderer { tc }
    }

    /// Render one template string against the bindings.  `None` reports
    /// that the engine rejected the template; a template with no brace at
    /// all comes back unchanged.
    pub fn render(&self, tpl: &str) -> (r: Option<String>)
        ensures
            r is Some <==> rendered(tpl@, self.bindings()) is Some,
            r matches Some(s) ==> Some(s@) == rendered(tpl@, self.bindings()),
            r is Some || !is_literal(tpl@),
            r matches Some(s) ==> (is_literal(tpl@) ==> s@ == tpl@),
    {
        match tera_one_off(tpl, &self.tc) {
            Ok(s) => Some(s),
            Err(_) => None,
        }
    }
}

} // verus!
