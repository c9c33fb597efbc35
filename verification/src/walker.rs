//! The render walker: given the entries of a template tree in pre-order,
//! it decides for every entry whether it is skipped, materialised as a
//! directory, copied byte for byte, or rendered, and with which destination
//! path.  The walker is pure: executing the resulting operations against a
//! filesystem is the caller's business.

use vstd::prelude::*;
use vstd::utf8::{decode_utf8, valid_utf8};
use crate::context::AnswerContext;
use crate::definition::{DefinitionModel, TemplateDefinition};
use crate::errors::{ErrorModel, GenError};
use crate::outside::{
    decode_text, glob_accepts, glob_compile, glob_match, glob_pattern_matches, is_literal,
    pattern_source, rendered,
};
use crate::render::TemplateRenderer;
use crate::text::{spec_texts, str_has_prefix};
use crate::values::ValueModel;

verus! {

/// Ghost meaning of a [`TemplateEntry`].
pub struct EntryModel {
    pub rel: Seq<char>,
    pub is_dir: bool,
    pub content: Seq<u8>,
    pub is_binary: bool,
}

/// One entry of the template tree, as the walk hands it to the planner:
/// its path relative to the template root, whether it is a directory, its
/// raw bytes (empty for a directory), and the binary-detection verdict for
/// those bytes.
#[derive(Debug)]
pub struct TemplateEntry {
    pub rel_path: String,
    pub is_dir: bool,
    pub content: Vec<u8>,
    pub is_binary: bool,
}

impl View for TemplateEntry {
    type V = EntryModel;

    open spec fn view(&self) -> EntryModel {
        EntryModel {
            rel: self.rel_path@,
            is_dir: self.is_dir,
            content: self.content@,
            is_binary: self.is_binary,
        }
    }
}

/// Ghost meaning of an [`OutputOp`].
pub enum OpModel {
    MakeDir { dest: Seq<char> },
    CopyBytes { dest: Seq<char>, content: Seq<u8> },
    WriteText { dest: Seq<char>, content: Seq<char> },
}

/// One materialisation step of the output tree, with every path relative
/// to the output root: create a directory, write bytes verbatim, or write
/// rendered text.
#[derive(Debug)]
pub enum OutputOp {
    MakeDir { dest: String },
    CopyBytes { dest: String, content: Vec<u8> },
    WriteText { dest: String, content: String },
}

impl View for OutputOp {
    type V = OpModel;

    open spec fn view(&self) -> OpModel {
        match self {
            OutputOp::MakeDir { dest } => OpModel::MakeDir { dest: dest@ },
            OutputOp::CopyBytes { dest, content } => OpModel::CopyBytes {
                dest: dest@,
                content: content@,
            },
            OutputOp::WriteText { dest, content } => OpModel::WriteText {
                dest: dest@,
                content: content@,
            },
        }
    }
}

/// The destination path an operation writes to.
pub open spec fn spec_op_dest(o: OpModel) -> Seq<char> {
    match o {
        OpModel::MakeDir { dest } => dest,
        OpModel::CopyBytes { dest, .. } => dest,
        OpModel::WriteText { dest, .. } => dest,
    }
}

/// Ghost meaning of a sequence of operations.
pub open spec fn spec_ops(s: Seq<OutputOp>) -> Seq<OpModel> {
    s.map_values(|o: OutputOp| o@)
}

/// Ghost meaning of a sequence of entries.
pub open spec fn spec_entries(s: Seq<TemplateEntry>) -> Seq<EntryModel> {
    s.map_values(|e: TemplateEntry| e@)
}

/// An entry is left out when its relative path equals, or continues, an
/// `ignore` entry: an ignored directory thereby takes everything beneath
/// it along, since the descendants' paths continue the directory's.
pub open spec fn spec_ignored(rel: Seq<char>, ignore: Seq<Seq<char>>) -> bool {
    exists|j: int| 0 <= j < ignore.len() && (#[trigger] ignore[j]).is_prefix_of(rel)
}

/// Whether a destination path is exempt from rendering by one of the
/// `copy_without_render` patterns.
pub open spec fn spec_copy_matched(dest: Seq<char>, pats: Seq<Seq<char>>) -> bool {
    exists|j: int| 0 <= j < pats.len() && #[trigger] glob_match(pats[j], dest)
}

/// Whether the glob compiler accepts every pattern of the list.
pub open spec fn spec_globs_ok(pats: Seq<Seq<char>>) -> bool {
    forall|j: int| 0 <= j < pats.len() ==> glob_accepts(#[trigger] pats[j])
}

/// What becomes of one entry: nothing when it is ignored; otherwise its
/// relative path is rendered into a destination, a directory is created, a
/// binary or pattern-exempt file is copied byte for byte, and anything else
/// is decoded as text and rendered.  A rejected path or content template
/// aborts with the entry's relative path; so does content that reaches the
/// renderer without being valid text.
pub open spec fn spec_entry_plan(
    e: EntryModel,
    vars: Map<Seq<char>, ValueModel>,
    ignore: Seq<Seq<char>>,
    pats: Seq<Seq<char>>,
) -> Result<Option<OpModel>, ErrorModel> {
    if spec_ignored(e.rel, ignore) {
        Ok(None)
    } else {
        match rendered(e.rel, vars) {
            None => Err(ErrorModel::Render { path: Some(e.rel) }),
            Some(dest) => if e.is_dir {
                Ok(Some(OpModel::MakeDir { dest }))
            } else if e.is_binary || spec_copy_matched(dest, pats) {
                Ok(Some(OpModel::CopyBytes { dest, content: e.content }))
            } else if !valid_utf8(e.content) {
                Err(ErrorModel::BinaryDecode { path: e.rel })
            } else {
                match rendered(decode_utf8(e.content), vars) {
                    None => Err(ErrorModel::Render { path: Some(e.rel) }),
                    Some(text) => Ok(Some(OpModel::WriteText { dest, content: text })),
                }
            },
        }
    }
}

/// The operations for a whole entry list, in entry order; the first entry
/// that fails aborts the plan.
pub open spec fn spec_plan(
    entries: Seq<EntryModel>,
    vars: Map<Seq<char>, ValueModel>,
    ignore: Seq<Seq<char>>,
    pats: Seq<Seq<char>>,
) -> Result<Seq<OpModel>, ErrorModel>
    decreases entries.len(),
{
    if entries.len() == 0 {
        Ok(Seq::empty())
    } else {
        match spec_entry_plan(entries.first(), vars, ignore, pats) {
            Err(e) => Err(e),
            Ok(step) => match spec_plan(entries.drop_first(), vars, ignore, pats) {
                Err(e) => Err(e),
                Ok(rest) => match step {
                    Some(op) => Ok(seq![op] + rest),
                    None => Ok(rest),
                },
            },
        }
    }
}

/// The whole generation plan for a definition: the exemption patterns must
/// all compile, then every entry is planned in order.
pub open spec fn spec_generate(
    entries: Seq<EntryModel>,
    vars: Map<Seq<char>, ValueModel>,
    d: DefinitionModel,
) -> Result<Seq<OpModel>, ErrorModel> {
    if !spec_globs_ok(d.copy_without_render) {
        Err(ErrorModel::InvalidDefinition)
    } else {
        spec_plan(entries, vars, d.ignore, d.copy_without_render)
    }
}

/// Decide whether a relative path is ignored by the definition.
pub fn is_ignored(rel: &str, ignore: &Vec<String>) -> (r: bool)
    ensures
        r == spec_ignored(rel@, spec_texts(ignore@)),
{
    let n = ignore.len();
    let mut i: usize = 0;
    while i < n
        invariant
            i <= n,
            n == ignore@.len(),
            forall|j: int| 0 <= j < i ==> !(#[trigger] spec_texts(ignore@)[j]).is_prefix_of(rel@),
        decreases n - i,
    {
        if str_has_prefix(rel, ignore[i].as_str()) {
            proof {
                assert(spec_texts(ignore@)[i as int] == ignore@[i as int]@);
            }
            return true;
        }
        proof {
            assert(spec_texts(ignore@)[i as int] == ignore@[i as int]@);
        }
        i = i + 1;
    }
    false
}

/// The `copy_without_render` patterns, compiled once per generation and
/// reused for every entry.
pub struct CompiledPatterns {
    pats: Vec<glob::Pattern>,
}

impl CompiledPatterns {
    /// The pattern strings the compiled patterns came from.
    pub closed spec fn sources(&self) -> Seq<Seq<char>> {
        self.pats@.map_values(|p: glob::Pattern| pattern_source(p))
    }

    /// Compile every pattern string; one the compiler rejects makes the
    /// whole definition invalid.
    pub fn compile(sources: &Vec<String>) -> (r: Result<CompiledPatterns, GenError>)
        ensures
            r is Ok <==> spec_globs_ok(spec_texts(sources@)),
            r matches Ok(cp) ==> cp.sources() == spec_texts(sources@),
            r matches Err(e) ==> e@ == ErrorModel::InvalidDefinition,
    {
        let n = sources.len();
        let mut pats: Vec<glob::Pattern> = Vec::new();
        let mut i: usize = 0;
        while i < n
            invariant
                i <= n,
                n == sources@.len(),
                pats@.len() == i,
                pats@.map_values(|p: glob::Pattern| pattern_source(p)) =~= spec_texts(
                    sources@,
                ).take(i as int),
                forall|j: int| 0 <= j < i ==> glob_accepts(#[trigger] spec_texts(sources@)[j]),
            decreases n - i,
        {
            proof {
                assert(spec_texts(sources@)[i as int] == sources@[i as int]@);
            }
            match glob_compile(sources[i].as_str()) {
                Ok(p) => {
                    pats.push(p);
                    proof {
                        let f = |q: glob::Pattern| pattern_source(q);
                        assert(pats@.map_values(f) =~= spec_texts(sources@).take(i as int + 1));
                    }
                },
                Err(_) => {
                    proof {
                        assert(!glob_accepts(spec_texts(sources@)[i as int]));
                    }
                    return Err(GenError::InvalidDefinition);
                },
            }
            i = i + 1;
        }
        proof {
            assert(spec_texts(sources@).take(n as int) =~= spec_texts(sources@));
        }
        Ok(CompiledPatterns { pats })
    }

    /// Whether any compiled pattern matches the destination path.
    pub fn matches_any(&self, dest: &str) -> (r: bool)
        ensures
            r == spec_copy_matched(dest@, self.sources()),
    {
        let n = self.pats.len();
        let mut i: usize = 0;
        while i < n
            invariant
                i <= n,
                n == self.pats@.len(),
                self.sources().len() == n,
                forall|j: int| 0 <= j < i ==> !glob_match(#[trigger] self.sources()[j], dest@),
            decreases n - i,
        {
            let m = glob_pattern_matches(&self.pats[i], dest);
            proof {
                assert(self.sources()[i as int] == pattern_source(self.pats@[i as int]));
            }
            if m {
                return true;
            }
            i = i + 1;
        }
        false
    }
}

/// A fresh copy of a byte vector.
fn clone_bytes(v: &Vec<u8>) -> (r: Vec<u8>)
    ensures
        r@ == v@,
{
    let n = v.len();
    let mut r: Vec<u8> = Vec::new();
    let mut i: usize = 0;
    while i < n
        invariant
            i <= n,
            n == v@.len(),
            r@ =~= v@.take(i as int),
        decreases n - i,
    {
        r.push(v[i]);
        proof {
            assert(r@ =~= v@.take(i as int + 1));
        }
        i = i + 1;
    }
    proof {
        assert(v@.take(n as int) =~= v@);
    }
    r
}

/// Plan one entry of the template tree.  Beyond following the planning
/// rule exactly, a destination path that holds no variable reference at
/// all comes out equal to the source path.
pub fn plan_entry(
    entry: &TemplateEntry,
    renderer: &TemplateRenderer,
    def: &TemplateDefinition,
    pats: &CompiledPatterns,
) -> (r: Result<Option<OutputOp>, GenError>)
    ensures
        (match r {
            Ok(Some(op)) => spec_entry_plan(entry@, renderer.bindings(), def@.ignore, pats.sources())
                == Ok::<Option<OpModel>, ErrorModel>(Some(op@)),
            Ok(None) => spec_entry_plan(entry@, renderer.bindings(), def@.ignore, pats.sources())
                == Ok::<Option<OpModel>, ErrorModel>(None),
            Err(e) => spec_entry_plan(entry@, renderer.bindings(), def@.ignore, pats.sources())
                == Err::<Option<OpModel>, ErrorModel>(e@),
        }),
        r matches Ok(o) ==> (o matches Some(op) ==> (is_literal(entry.rel_path@) ==> spec_op_dest(
            op@,
        ) == entry.rel_path@)),
{
    proof {
        assert(def@.ignore == spec_texts(def.ignore@));
    }
    if is_ignored(entry.rel_path.as_str(), &def.ignore) {
        return Ok(None);
    }
    let dest = match renderer.render(entry.rel_path.as_str()) {
        Some(d) => d,
        None => {
            return Err(GenError::Render { path: Some(entry.rel_path.clone()) });
        },
    };
    if entry.is_dir {
        return Ok(Some(OutputOp::MakeDir { dest }));
    }
    if entry.is_binary || pats.matches_any(dest.as_str()) {
        let content = clone_bytes(&entry.content);
        return Ok(Some(OutputOp::CopyBytes { dest, content }));
    }
    let text = match decode_text(entry.content.as_slice()) {
        Some(t) => t,
        None => {
            return Err(GenError::BinaryDecode { path: entry.rel_path.clone() });
        },
    };
    match renderer.render(text) {
        Some(body) => Ok(Some(OutputOp::WriteText { dest, content: body })),
        None => Err(GenError::Render { path: Some(entry.rel_path.clone()) }),
    }
}

/// Plan the whole output tree for a definition and a resolved context:
/// compile the exemption patterns once, then plan every entry in order.
/// Entries must come in pre-order, parents first; the plan keeps their
/// order, so every directory is created before anything beneath it is
/// written.
pub fn plan_tree(
    def: &TemplateDefinition,
    ctx: &AnswerContext,
    entries: &Vec<TemplateEntry>,
) -> (r: Result<Vec<OutputOp>, GenError>)
    ensures
        (match r {
            Ok(ops) => spec_generate(spec_entries(entries@), ctx@, def@) == Ok::<
                Seq<OpModel>,
                ErrorModel,
            >(spec_ops(ops@)),
            Err(e) => spec_generate(spec_entries(entries@), ctx@, def@) == Err::<
                Seq<OpModel>,
                ErrorModel,
            >(e@),
        }),
{
    proof {
        assert(def@.copy_without_render == spec_texts(def.copy_without_render@));
    }
    let pats = match CompiledPatterns::compile(&def.copy_without_render) {
        Ok(p) => p,
        Err(e) => {
            return Err(e);
        },
    };
    let renderer = TemplateRenderer::from_context(ctx);
    let ghost em = spec_entries(entries@);
    let ghost vars = ctx@;
    let ghost ign = def@.ignore;
    let ghost ps = pats.sources();
    let mut ops: Vec<OutputOp> = Vec::new();
    proof {
        assert(em.skip(0) =~= em);
        match spec_plan(em, vars, ign, ps) {
            Ok(o) => {
                assert(Seq::<OpModel>::empty() + o =~= o);
            },
            Err(_) => {},
        }
    }
    let n = entries.len();
    let mut i: usize = 0;
    while i < n
        invariant
            i <= n,
            n == entries@.len(),
            em == spec_entries(entries@),
            em.len() == n,
            vars == ctx@,
            ign == def@.ignore,
            ps == pats.sources(),
            ps == def@.copy_without_render,
            spec_globs_ok(def@.copy_without_render),
            renderer.bindings() == ctx@,
            (match spec_plan(em.skip(i as int), vars, ign, ps) {
                Ok(rest) => spec_plan(em, vars, ign, ps) == Ok::<Seq<OpModel>, ErrorModel>(
                    spec_ops(ops@) + rest,
                ),
                Err(e) => spec_plan(em, vars, ign, ps) == Err::<Seq<OpModel>, ErrorModel>(e),
            }),
        decreases n - i,
    {
        proof {
            assert(em.skip(i as int).first() == em[i as int]);
            assert(em.skip(i as int).drop_first() =~= em.skip(i as int + 1));
            assert(em[i as int] == entries@[i as int]@);
        }
        match plan_entry(&entries[i], &renderer, def, &pats) {
            Err(e) => {
                return Err(e);
            },
            Ok(None) => {},
            Ok(Some(op)) => {
                let ghost old_ops = ops@;
                ops.push(op);
                proof {
                    assert(spec_ops(ops@) =~= spec_ops(old_ops).push(op@));
                    match spec_plan(em.skip(i as int + 1), vars, ign, ps) {
                        Ok(rest) => {
                            assert(spec_ops(old_ops) + (seq![op@] + rest) =~= spec_ops(ops@)
                                + rest);
                        },
                        Err(_) => {},
                    }
                }
            },
        }
        i = i + 1;
    }
    proof {
        assert(em.skip(n as int) =~= Seq::<EntryModel>::empty());
        assert(spec_ops(ops@) + Seq::<OpModel>::empty() =~= spec_ops(ops@));
    }
    Ok(ops)
}

/// Law: an ignored entry contributes nothing to the plan — planning a
/// list with the entry is planning the list without it, so no output path
/// is ever created for it.
pub proof fn lemma_ignored_entry_contributes_nothing(
    entries: Seq<EntryModel>,
    vars: Map<Seq<char>, ValueModel>,
    ignore: Seq<Seq<char>>,
    pats: Seq<Seq<char>>,
    i: int,
)
    requires
        0 <= i < entries.len(),
        spec_ignored(entries[i].rel, ignore),
    ensures
        spec_plan(entries, vars, ignore, pats) == spec_plan(entries.remove(i), vars, ignore, pats),
    decreases entries.len(),
{
    if i == 0 {
        assert(entries.remove(0) =~= entries.drop_first());
        assert(spec_entry_plan(entries.first(), vars, ignore, pats) == Ok::<
            Option<OpModel>,
            ErrorModel,
        >(None));
    } else {
        let tail = entries.drop_first();
        assert(tail[i - 1] == entries[i]);
        lemma_ignored_entry_contributes_nothing(tail, vars, ignore, pats, i - 1);
        assert(entries.remove(i).first() == entries.first());
        assert(entries.remove(i).drop_first() =~= tail.remove(i - 1));
    }
}

/// Law: everything beneath an ignored directory is ignored with it — a
/// path that continues an ignored path is itself ignored.
pub proof fn lemma_ignored_prefix_extends(
    shorter: Seq<char>,
    longer: Seq<char>,
    ignore: Seq<Seq<char>>,
)
    requires
        spec_ignored(shorter, ignore),
        shorter.is_prefix_of(longer),
    ensures
        spec_ignored(longer, ignore),
{
    let j = choose|j: int| 0 <= j < ignore.len() && (#[trigger] ignore[j]).is_prefix_of(shorter);
    assert(ignore[j] =~= longer.subrange(0, ignore[j].len() as int)) by {
        assert forall|k: int| 0 <= k < ignore[j].len() implies ignore[j][k] == longer[k] by {
            assert(ignore[j][k] == shorter.subrange(0, ignore[j].len() as int)[k]);
            assert(shorter[k] == longer.subrange(0, shorter.len() as int)[k]);
        }
    }
}

/// Law: a file whose bytes were classified as binary, or whose
/// destination a `copy_without_render` pattern matches, is planned as a
/// byte-for-byte copy of its input.
pub proof fn lemma_exempt_file_copied_verbatim(
    e: EntryModel,
    vars: Map<Seq<char>, ValueModel>,
    ignore: Seq<Seq<char>>,
    pats: Seq<Seq<char>>,
)
    requires
        !e.is_dir,
        !spec_ignored(e.rel, ignore),
        rendered(e.rel, vars) is Some,
        e.is_binary || spec_copy_matched(spec_rendered_path(e.rel, vars), pats),
    ensures
        spec_entry_plan(e, vars, ignore, pats) == Ok::<Option<OpModel>, ErrorModel>(
            Some(
                OpModel::CopyBytes {
                    dest: spec_rendered_path(e.rel, vars),
                    content: e.content,
                },
            ),
        ),
{
}

/// The destination a relative path renders to, where the engine accepts
/// it.
pub open spec fn spec_rendered_path(rel: Seq<char>, vars: Map<Seq<char>, ValueModel>) -> Seq<
    char,
> {
    match rendered(rel, vars) {
        Some(d) => d,
        None => rel,
    }
}

} // verus!
