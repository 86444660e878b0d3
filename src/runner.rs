use vstd::prelude::*;
use crate::cache::{Curve, Definition, DefinitionCache, DefinitionKind, IntoCfg, IntoSsa};
use crate::errors::AnalysisError;
use crate::files::{FileLibrary, bytes_of, is_valid_span};
use crate::report::{FileLocation, Report, ReportCollection, concat3};

verus! {

/// Where progress messages and the diagnostics of each definition go.
pub trait ReportWriter {
    /// The messages written so far.
    spec fn messages(&self) -> Vec<String>;

    /// The diagnostics written so far, one collection per call.
    spec fn written(&self) -> Vec<ReportCollection>;

    fn write_message(&mut self, message: &str)
        ensures
            final(self).messages()@.len() == old(self).messages()@.len() + 1,
            final(self).messages()@.drop_last() == old(self).messages()@,
            final(self).messages()@.last()@ == message@,
            final(self).written() == old(self).written(),
    ;

    fn write_reports(&mut self, reports: &ReportCollection, file_library: &FileLibrary)
        ensures
            final(self).written()@ == old(self).written()@.push(*reports),
            final(self).messages() == old(self).messages(),
    ;
}

/// An analysis pass: reads a graph, may look up other definitions through
/// the runner, and returns its diagnostics. It may lower other definitions,
/// but leaves the definitions, the source files and the curve as they are.
pub trait AnalysisPass<D, C> {
    /// The diagnostics that the pass finds in `cfg` when run on `runner`.
    spec fn findings(&self, runner: &AnalysisRunner<D, C>, cfg: &C) -> ReportCollection;

    fn run(&self, runner: &mut AnalysisRunner<D, C>, cfg: &C) -> (r: ReportCollection)
        ensures
            r@ == self.findings(old(runner), cfg)@,
            AnalysisRunner::same_definitions(old(runner), final(runner)),
    ;
}

/// The findings of the first `n` passes, in pass order, the `i`-th pass run
/// on the runner `states[i]`.
pub open spec fn findings_of<D, C, P: AnalysisPass<D, C>>(
    passes: Seq<P>,
    states: Seq<AnalysisRunner<D, C>>,
    cfg: &C,
    n: int,
) -> Seq<Report>
    decreases n,
{
    if n <= 0 {
        Seq::empty()
    } else {
        findings_of(passes, states, cfg, n - 1) + passes[n - 1].findings(&states[n - 1], cfg)@
    }
}

proof fn lemma_findings_prefix<D, C, P: AnalysisPass<D, C>>(
    passes: Seq<P>,
    a: Seq<AnalysisRunner<D, C>>,
    b: Seq<AnalysisRunner<D, C>>,
    cfg: &C,
    n: int,
)
    requires
        n <= a.len(),
        a.len() <= b.len(),
        forall|j: int| 0 <= j < a.len() ==> a[j] == b[j],
    ensures
        findings_of(passes, b, cfg, n) == findings_of(passes, a, cfg, n),
    decreases n,
{
    if n > 0 {
        lemma_findings_prefix(passes, a, b, cfg, n - 1);
    }
}

/// The other kind of definition.
pub open spec fn other_kind(kind: DefinitionKind) -> DefinitionKind {
    match kind {
        DefinitionKind::Template => DefinitionKind::Function,
        DefinitionKind::Function => DefinitionKind::Template,
    }
}

/// The names among `names` for which `keep` holds, in order.
pub open spec fn select_names(names: Seq<Seq<char>>, keep: spec_fn(Seq<char>) -> bool) -> Seq<Seq<char>>
    decreases names.len(),
{
    if names.len() == 0 {
        Seq::empty()
    } else {
        let prefix = select_names(names.drop_last(), keep);
        if keep(names.last()) {
            prefix.push(names.last())
        } else {
            prefix
        }
    }
}

/// Whether the definition `name` of `cache` is listed: always, or, when only
/// user input is asked for, if it comes from a file the user supplied.
pub open spec fn is_listed<D, C>(
    cache: &DefinitionCache<D, C>,
    files: &FileLibrary,
    user_input_only: bool,
    name: Seq<char>,
) -> bool {
    !user_input_only || files.spec_is_user_input(cache.definitions()[name].file_id)
}

/// The names of the definitions of `cache` that are listed, in order.
pub open spec fn listed_names<D, C>(cache: &DefinitionCache<D, C>, files: &FileLibrary, user_input_only: bool) -> Seq<Seq<char>> {
    select_names(cache.definition_names(), |n: Seq<char>| is_listed(cache, files, user_input_only, n))
}

/// The texts of a list of strings.
pub open spec fn texts(v: Seq<String>) -> Seq<Seq<char>> {
    v.map_values(|s: String| s@)
}

fn names_of<D, C>(cache: &DefinitionCache<D, C>, files: &FileLibrary, user_input_only: bool) -> (r: Vec<String>)
    ensures
        texts(r@) == listed_names(cache, files, user_input_only),
{
    let ghost keep = |n: Seq<char>| is_listed(cache, files, user_input_only, n);
    let ghost names = cache.definition_names();
    let mut r: Vec<String> = Vec::new();
    let mut i: usize = 0;
    assert(names.subrange(0, 0) =~= Seq::<Seq<char>>::empty());
    assert(texts(r@) =~= Seq::<Seq<char>>::empty());
    while i < cache.len()
        invariant
            i <= names.len(),
            names == cache.definition_names(),
            keep == (|n: Seq<char>| is_listed(cache, files, user_input_only, n)),
            texts(r@) == select_names(names.subrange(0, i as int), keep),
        decreases names.len() - i,
    {
        let file_id = cache.file_id_at(i);
        let name = cache.name_at(i);
        assert(names.subrange(0, i + 1).drop_last() =~= names.subrange(0, i as int));
        assert(names.subrange(0, i + 1).last() == names[i as int]);
        if !user_input_only || files.is_user_input(file_id) {
            let ghost before = r@;
            r.push(name.clone());
            assert(texts(r@) =~= texts(before).push(name@));
        }
        i = i + 1;
    }
    assert(names.subrange(0, names.len() as int) =~= names);
    r
}

/// Runs and caches the lowering and analysis of all templates and functions.
pub struct AnalysisRunner<D, C> {
    curve: Curve,
    libraries: Vec<String>,
    /// The source files of the run.
    file_library: FileLibrary,
    /// Template definitions, their graphs and their lowering diagnostics.
    templates: DefinitionCache<D, C>,
    /// Function definitions, their graphs and their lowering diagnostics.
    functions: DefinitionCache<D, C>,
}

impl<D, C> AnalysisRunner<D, C> {
    pub closed spec fn spec_curve(&self) -> Curve {
        self.curve
    }

    pub closed spec fn spec_libraries(&self) -> Seq<Seq<char>> {
        texts(self.libraries@)
    }

    pub closed spec fn spec_file_library(&self) -> FileLibrary {
        self.file_library
    }

    pub closed spec fn spec_templates(&self) -> DefinitionCache<D, C> {
        self.templates
    }

    pub closed spec fn spec_functions(&self) -> DefinitionCache<D, C> {
        self.functions
    }

    /// The cache of definitions of `kind`.
    pub open spec fn cache_of(&self, kind: DefinitionKind) -> DefinitionCache<D, C> {
        match kind {
            DefinitionKind::Template => self.spec_templates(),
            DefinitionKind::Function => self.spec_functions(),
        }
    }

    /// `a` and `b` hold the same definitions, source files and curve.
    pub open spec fn same_definitions(a: &Self, b: &Self) -> bool {
        &&& a.spec_templates().definitions() == b.spec_templates().definitions()
        &&& a.spec_templates().definition_names() == b.spec_templates().definition_names()
        &&& a.spec_functions().definitions() == b.spec_functions().definitions()
        &&& a.spec_functions().definition_names() == b.spec_functions().definition_names()
        &&& a.spec_file_library() == b.spec_file_library()
        &&& a.spec_curve() == b.spec_curve()
    }

    /// What analysing the definition `name` of `kind` with `passes` does to
    /// `pre`, giving `post`, the diagnostics `reports` and whether the graph
    /// was stored anew meanwhile. The graph and its stored diagnostics are
    /// taken; if that fails, the diagnostics stored for `name` are the
    /// result and nothing else changes. Otherwise the passes run in order,
    /// each on the runner as the passes before it left it, the result is the
    /// taken diagnostics followed by each pass's findings, and the graph is
    /// put back.
    pub open spec fn analysis_post<P: AnalysisPass<D, C>>(
        pre: &Self,
        post: &Self,
        kind: DefinitionKind,
        name: Seq<char>,
        passes: Seq<P>,
        reports: Seq<Report>,
        regenerated: bool,
    ) -> bool
        where
            D: IntoCfg<C>,
            C: IntoSsa,
    {
        &&& Self::same_definitions(pre, post)
        &&& exists|taken: DefinitionCache<D, C>, t: Result<(C, ReportCollection), AnalysisError>|
            {
                &&& #[trigger] DefinitionCache::take_post(&pre.cache_of(kind), &taken, kind, name, pre.spec_curve(), t)
                &&& t is Ok ==> exists|states: Seq<AnalysisRunner<D, C>>|
                    {
                        &&& states.len() == passes.len() + 1
                        &&& states[0].cache_of(kind) == taken
                        &&& states[0].cache_of(other_kind(kind)) == pre.cache_of(other_kind(kind))
                        &&& reports == t->Ok_0.1@ + #[trigger] findings_of(passes, states, &t->Ok_0.0, passes.len() as int)
                        &&& post.cache_of(kind).cfg_map() == states.last().cache_of(kind).cfg_map().insert(name, t->Ok_0.0)
                        &&& post.cache_of(kind).report_map() == states.last().cache_of(kind).report_map()
                        &&& regenerated == states.last().cache_of(kind).cfg_map().contains_key(name)
                    }
                &&& t is Err ==> {
                    &&& reports == taken.reports_of(name)
                    &&& !regenerated
                    &&& post.cache_of(kind).cfg_map() == pre.cache_of(kind).cfg_map()
                    &&& post.cache_of(kind).report_map() == taken.report_map().remove(name)
                    &&& post.cache_of(kind).failed_names() == taken.failed_names()
                    &&& post.cache_of(other_kind(kind)) == pre.cache_of(other_kind(kind))
                }
            }
    }

    pub fn new(curve: Curve) -> (r: Self)
        ensures
            r.spec_curve() == curve,
            r.spec_libraries() == Seq::<Seq<char>>::empty(),
            r.spec_file_library().sources().len() == 0,
            r.spec_templates().definition_names().len() == 0,
            r.spec_templates().definitions() == Map::<Seq<char>, Definition<D>>::empty(),
            r.spec_templates().cfg_map() == Map::<Seq<char>, C>::empty(),
            r.spec_templates().report_map() == Map::<Seq<char>, Vec<Report>>::empty(),
            r.spec_templates().failed_names() == Set::<Seq<char>>::empty(),
            r.spec_functions().definition_names().len() == 0,
            r.spec_functions().definitions() == Map::<Seq<char>, Definition<D>>::empty(),
            r.spec_functions().cfg_map() == Map::<Seq<char>, C>::empty(),
            r.spec_functions().report_map() == Map::<Seq<char>, Vec<Report>>::empty(),
            r.spec_functions().failed_names() == Set::<Seq<char>>::empty(),
    {
        let r = AnalysisRunner {
            curve,
            libraries: Vec::new(),
            file_library: FileLibrary::new(),
            templates: DefinitionCache::new(),
            functions: DefinitionCache::new(),
        };
        assert(r.spec_libraries() =~= Seq::<Seq<char>>::empty());
        r
    }

    /// Adds library search paths.
    pub fn with_libraries(self, libraries: &[String]) -> (r: Self)
        ensures
            r.spec_libraries() == self.spec_libraries() + texts(libraries@),
            r.spec_curve() == self.spec_curve(),
            r.spec_file_library() == self.spec_file_library(),
            r.spec_templates() == self.spec_templates(),
            r.spec_functions() == self.spec_functions(),
    {
        let mut r = self;
        let mut i: usize = 0;
        while i < libraries.len()
            invariant
                i <= libraries@.len(),
                r.spec_libraries() == self.spec_libraries() + texts(libraries@.subrange(0, i as int)),
                r.spec_curve() == self.spec_curve(),
                r.spec_file_library() == self.spec_file_library(),
                r.spec_templates() == self.spec_templates(),
                r.spec_functions() == self.spec_functions(),
            decreases libraries@.len() - i,
        {
            let ghost before = r.spec_libraries();
            let path = libraries[i].clone();
            r.libraries.push(path);
            assert(texts(libraries@.subrange(0, i + 1)) =~= texts(libraries@.subrange(0, i as int)).push(libraries@[i as int]@));
            assert(r.spec_libraries() =~= before.push(libraries@[i as int]@));
            i = i + 1;
        }
        assert(libraries@.subrange(0, libraries@.len() as int) =~= libraries@);
        r
    }

    /// Uses `file_library` as the run's source files.
    pub fn with_file_library(self, file_library: FileLibrary) -> (r: Self)
        ensures
            r.spec_file_library() == file_library,
            r.spec_curve() == self.spec_curve(),
            r.spec_libraries() == self.spec_libraries(),
            r.spec_templates() == self.spec_templates(),
            r.spec_functions() == self.spec_functions(),
    {
        let mut r = self;
        r.file_library = file_library;
        r
    }

    /// Adds the template `name`, defined by `ast` in file `file_id`.
    pub fn with_template(self, name: &str, file_id: usize, ast: D) -> (r: Self)
        ensures
            r.spec_templates().definitions() == self.spec_templates().definitions().insert(
                name@,
                Definition { file_id, ast },
            ),
            r.spec_templates().definition_names() == if self.spec_templates().definitions().contains_key(name@) {
                self.spec_templates().definition_names()
            } else {
                self.spec_templates().definition_names().push(name@)
            },
            r.spec_templates().cfg_map() == self.spec_templates().cfg_map(),
            r.spec_templates().report_map() == self.spec_templates().report_map(),
            r.spec_templates().failed_names() == self.spec_templates().failed_names(),
            r.spec_functions() == self.spec_functions(),
            r.spec_curve() == self.spec_curve(),
            r.spec_file_library() == self.spec_file_library(),
    {
        let mut r = self;
        r.templates.add_definition(name, Definition { file_id, ast });
        r
    }

    /// Adds the function `name`, defined by `ast` in file `file_id`.
    pub fn with_function(self, name: &str, file_id: usize, ast: D) -> (r: Self)
        ensures
            r.spec_functions().definitions() == self.spec_functions().definitions().insert(
                name@,
                Definition { file_id, ast },
            ),
            r.spec_functions().definition_names() == if self.spec_functions().definitions().contains_key(name@) {
                self.spec_functions().definition_names()
            } else {
                self.spec_functions().definition_names().push(name@)
            },
            r.spec_functions().cfg_map() == self.spec_functions().cfg_map(),
            r.spec_functions().report_map() == self.spec_functions().report_map(),
            r.spec_functions().failed_names() == self.spec_functions().failed_names(),
            r.spec_templates() == self.spec_templates(),
            r.spec_curve() == self.spec_curve(),
            r.spec_file_library() == self.spec_file_library(),
    {
        let mut r = self;
        r.functions.add_definition(name, Definition { file_id, ast });
        r
    }

    /// The library search paths.
    pub fn libraries(&self) -> (r: &Vec<String>)
        ensures
            texts(r@) == self.spec_libraries(),
    {
        &self.libraries
    }

    pub fn file_library(&self) -> (r: &FileLibrary)
        ensures
            *r == self.spec_file_library(),
    {
        &self.file_library
    }

    /// The names of all templates, or of those from user-supplied files.
    pub fn template_names(&self, user_input_only: bool) -> (r: Vec<String>)
        ensures
            texts(r@) == listed_names(&self.spec_templates(), &self.spec_file_library(), user_input_only),
            self.spec_templates().definition_names().no_duplicates(),
            forall|n: Seq<char>| self.spec_templates().definition_names().contains(n) <==> #[trigger] self.spec_templates().definitions().contains_key(n),
    {
        self.templates.len();
        names_of(&self.templates, &self.file_library, user_input_only)
    }

    /// The names of all functions, or of those from user-supplied files.
    pub fn function_names(&self, user_input_only: bool) -> (r: Vec<String>)
        ensures
            texts(r@) == listed_names(&self.spec_functions(), &self.spec_file_library(), user_input_only),
            self.spec_functions().definition_names().no_duplicates(),
            forall|n: Seq<char>| self.spec_functions().definition_names().contains(n) <==> #[trigger] self.spec_functions().definitions().contains_key(n),
    {
        self.functions.len();
        names_of(&self.functions, &self.file_library, user_input_only)
    }

    /// Whether a template called `name` is known; nothing is lowered.
    pub fn is_template(&self, name: &str) -> (r: bool)
        ensures
            r == self.spec_templates().definitions().contains_key(name@),
    {
        self.templates.contains(name)
    }

    /// Whether a function called `name` is known; nothing is lowered.
    pub fn is_function(&self, name: &str) -> (r: bool)
        ensures
            r == self.spec_functions().definitions().contains_key(name@),
    {
        self.functions.contains(name)
    }

    /// Whether the cache holds a graph for the template `name`.
    pub fn is_template_cached(&self, name: &str) -> (r: bool)
        ensures
            r == self.spec_templates().cfg_map().contains_key(name@),
    {
        self.templates.is_cached(name)
    }

    /// Whether the cache holds a graph for the function `name`.
    pub fn is_function_cached(&self, name: &str) -> (r: bool)
        ensures
            r == self.spec_functions().cfg_map().contains_key(name@),
    {
        self.functions.is_cached(name)
    }

    /// Puts the graph of the template `name` back; returns whether one was
    /// stored meanwhile, which this one then overwrites.
    pub fn replace_template(&mut self, name: &str, cfg: C) -> (r: bool)
        ensures
            DefinitionCache::replace_post(&old(self).spec_templates(), &final(self).spec_templates(), name@, cfg, r),
            final(self).spec_functions() == old(self).spec_functions(),
            final(self).spec_file_library() == old(self).spec_file_library(),
            final(self).spec_curve() == old(self).spec_curve(),
    {
        self.templates.replace(name, cfg)
    }

    /// Puts the graph of the function `name` back; returns whether one was
    /// stored meanwhile, which this one then overwrites.
    pub fn replace_function(&mut self, name: &str, cfg: C) -> (r: bool)
        ensures
            DefinitionCache::replace_post(&old(self).spec_functions(), &final(self).spec_functions(), name@, cfg, r),
            final(self).spec_templates() == old(self).spec_templates(),
            final(self).spec_file_library() == old(self).spec_file_library(),
            final(self).spec_curve() == old(self).spec_curve(),
    {
        self.functions.replace(name, cfg)
    }

    /// Lowering diagnostics of the template `name`, to be emitted when it is analysed.
    pub fn append_template_reports(&mut self, name: &str, reports: &mut ReportCollection)
        ensures
            final(self).spec_templates().reports_of(name@) == old(self).spec_templates().reports_of(name@)
                + old(reports)@,
            final(reports)@ == Seq::<Report>::empty(),
            final(self).spec_functions() == old(self).spec_functions(),
    {
        self.templates.append_reports(name, reports);
    }

    /// Takes the stored diagnostics of the template `name`.
    pub fn take_template_reports(&mut self, name: &str) -> (r: ReportCollection)
        ensures
            r@ == old(self).spec_templates().reports_of(name@),
            final(self).spec_templates().reports_of(name@) == Seq::<Report>::empty(),
            final(self).spec_templates().report_map() == old(self).spec_templates().report_map().remove(name@),
            final(self).spec_templates().cfg_map() == old(self).spec_templates().cfg_map(),
            final(self).spec_templates().failed_names() == old(self).spec_templates().failed_names(),
            final(self).spec_templates().definitions() == old(self).spec_templates().definitions(),
            final(self).spec_templates().definition_names() == old(self).spec_templates().definition_names(),
            final(self).spec_functions() == old(self).spec_functions(),
            final(self).spec_file_library() == old(self).spec_file_library(),
            final(self).spec_curve() == old(self).spec_curve(),
    {
        self.templates.take_reports(name)
    }

    /// Lowering diagnostics of the function `name`, to be emitted when it is analysed.
    pub fn append_function_reports(&mut self, name: &str, reports: &mut ReportCollection)
        ensures
            final(self).spec_functions().reports_of(name@) == old(self).spec_functions().reports_of(name@)
                + old(reports)@,
            final(reports)@ == Seq::<Report>::empty(),
            final(self).spec_templates() == old(self).spec_templates(),
    {
        self.functions.append_reports(name, reports);
    }

    /// Takes the stored diagnostics of the function `name`.
    pub fn take_function_reports(&mut self, name: &str) -> (r: ReportCollection)
        ensures
            r@ == old(self).spec_functions().reports_of(name@),
            final(self).spec_functions().reports_of(name@) == Seq::<Report>::empty(),
            final(self).spec_functions().report_map() == old(self).spec_functions().report_map().remove(name@),
            final(self).spec_functions().cfg_map() == old(self).spec_functions().cfg_map(),
            final(self).spec_functions().failed_names() == old(self).spec_functions().failed_names(),
            final(self).spec_functions().definitions() == old(self).spec_functions().definitions(),
            final(self).spec_functions().definition_names() == old(self).spec_functions().definition_names(),
            final(self).spec_templates() == old(self).spec_templates(),
            final(self).spec_file_library() == old(self).spec_file_library(),
            final(self).spec_curve() == old(self).spec_curve(),
    {
        self.functions.take_reports(name)
    }

    /// The source text that `file_location` spans in file `file_id`.
    pub fn underlying_str(&self, file_id: usize, file_location: &FileLocation) -> (r: Result<String, AnalysisError>)
        ensures
            file_id >= self.spec_file_library().sources().len() ==> r == Err::<String, AnalysisError>(
                AnalysisError::UnknownFile { file_id },
            ),
            file_id < self.spec_file_library().sources().len() ==> {
                let bytes = bytes_of(self.spec_file_library().sources()[file_id as int]);
                match r {
                    Ok(t) => is_valid_span(bytes, *file_location) && bytes_of(t@) == bytes.subrange(
                        file_location.start as int,
                        file_location.end as int,
                    ),
                    Err(e) => !is_valid_span(bytes, *file_location) && e == AnalysisError::InvalidLocation {
                        file_id,
                        file_location: *file_location,
                    },
                }
            },
    {
        self.file_library.source_text(file_id, file_location)
    }
}

impl<D: IntoCfg<C>, C: IntoSsa> AnalysisRunner<D, C> {
    /// Makes sure that a graph for the template `name` is cached, lowering
    /// it on first request.
    fn cache_template(&mut self, name: &str) -> (r: Result<(), AnalysisError>)
        ensures
            DefinitionCache::ensure_post(
                &old(self).spec_templates(),
                &final(self).spec_templates(),
                DefinitionKind::Template,
                name@,
                old(self).spec_curve(),
                r,
            ),
            r is Ok ==> final(self).spec_templates().cfg_map().contains_key(name@),
            r is Err ==> DefinitionCache::ensure_error(&old(self).spec_templates(), DefinitionKind::Template, name@, r->Err_0),
            final(self).spec_functions() == old(self).spec_functions(),
            final(self).spec_file_library() == old(self).spec_file_library(),
            final(self).spec_curve() == old(self).spec_curve(),
    {
        self.templates.ensure(DefinitionKind::Template, name, &self.curve)
    }

    /// Makes sure that a graph for the function `name` is cached, lowering
    /// it on first request.
    fn cache_function(&mut self, name: &str) -> (r: Result<(), AnalysisError>)
        ensures
            DefinitionCache::ensure_post(
                &old(self).spec_functions(),
                &final(self).spec_functions(),
                DefinitionKind::Function,
                name@,
                old(self).spec_curve(),
                r,
            ),
            r is Ok ==> final(self).spec_functions().cfg_map().contains_key(name@),
            r is Err ==> DefinitionCache::ensure_error(&old(self).spec_functions(), DefinitionKind::Function, name@, r->Err_0),
            final(self).spec_templates() == old(self).spec_templates(),
            final(self).spec_file_library() == old(self).spec_file_library(),
            final(self).spec_curve() == old(self).spec_curve(),
    {
        self.functions.ensure(DefinitionKind::Function, name, &self.curve)
    }

    /// The graph of the template `name`, lowered on first request.
    pub fn template(&mut self, name: &str) -> (r: Result<&C, AnalysisError>)
        ensures
            r is Ok ==> DefinitionCache::ensured(
                &old(self).spec_templates(),
                &final(self).spec_templates(),
                name@,
                old(self).spec_curve(),
            ),
            r is Err ==> DefinitionCache::ensure_post(
                &old(self).spec_templates(),
                &final(self).spec_templates(),
                DefinitionKind::Template,
                name@,
                old(self).spec_curve(),
                Err::<(), AnalysisError>(r->Err_0),
            ),
            r is Err ==> DefinitionCache::ensure_error(&old(self).spec_templates(), DefinitionKind::Template, name@, r->Err_0),
            r is Ok ==> final(self).spec_templates().cfg_map().contains_key(name@)
                && *r->Ok_0 == final(self).spec_templates().cfg_map()[name@],
            final(self).spec_functions() == old(self).spec_functions(),
            final(self).spec_file_library() == old(self).spec_file_library(),
            final(self).spec_curve() == old(self).spec_curve(),
    {
        let e = self.cache_template(name);
        proof {
            if e is Ok {
                DefinitionCache::lemma_ensured(&old(self).spec_templates(), &self.spec_templates(), DefinitionKind::Template, name@, old(self).spec_curve(), e);
            }
        }
        self.cached_template(name, e)
    }

    fn cached_template(&self, name: &str, e: Result<(), AnalysisError>) -> (r: Result<&C, AnalysisError>)
        requires
            e is Ok ==> self.spec_templates().cfg_map().contains_key(name@),
        ensures
            r is Ok <==> e is Ok,
            r is Err ==> r->Err_0 == e->Err_0,
            r is Ok ==> *r->Ok_0 == self.spec_templates().cfg_map()[name@],
    {
        match e {
            Err(x) => Err(x),
            Ok(()) => match self.templates.cached(name) {
                Some(cfg) => Ok(cfg),
                None => {
                    assert(false);
                    Err(AnalysisError::UnknownTemplate { name: name.to_owned() })
                },
            },
        }
    }

    /// Takes the graph of the template `name` out of the cache, lowering it
    /// first if needed, together with the diagnostics stored for it, which
    /// are thus handed out once. Put the graph back with `replace_template`.
    pub fn take_template(&mut self, name: &str) -> (r: Result<(C, ReportCollection), AnalysisError>)
        ensures
            DefinitionCache::take_post(
                &old(self).spec_templates(),
                &final(self).spec_templates(),
                DefinitionKind::Template,
                name@,
                old(self).spec_curve(),
                r,
            ),
            r is Ok ==> !final(self).spec_templates().cfg_map().contains_key(name@)
                && final(self).spec_templates().reports_of(name@) == Seq::<Report>::empty(),
            final(self).spec_templates().definitions() == old(self).spec_templates().definitions(),
            final(self).spec_templates().definition_names() == old(self).spec_templates().definition_names(),
            final(self).spec_functions() == old(self).spec_functions(),
            final(self).spec_file_library() == old(self).spec_file_library(),
            final(self).spec_curve() == old(self).spec_curve(),
    {
        self.templates.take(DefinitionKind::Template, name, &self.curve)
    }

    /// The graph of the function `name`, lowered on first request.
    pub fn function(&mut self, name: &str) -> (r: Result<&C, AnalysisError>)
        ensures
            r is Ok ==> DefinitionCache::ensured(
                &old(self).spec_functions(),
                &final(self).spec_functions(),
                name@,
                old(self).spec_curve(),
            ),
            r is Err ==> DefinitionCache::ensure_post(
                &old(self).spec_functions(),
                &final(self).spec_functions(),
                DefinitionKind::Function,
                name@,
                old(self).spec_curve(),
                Err::<(), AnalysisError>(r->Err_0),
            ),
            r is Err ==> DefinitionCache::ensure_error(&old(self).spec_functions(), DefinitionKind::Function, name@, r->Err_0),
            r is Ok ==> final(self).spec_functions().cfg_map().contains_key(name@)
                && *r->Ok_0 == final(self).spec_functions().cfg_map()[name@],
            final(self).spec_templates() == old(self).spec_templates(),
            final(self).spec_file_library() == old(self).spec_file_library(),
            final(self).spec_curve() == old(self).spec_curve(),
    {
        let e = self.cache_function(name);
        proof {
            if e is Ok {
                DefinitionCache::lemma_ensured(&old(self).spec_functions(), &self.spec_functions(), DefinitionKind::Function, name@, old(self).spec_curve(), e);
            }
        }
        self.cached_function(name, e)
    }

    fn cached_function(&self, name: &str, e: Result<(), AnalysisError>) -> (r: Result<&C, AnalysisError>)
        requires
            e is Ok ==> self.spec_functions().cfg_map().contains_key(name@),
        ensures
            r is Ok <==> e is Ok,
            r is Err ==> r->Err_0 == e->Err_0,
            r is Ok ==> *r->Ok_0 == self.spec_functions().cfg_map()[name@],
    {
        match e {
            Err(x) => Err(x),
            Ok(()) => match self.functions.cached(name) {
                Some(cfg) => Ok(cfg),
                None => {
                    assert(false);
                    Err(AnalysisError::UnknownFunction { name: name.to_owned() })
                },
            },
        }
    }

    /// Takes the graph of the function `name` out of the cache, lowering it
    /// first if needed, together with the diagnostics stored for it, which
    /// are thus handed out once. Put the graph back with `replace_function`.
    pub fn take_function(&mut self, name: &str) -> (r: Result<(C, ReportCollection), AnalysisError>)
        ensures
            DefinitionCache::take_post(
                &old(self).spec_functions(),
                &final(self).spec_functions(),
                DefinitionKind::Function,
                name@,
                old(self).spec_curve(),
                r,
            ),
            r is Ok ==> !final(self).spec_functions().cfg_map().contains_key(name@)
                && final(self).spec_functions().reports_of(name@) == Seq::<Report>::empty(),
            final(self).spec_functions().definitions() == old(self).spec_functions().definitions(),
            final(self).spec_functions().definition_names() == old(self).spec_functions().definition_names(),
            final(self).spec_templates() == old(self).spec_templates(),
            final(self).spec_file_library() == old(self).spec_file_library(),
            final(self).spec_curve() == old(self).spec_curve(),
    {
        self.functions.take(DefinitionKind::Function, name, &self.curve)
    }

    /// Runs `passes` in order over `cfg`, appending the findings of each to
    /// `reports`: each pass runs once, on the runner as the passes before it
    /// left it.
    pub fn run_passes<P: AnalysisPass<D, C>>(&mut self, passes: &Vec<P>, cfg: &C, reports: &mut ReportCollection)
        ensures
            Self::same_definitions(old(self), final(self)),
            exists|states: Seq<AnalysisRunner<D, C>>|
                {
                    &&& states.len() == passes@.len() + 1
                    &&& states[0] == *old(self)
                    &&& states.last() == *final(self)
                    &&& final(reports)@ == old(reports)@ + #[trigger] findings_of(passes@, states, cfg, passes@.len() as int)
                },
    {
        let ghost start = reports@;
        let ghost mut states: Seq<AnalysisRunner<D, C>> = seq![*self];
        let mut i: usize = 0;
        while i < passes.len()
            invariant
                i <= passes@.len(),
                states.len() == i + 1,
                states[0] == *old(self),
                states.last() == *self,
                Self::same_definitions(old(self), self),
                reports@ == start + findings_of(passes@, states, cfg, i as int),
            decreases passes@.len() - i,
        {
            let ghost before = states;
            let mut found = passes[i].run(self, cfg);
            reports.append(&mut found);
            proof {
                states = states.push(*self);
                lemma_findings_prefix(passes@, before, states, cfg, i as int);
                assert(findings_of(passes@, states, cfg, i + 1) == findings_of(passes@, states, cfg, i as int)
                    + passes@[i as int].findings(&states[i as int], cfg)@);
            }
            i = i + 1;
        }
        assert(findings_of(passes@, states, cfg, passes@.len() as int) == findings_of(passes@, states, cfg, i as int));
    }

    /// The diagnostics of the template `name`, and whether its graph was stored
    /// anew while it was being analysed. The graph is taken out with the
    /// diagnostics stored for `name` (those of its lowering), the passes run
    /// over it in order and append their output, and the graph is put back.
    /// When the take fails, the diagnostics stored for `name` (at the first
    /// failure, its report) are taken instead and no pass runs.
    pub fn template_reports<P: AnalysisPass<D, C>>(&mut self, name: &str, passes: &Vec<P>) -> (r: (ReportCollection, bool))
        ensures
            Self::analysis_post(old(self), final(self), DefinitionKind::Template, name@, passes@, r.0@, r.1),
    {
        // The graph is taken out so that the passes can borrow the runner
        // while it is being analysed. A pass that reaches this template again
        // lowers it anew and stores that graph; the replace below then
        // overwrites it.
        let taken = self.take_template(name);
        let ghost after_take = self.spec_templates();
        let ghost t = taken;
        match taken {
            Ok((cfg, mut reports)) => {
                let ghost lowered = reports@;
                let ghost before_passes = *self;
                self.run_passes(passes, &cfg, &mut reports);
                let ghost final_passes = *self;
                let ghost c = cfg;
                let regenerated = self.replace_template(name, cfg);
                proof {
                    let states = choose|states: Seq<AnalysisRunner<D, C>>|
                        {
                            &&& states.len() == passes@.len() + 1
                            &&& states[0] == before_passes
                            &&& states.last() == final_passes
                            &&& reports@ == lowered + #[trigger] findings_of(passes@, states, &c, passes@.len() as int)
                        };
                    assert(t->Ok_0.0 == c && t->Ok_0.1@ == lowered);
                    assert(states[0].cache_of(DefinitionKind::Template) == after_take);
                    assert(states[0].cache_of(other_kind(DefinitionKind::Template)) == old(self).cache_of(other_kind(DefinitionKind::Template)));
                    assert(self.cache_of(DefinitionKind::Template).cfg_map() == states.last().cache_of(DefinitionKind::Template).cfg_map().insert(name@, c));
                    assert(Self::same_definitions(old(self), self));
                    assert(t is Ok ==> exists|sts: Seq<AnalysisRunner<D, C>>|
                        {
                            &&& sts.len() == passes@.len() + 1
                            &&& sts[0].cache_of(DefinitionKind::Template) == after_take
                            &&& sts[0].cache_of(other_kind(DefinitionKind::Template)) == old(self).cache_of(other_kind(DefinitionKind::Template))
                            &&& reports@ == t->Ok_0.1@ + #[trigger] findings_of(passes@, sts, &t->Ok_0.0, passes@.len() as int)
                            &&& self.cache_of(DefinitionKind::Template).cfg_map() == sts.last().cache_of(DefinitionKind::Template).cfg_map().insert(name@, t->Ok_0.0)
                            &&& self.cache_of(DefinitionKind::Template).report_map() == sts.last().cache_of(DefinitionKind::Template).report_map()
                            &&& regenerated == sts.last().cache_of(DefinitionKind::Template).cfg_map().contains_key(name@)
                        });
                }
                assert(DefinitionCache::take_post(&old(self).spec_templates(), &after_take, DefinitionKind::Template, name@, old(self).spec_curve(), t));
                assert(DefinitionCache::take_post(&old(self).cache_of(DefinitionKind::Template), &after_take, DefinitionKind::Template, name@, old(self).spec_curve(), t));
                (reports, regenerated)
            },
            Err(_) => {
                let reports = self.take_template_reports(name);
                assert(DefinitionCache::take_post(&old(self).spec_templates(), &after_take, DefinitionKind::Template, name@, old(self).spec_curve(), t));
                assert(DefinitionCache::take_post(&old(self).cache_of(DefinitionKind::Template), &after_take, DefinitionKind::Template, name@, old(self).spec_curve(), t));
                proof {
                    DefinitionCache::lemma_take_failed(&old(self).spec_templates(), &after_take, DefinitionKind::Template, name@, old(self).spec_curve(), t);
                }
                (reports, false)
            },
        }
    }

    /// Writes a progress message, then the diagnostics of the template `name`.
    fn analyze_template<P: AnalysisPass<D, C>, W: ReportWriter>(
        &mut self,
        name: &str,
        passes: &Vec<P>,
        writer: &mut W,
    )
        ensures
            final(writer).messages()@.len() == old(writer).messages()@.len() + 1,
            final(writer).messages()@.drop_last() == old(writer).messages()@,
            final(writer).messages()@.last()@ == "analyzing template '"@ + name@ + "'"@,
            final(writer).written()@.len() == old(writer).written()@.len() + 1,
            final(writer).written()@.drop_last() == old(writer).written()@,
            exists|regenerated: bool|
                Self::analysis_post(
                    old(self),
                    final(self),
                    DefinitionKind::Template,
                    name@,
                    passes@,
                    final(writer).written()@.last()@,
                    regenerated,
                ),
    {
        writer.write_message(concat3("analyzing template '", name, "'").as_str());
        // Whether the graph was stored anew meanwhile is not written.
        let (reports, regenerated) = self.template_reports(name, passes);
        writer.write_reports(&reports, &self.file_library);
        assert(writer.written()@.last() == reports);
        assert(Self::analysis_post(old(self), self, DefinitionKind::Template, name@, passes@, writer.written()@.last()@, regenerated));
    }

    /// Analyses every template, or those from user-supplied files.
    pub fn analyze_templates<P: AnalysisPass<D, C>, W: ReportWriter>(
        &mut self,
        passes: &Vec<P>,
        writer: &mut W,
        user_input_only: bool,
    )
        ensures
            ({
                let names = listed_names(&old(self).spec_templates(), &old(self).spec_file_library(), user_input_only);
                let m = old(writer).messages()@.len();
                let w = old(writer).written()@.len();
                &&& final(writer).messages()@.len() == m + names.len()
                &&& final(writer).messages()@.subrange(0, m as int) == old(writer).messages()@
                &&& forall|i: int| 0 <= i < names.len() ==> #[trigger] final(writer).messages()@[m + i]@
                    == "analyzing template '"@ + names[i] + "'"@
                &&& final(writer).written()@.len() == w + names.len()
                &&& final(writer).written()@.subrange(0, w as int) == old(writer).written()@
            }),
    {
        let names = self.template_names(user_input_only);
        let ghost m = writer.messages()@.len();
        let ghost w = writer.written()@.len();
        let mut i: usize = 0;
        while i < names.len()
            invariant
                i <= names@.len(),
                texts(names@) == listed_names(&old(self).spec_templates(), &old(self).spec_file_library(), user_input_only),
                writer.messages()@.len() == m + i,
                writer.messages()@.subrange(0, m as int) == old(writer).messages()@,
                forall|j: int| 0 <= j < i ==> #[trigger] writer.messages()@[m + j]@
                    == "analyzing template '"@ + texts(names@)[j] + "'"@,
                writer.written()@.len() == w + i,
                writer.written()@.subrange(0, w as int) == old(writer).written()@,
                m == old(writer).messages()@.len(),
                w == old(writer).written()@.len(),
            decreases names@.len() - i,
        {
            let ghost before_m = writer.messages()@;
            let ghost before_w = writer.written()@;
            self.analyze_template(names[i].as_str(), passes, writer);
            proof {
                assert(writer.messages()@.subrange(0, m as int) =~= before_m.subrange(0, m as int));
                assert(writer.written()@.subrange(0, w as int) =~= before_w.subrange(0, w as int));
                assert forall|j: int| 0 <= j < i + 1 implies #[trigger] writer.messages()@[m + j]@
                    == "analyzing template '"@ + texts(names@)[j] + "'"@ by {
                    if j < i {
                        assert(writer.messages()@[m + j] == before_m[m + j]);
                    }
                }
            }
            i = i + 1;
        }
    }

    /// The diagnostics of the function `name`, and whether its graph was stored
    /// anew while it was being analysed. The graph is taken out with the
    /// diagnostics stored for `name` (those of its lowering), the passes run
    /// over it in order and append their output, and the graph is put back.
    /// When the take fails, the diagnostics stored for `name` (at the first
    /// failure, its report) are taken instead and no pass runs.
    pub fn function_reports<P: AnalysisPass<D, C>>(&mut self, name: &str, passes: &Vec<P>) -> (r: (ReportCollection, bool))
        ensures
            Self::analysis_post(old(self), final(self), DefinitionKind::Function, name@, passes@, r.0@, r.1),
    {
        // The graph is taken out so that the passes can borrow the runner
        // while it is being analysed. A pass that reaches this function again
        // lowers it anew and stores that graph; the replace below then
        // overwrites it.
        let taken = self.take_function(name);
        let ghost after_take = self.spec_functions();
        let ghost t = taken;
        match taken {
            Ok((cfg, mut reports)) => {
                let ghost lowered = reports@;
                let ghost before_passes = *self;
                self.run_passes(passes, &cfg, &mut reports);
                let ghost final_passes = *self;
                let ghost c = cfg;
                let regenerated = self.replace_function(name, cfg);
                proof {
                    let states = choose|states: Seq<AnalysisRunner<D, C>>|
                        {
                            &&& states.len() == passes@.len() + 1
                            &&& states[0] == before_passes
                            &&& states.last() == final_passes
                            &&& reports@ == lowered + #[trigger] findings_of(passes@, states, &c, passes@.len() as int)
                        };
                    assert(t->Ok_0.0 == c && t->Ok_0.1@ == lowered);
                    assert(states[0].cache_of(DefinitionKind::Function) == after_take);
                    assert(states[0].cache_of(other_kind(DefinitionKind::Function)) == old(self).cache_of(other_kind(DefinitionKind::Function)));
                    assert(self.cache_of(DefinitionKind::Function).cfg_map() == states.last().cache_of(DefinitionKind::Function).cfg_map().insert(name@, c));
                    assert(Self::same_definitions(old(self), self));
                    assert(t is Ok ==> exists|sts: Seq<AnalysisRunner<D, C>>|
                        {
                            &&& sts.len() == passes@.len() + 1
                            &&& sts[0].cache_of(DefinitionKind::Function) == after_take
                            &&& sts[0].cache_of(other_kind(DefinitionKind::Function)) == old(self).cache_of(other_kind(DefinitionKind::Function))
                            &&& reports@ == t->Ok_0.1@ + #[trigger] findings_of(passes@, sts, &t->Ok_0.0, passes@.len() as int)
                            &&& self.cache_of(DefinitionKind::Function).cfg_map() == sts.last().cache_of(DefinitionKind::Function).cfg_map().insert(name@, t->Ok_0.0)
                            &&& self.cache_of(DefinitionKind::Function).report_map() == sts.last().cache_of(DefinitionKind::Function).report_map()
                            &&& regenerated == sts.last().cache_of(DefinitionKind::Function).cfg_map().contains_key(name@)
                        });
                }
                assert(DefinitionCache::take_post(&old(self).spec_functions(), &after_take, DefinitionKind::Function, name@, old(self).spec_curve(), t));
                assert(DefinitionCache::take_post(&old(self).cache_of(DefinitionKind::Function), &after_take, DefinitionKind::Function, name@, old(self).spec_curve(), t));
                (reports, regenerated)
            },
            Err(_) => {
                let reports = self.take_function_reports(name);
                assert(DefinitionCache::take_post(&old(self).spec_functions(), &after_take, DefinitionKind::Function, name@, old(self).spec_curve(), t));
                assert(DefinitionCache::take_post(&old(self).cache_of(DefinitionKind::Function), &after_take, DefinitionKind::Function, name@, old(self).spec_curve(), t));
                proof {
                    DefinitionCache::lemma_take_failed(&old(self).spec_functions(), &after_take, DefinitionKind::Function, name@, old(self).spec_curve(), t);
                }
                (reports, false)
            },
        }
    }

    /// Writes a progress message, then the diagnostics of the function `name`.
    fn analyze_function<P: AnalysisPass<D, C>, W: ReportWriter>(
        &mut self,
        name: &str,
        passes: &Vec<P>,
        writer: &mut W,
    )
        ensures
            final(writer).messages()@.len() == old(writer).messages()@.len() + 1,
            final(writer).messages()@.drop_last() == old(writer).messages()@,
            final(writer).messages()@.last()@ == "analyzing function '"@ + name@ + "'"@,
            final(writer).written()@.len() == old(writer).written()@.len() + 1,
            final(writer).written()@.drop_last() == old(writer).written()@,
            exists|regenerated: bool|
                Self::analysis_post(
                    old(self),
                    final(self),
                    DefinitionKind::Function,
                    name@,
                    passes@,
                    final(writer).written()@.last()@,
                    regenerated,
                ),
    {
        writer.write_message(concat3("analyzing function '", name, "'").as_str());
        // Whether the graph was stored anew meanwhile is not written.
        let (reports, regenerated) = self.function_reports(name, passes);
        writer.write_reports(&reports, &self.file_library);
        assert(writer.written()@.last() == reports);
        assert(Self::analysis_post(old(self), self, DefinitionKind::Function, name@, passes@, writer.written()@.last()@, regenerated));
    }

    /// Analyses every function, or those from user-supplied files.
    pub fn analyze_functions<P: AnalysisPass<D, C>, W: ReportWriter>(
        &mut self,
        passes: &Vec<P>,
        writer: &mut W,
        user_input_only: bool,
    )
        ensures
            ({
                let names = listed_names(&old(self).spec_functions(), &old(self).spec_file_library(), user_input_only);
                let m = old(writer).messages()@.len();
                let w = old(writer).written()@.len();
                &&& final(writer).messages()@.len() == m + names.len()
                &&& final(writer).messages()@.subrange(0, m as int) == old(writer).messages()@
                &&& forall|i: int| 0 <= i < names.len() ==> #[trigger] final(writer).messages()@[m + i]@
                    == "analyzing function '"@ + names[i] + "'"@
                &&& final(writer).written()@.len() == w + names.len()
                &&& final(writer).written()@.subrange(0, w as int) == old(writer).written()@
            }),
    {
        let names = self.function_names(user_input_only);
        let ghost m = writer.messages()@.len();
        let ghost w = writer.written()@.len();
        let mut i: usize = 0;
        while i < names.len()
            invariant
                i <= names@.len(),
                texts(names@) == listed_names(&old(self).spec_functions(), &old(self).spec_file_library(), user_input_only),
                writer.messages()@.len() == m + i,
                writer.messages()@.subrange(0, m as int) == old(writer).messages()@,
                forall|j: int| 0 <= j < i ==> #[trigger] writer.messages()@[m + j]@
                    == "analyzing function '"@ + texts(names@)[j] + "'"@,
                writer.written()@.len() == w + i,
                writer.written()@.subrange(0, w as int) == old(writer).written()@,
                m == old(writer).messages()@.len(),
                w == old(writer).written()@.len(),
            decreases names@.len() - i,
        {
            let ghost before_m = writer.messages()@;
            let ghost before_w = writer.written()@;
            self.analyze_function(names[i].as_str(), passes, writer);
            proof {
                assert(writer.messages()@.subrange(0, m as int) =~= before_m.subrange(0, m as int));
                assert(writer.written()@.subrange(0, w as int) =~= before_w.subrange(0, w as int));
                assert forall|j: int| 0 <= j < i + 1 implies #[trigger] writer.messages()@[m + j]@
                    == "analyzing function '"@ + texts(names@)[j] + "'"@ by {
                    if j < i {
                        assert(writer.messages()@[m + j] == before_m[m + j]);
                    }
                }
            }
            i = i + 1;
        }
    }
}

} // verus!
