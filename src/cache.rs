use vstd::prelude::*;
use crate::errors::{AnalysisError, CFGError};
use crate::name_map::NameMap;
use crate::report::Report;

verus! {

/// The prime field that the analysed circuits are defined over.
#[derive(Clone, Copy, Debug, PartialEq, Eq, Structural)]
pub enum Curve {
    Bn254,
    Bls12_381,
    Goldilocks,
}

/// Whether a definition is a template or a function.
#[derive(Clone, Copy, Debug, PartialEq, Eq, Structural)]
pub enum DefinitionKind {
    Template,
    Function,
}

/// Lowering of a definition into a control-flow graph. The outcome depends
/// on the definition and the curve alone.
pub trait IntoCfg<C> {
    /// The graph, or the error, that lowering under `curve` gives.
    spec fn lowered(&self, curve: Curve) -> Result<C, CFGError>;

    /// The non-fatal diagnostics that lowering under `curve` pushes.
    spec fn lowering_reports(&self, curve: Curve) -> Vec<Report>;

    fn into_cfg(&self, curve: &Curve, reports: &mut Vec<Report>) -> (r: Result<C, CFGError>)
        ensures
            r == self.lowered(*curve),
            final(reports)@ == old(reports)@ + self.lowering_reports(*curve)@,
    ;
}

/// Conversion of a control-flow graph into static single assignment form.
pub trait IntoSsa: Sized {
    /// The graph in SSA form, or the diagnostic of the failure.
    spec fn ssa(&self) -> Result<Self, Report>;

    fn into_ssa(self) -> (r: Result<Self, Report>)
        ensures
            r == self.ssa(),
    ;
}

/// `outcome` is what lowering `ast` under `curve` and converting the graph
/// to SSA form gives: the report of the first step's error, with the second
/// step skipped, or what the second step returns.
pub open spec fn is_lift_of<D: IntoCfg<C>, C: IntoSsa>(ast: &D, curve: Curve, outcome: Result<C, Report>) -> bool {
    match ast.lowered(curve) {
        Err(e) => outcome is Err && crate::errors::is_report_of(e, outcome->Err_0),
        Ok(cfg) => outcome == cfg.ssa(),
    }
}

/// A parsed definition together with the file it came from.
pub struct Definition<D> {
    pub file_id: usize,
    pub ast: D,
}

/// `e` is the error for a name of this kind that has no definition.
pub open spec fn is_unknown_error(e: AnalysisError, kind: DefinitionKind, name: Seq<char>) -> bool {
    match kind {
        DefinitionKind::Template => e is UnknownTemplate && e->UnknownTemplate_name@ == name,
        DefinitionKind::Function => e is UnknownFunction && e->UnknownFunction_name@ == name,
    }
}

/// `e` is the error for a name of this kind whose lowering failed.
pub open spec fn is_failed_error(e: AnalysisError, kind: DefinitionKind, name: Seq<char>) -> bool {
    match kind {
        DefinitionKind::Template => e is FailedToLiftTemplate && e->FailedToLiftTemplate_name@ == name,
        DefinitionKind::Function => e is FailedToLiftFunction && e->FailedToLiftFunction_name@ == name,
    }
}

fn unknown(kind: DefinitionKind, name: &str) -> (e: AnalysisError)
    ensures
        is_unknown_error(e, kind, name@),
{
    match kind {
        DefinitionKind::Template => AnalysisError::UnknownTemplate { name: name.to_owned() },
        DefinitionKind::Function => AnalysisError::UnknownFunction { name: name.to_owned() },
    }
}

fn failed(kind: DefinitionKind, name: &str) -> (e: AnalysisError)
    ensures
        is_failed_error(e, kind, name@),
{
    match kind {
        DefinitionKind::Template => AnalysisError::FailedToLiftTemplate { name: name.to_owned() },
        DefinitionKind::Function => AnalysisError::FailedToLiftFunction { name: name.to_owned() },
    }
}

/// Lowers `ast` to a CFG and then to SSA form. A failure of either step is
/// returned as the diagnostic that it produced.
pub fn generate_cfg<D: IntoCfg<C>, C: IntoSsa>(ast: &D, curve: &Curve, reports: &mut Vec<Report>) -> (r: Result<C, Report>)
    ensures
        is_lift_of(ast, *curve, r),
        final(reports)@ == old(reports)@ + ast.lowering_reports(*curve)@,
{
    match ast.into_cfg(curve, reports) {
        Ok(cfg) => cfg.into_ssa(),
        Err(error) => Err(CFGError::produce_report(error)),
    }
}

/// The definitions of one kind, the graphs lowered from them so far, the
/// diagnostics produced while lowering, and the names whose lowering failed.
pub struct DefinitionCache<D, C> {
    definitions: NameMap<Definition<D>>,
    cfgs: NameMap<C>,
    reports: NameMap<Vec<Report>>,
    failures: NameMap<()>,
}

impl<D, C> DefinitionCache<D, C> {
    pub closed spec fn definitions(&self) -> Map<Seq<char>, Definition<D>> {
        self.definitions@
    }

    pub closed spec fn definition_names(&self) -> Seq<Seq<char>> {
        self.definitions.names()
    }

    /// The graphs currently held by the cache.
    pub closed spec fn cfg_map(&self) -> Map<Seq<char>, C> {
        self.cfgs@
    }

    /// The stored diagnostics, by name.
    pub closed spec fn report_map(&self) -> Map<Seq<char>, Vec<Report>> {
        self.reports@
    }

    /// The names whose lowering failed.
    pub closed spec fn failed_names(&self) -> Set<Seq<char>> {
        self.failures@.dom()
    }

    /// The diagnostics stored for `name`; none if nothing is stored.
    pub open spec fn reports_of(&self, name: Seq<char>) -> Seq<Report> {
        if self.report_map().contains_key(name) {
            self.report_map()[name]@
        } else {
            Seq::empty()
        }
    }

    /// `a` and `b` hold the same definitions, graphs, diagnostics and failures.
    pub open spec fn same_state(a: &Self, b: &Self) -> bool {
        &&& a.definitions() == b.definitions()
        &&& a.definition_names() == b.definition_names()
        &&& a.cfg_map() == b.cfg_map()
        &&& a.report_map() == b.report_map()
        &&& a.failed_names() == b.failed_names()
    }

    /// `post` is `pre` after the lowering of `name` gave `outcome` with the
    /// non-fatal diagnostics `lowered`: on success the graph is stored and the
    /// diagnostics are appended to those of `name`; on failure the failure's
    /// diagnostic is appended and `name` is marked as failed.
    pub open spec fn lift_recorded(
        pre: &Self,
        post: &Self,
        kind: DefinitionKind,
        name: Seq<char>,
        outcome: Result<C, Report>,
        lowered: Seq<Report>,
        r: Result<(), AnalysisError>,
    ) -> bool {
        &&& post.definitions() == pre.definitions()
        &&& post.definition_names() == pre.definition_names()
        &&& post.report_map().remove(name) == pre.report_map().remove(name)
        &&& post.report_map().contains_key(name)
        &&& match outcome {
            Ok(cfg) => {
                &&& post.cfg_map() == pre.cfg_map().insert(name, cfg)
                &&& post.reports_of(name) == pre.reports_of(name) + lowered
                &&& post.failed_names() == pre.failed_names()
                &&& r is Ok
            },
            Err(report) => {
                &&& post.cfg_map() == pre.cfg_map()
                &&& post.reports_of(name) == pre.reports_of(name).push(report)
                &&& post.failed_names() == pre.failed_names().insert(name)
                &&& r is Err && is_failed_error(r->Err_0, kind, name)
            },
        }
    }

    /// The error that `ensure` of `name` on `pre` returns when it fails: the
    /// recorded failure, the name being unknown, or a failure of the lowering
    /// it then attempts.
    pub open spec fn ensure_error(pre: &Self, kind: DefinitionKind, name: Seq<char>, e: AnalysisError) -> bool {
        &&& !pre.cfg_map().contains_key(name)
        &&& if !pre.failed_names().contains(name) && !pre.definitions().contains_key(name) {
            is_unknown_error(e, kind, name)
        } else {
            is_failed_error(e, kind, name)
        }
    }

    /// What `replace` does: the graph is stored under `name`, and the result
    /// tells whether one was there already.
    pub open spec fn replace_post(pre: &Self, post: &Self, name: Seq<char>, cfg: C, r: bool) -> bool {
        &&& post.cfg_map() == pre.cfg_map().insert(name, cfg)
        &&& r == pre.cfg_map().contains_key(name)
        &&& post.definitions() == pre.definitions()
        &&& post.definition_names() == pre.definition_names()
        &&& post.report_map() == pre.report_map()
        &&& post.failed_names() == pre.failed_names()
    }

    pub fn new() -> (r: Self)
        ensures
            r.definitions() == Map::<Seq<char>, Definition<D>>::empty(),
            r.definition_names() == Seq::<Seq<char>>::empty(),
            r.cfg_map() == Map::<Seq<char>, C>::empty(),
            r.report_map() == Map::<Seq<char>, Vec<Report>>::empty(),
            r.failed_names() == Set::<Seq<char>>::empty(),
    {
        DefinitionCache {
            definitions: NameMap::new(),
            cfgs: NameMap::new(),
            reports: NameMap::new(),
            failures: NameMap::new(),
        }
    }

    /// Whether a definition called `name` is known; nothing is lowered.
    pub fn contains(&self, name: &str) -> (r: bool)
        ensures
            r == self.definitions().contains_key(name@),
    {
        self.definitions.contains_key(name)
    }

    /// Whether a graph for `name` is held by the cache.
    pub fn is_cached(&self, name: &str) -> (r: bool)
        ensures
            r == self.cfg_map().contains_key(name@),
    {
        self.cfgs.contains_key(name)
    }

    /// The graph held for `name`, if any.
    pub fn cached(&self, name: &str) -> (r: Option<&C>)
        ensures
            match r {
                Some(c) => self.cfg_map().contains_key(name@) && *c == self.cfg_map()[name@],
                None => !self.cfg_map().contains_key(name@),
            },
    {
        self.cfgs.get(name)
    }

    /// Takes the diagnostics stored for `name` out of the cache.
    pub fn take_reports(&mut self, name: &str) -> (r: Vec<Report>)
        ensures
            r@ == old(self).reports_of(name@),
            final(self).report_map() == old(self).report_map().remove(name@),
            final(self).reports_of(name@) == Seq::<Report>::empty(),
            final(self).cfg_map() == old(self).cfg_map(),
            final(self).definitions() == old(self).definitions(),
            final(self).definition_names() == old(self).definition_names(),
            final(self).failed_names() == old(self).failed_names(),
    {
        match self.reports.remove(name) {
            Some(reports) => reports,
            None => Vec::new(),
        }
    }

    /// Appends `more` to the diagnostics stored for `name`, leaving `more` empty.
    pub fn append_reports(&mut self, name: &str, more: &mut Vec<Report>)
        ensures
            final(self).reports_of(name@) == old(self).reports_of(name@) + old(more)@,
            final(self).report_map().contains_key(name@),
            final(self).report_map().remove(name@) == old(self).report_map().remove(name@),
            final(more)@ == Seq::<Report>::empty(),
            final(self).cfg_map() == old(self).cfg_map(),
            final(self).definitions() == old(self).definitions(),
            final(self).definition_names() == old(self).definition_names(),
            final(self).failed_names() == old(self).failed_names(),
    {
        let mut stored = self.take_reports(name);
        stored.append(more);
        self.reports.insert(name, stored);
        assert(self.report_map().remove(name@) =~= old(self).report_map().remove(name@));
    }

    /// Records the outcome of lowering `name`: the graph and the non-fatal
    /// diagnostics on success, the failure's diagnostic and the failure itself
    /// otherwise.
    pub fn record_lift(
        &mut self,
        kind: DefinitionKind,
        name: &str,
        outcome: Result<C, Report>,
        lowered: Vec<Report>,
    ) -> (r: Result<(), AnalysisError>)
        ensures
            Self::lift_recorded(old(self), final(self), kind, name@, outcome, lowered@, r),
    {
        let ghost pre_outcome = outcome;
        let mut lowered = lowered;
        match outcome {
            Ok(cfg) => {
                self.append_reports(name, &mut lowered);
                self.cfgs.insert(name, cfg);
                Ok(())
            },
            Err(report) => {
                let mut failure: Vec<Report> = Vec::new();
                failure.push(report);
                assert(failure@ == Seq::<Report>::empty().push(report));
                self.append_reports(name, &mut failure);
                assert(old(self).reports_of(name@) + seq![report] == old(self).reports_of(name@).push(report));
                self.failures.insert(name, ());
                Err(failed(kind, name))
            },
        }
    }

    /// Stores `cfg` under `name`; returns whether a graph was there already,
    /// in which case it is overwritten.
    pub fn replace(&mut self, name: &str, cfg: C) -> (r: bool)
        ensures
            Self::replace_post(old(self), final(self), name@, cfg, r),
    {
        self.cfgs.insert(name, cfg).is_some()
    }

    /// Adds a definition called `name`, replacing any earlier one of that name.
    pub fn add_definition(&mut self, name: &str, definition: Definition<D>)
        ensures
            final(self).definitions() == old(self).definitions().insert(name@, definition),
            final(self).definition_names() == if old(self).definitions().contains_key(name@) {
                old(self).definition_names()
            } else {
                old(self).definition_names().push(name@)
            },
            final(self).cfg_map() == old(self).cfg_map(),
            final(self).report_map() == old(self).report_map(),
            final(self).failed_names() == old(self).failed_names(),
    {
        self.definitions.insert(name, definition);
    }

    /// The number of definitions.
    pub fn len(&self) -> (r: usize)
        ensures
            r == self.definition_names().len(),
            self.definition_names().no_duplicates(),
            forall|k: Seq<char>| self.definition_names().contains(k) <==> #[trigger] self.definitions().contains_key(k),
    {
        self.definitions.len()
    }

    /// The name of the `i`-th definition.
    pub fn name_at(&self, i: usize) -> (r: &String)
        requires
            i < self.definition_names().len(),
        ensures
            r@ == self.definition_names()[i as int],
    {
        self.definitions.key_at(i)
    }

    /// The file that the `i`-th definition came from.
    pub fn file_id_at(&self, i: usize) -> (r: usize)
        requires
            i < self.definition_names().len(),
        ensures
            self.definitions().contains_key(self.definition_names()[i as int]),
            r == self.definitions()[self.definition_names()[i as int]].file_id,
    {
        self.definitions.value_at(i).file_id
    }
}

impl<D: IntoCfg<C>, C: IntoSsa> DefinitionCache<D, C> {
    /// What `ensure` does: a stored graph is a hit, a recorded failure or an
    /// unknown name is an error, and otherwise the definition is lowered once
    /// under `curve` and the outcome recorded.
    pub open spec fn ensure_post(
        pre: &Self,
        post: &Self,
        kind: DefinitionKind,
        name: Seq<char>,
        curve: Curve,
        r: Result<(), AnalysisError>,
    ) -> bool {
        if pre.cfg_map().contains_key(name) {
            Self::same_state(pre, post) && r is Ok
        } else if pre.failed_names().contains(name) {
            Self::same_state(pre, post) && r is Err && is_failed_error(r->Err_0, kind, name)
        } else if !pre.definitions().contains_key(name) {
            Self::same_state(pre, post) && r is Err && is_unknown_error(r->Err_0, kind, name)
        } else {
            exists|outcome: Result<C, Report>|
                {
                    &&& is_lift_of(&pre.definitions()[name].ast, curve, outcome)
                    &&& #[trigger] Self::lift_recorded(
                        pre,
                        post,
                        kind,
                        name,
                        outcome,
                        pre.definitions()[name].ast.lowering_reports(curve)@,
                        r,
                    )
                }
        }
    }

    /// A successful `ensure` of `name` on `pre` gave `post`: a hit that
    /// changed nothing, or a lowering of its definition under `curve` whose
    /// graph is now stored, with the lowering's diagnostics appended.
    pub open spec fn ensured(pre: &Self, post: &Self, name: Seq<char>, curve: Curve) -> bool {
        if pre.cfg_map().contains_key(name) {
            Self::same_state(pre, post)
        } else {
            &&& !pre.failed_names().contains(name)
            &&& pre.definitions().contains_key(name)
            &&& post.cfg_map().contains_key(name)
            &&& is_lift_of(&pre.definitions()[name].ast, curve, Ok(post.cfg_map()[name]))
            &&& post.cfg_map() == pre.cfg_map().insert(name, post.cfg_map()[name])
            &&& post.reports_of(name) == pre.reports_of(name) + pre.definitions()[name].ast.lowering_reports(curve)@
            &&& post.report_map().remove(name) == pre.report_map().remove(name)
            &&& post.failed_names() == pre.failed_names()
            &&& post.definitions() == pre.definitions()
            &&& post.definition_names() == pre.definition_names()
        }
    }

    /// A successful `ensure` is a hit or a lowering, as `ensured` says.
    pub proof fn lemma_ensured(pre: &Self, post: &Self, kind: DefinitionKind, name: Seq<char>, curve: Curve, e: Result<(), AnalysisError>)
        requires
            Self::ensure_post(pre, post, kind, name, curve, e),
            e is Ok,
        ensures
            Self::ensured(pre, post, name, curve),
    {
        if !pre.cfg_map().contains_key(name) {
            let outcome = choose|outcome: Result<C, Report>|
                {
                    &&& is_lift_of(&pre.definitions()[name].ast, curve, outcome)
                    &&& #[trigger] Self::lift_recorded(
                        pre,
                        post,
                        kind,
                        name,
                        outcome,
                        pre.definitions()[name].ast.lowering_reports(curve)@,
                        e,
                    )
                };
            assert(outcome is Ok);
            assert(post.cfg_map()[name] == outcome->Ok_0);
        }
    }

    /// A failed `take` leaves the graphs and the definitions as they were.
    pub proof fn lemma_take_failed(
        pre: &Self,
        post: &Self,
        kind: DefinitionKind,
        name: Seq<char>,
        curve: Curve,
        r: Result<(C, Vec<Report>), AnalysisError>,
    )
        requires
            Self::take_post(pre, post, kind, name, curve, r),
            r is Err,
        ensures
            post.cfg_map() == pre.cfg_map(),
            post.definitions() == pre.definitions(),
            post.definition_names() == pre.definition_names(),
    {
        let (mid, e) = choose|mid: Self, e: Result<(), AnalysisError>|
            #[trigger] Self::ensure_post(pre, &mid, kind, name, curve, e) && match e {
                Ok(_) => {
                    &&& r is Ok
                },
                Err(x) => r == Err::<(C, Vec<Report>), AnalysisError>(x) && Self::same_state(&mid, post),
            };
        if !pre.cfg_map().contains_key(name) && !pre.failed_names().contains(name)
            && pre.definitions().contains_key(name) {
            let outcome = choose|outcome: Result<C, Report>|
                {
                    &&& is_lift_of(&pre.definitions()[name].ast, curve, outcome)
                    &&& #[trigger] Self::lift_recorded(
                        pre,
                        &mid,
                        kind,
                        name,
                        outcome,
                        pre.definitions()[name].ast.lowering_reports(curve)@,
                        e,
                    )
                };
        }
    }

    /// What `take` does: `ensure`, then on success the graph and the
    /// diagnostics stored for `name` leave the cache and are handed out.
    pub open spec fn take_post(
        pre: &Self,
        post: &Self,
        kind: DefinitionKind,
        name: Seq<char>,
        curve: Curve,
        r: Result<(C, Vec<Report>), AnalysisError>,
    ) -> bool {
        exists|mid: Self, e: Result<(), AnalysisError>|
            {
                &&& #[trigger] Self::ensure_post(pre, &mid, kind, name, curve, e)
                &&& match e {
                    Ok(_) => {
                        &&& mid.cfg_map().contains_key(name)
                        &&& r is Ok
                        &&& r->Ok_0.0 == mid.cfg_map()[name]
                        &&& r->Ok_0.1@ == mid.reports_of(name)
                        &&& post.cfg_map() == mid.cfg_map().remove(name)
                        &&& post.report_map() == mid.report_map().remove(name)
                        &&& post.definitions() == mid.definitions()
                        &&& post.definition_names() == mid.definition_names()
                        &&& post.failed_names() == mid.failed_names()
                    },
                    Err(x) => r == Err::<(C, Vec<Report>), AnalysisError>(x) && Self::same_state(&mid, post),
                }
            }
    }

    /// Makes sure that a graph for `name` is held, lowering its definition on
    /// first request. A failed lowering is remembered and never attempted again.
    pub fn ensure(&mut self, kind: DefinitionKind, name: &str, curve: &Curve) -> (r: Result<(), AnalysisError>)
        ensures
            Self::ensure_post(old(self), final(self), kind, name@, *curve, r),
            r is Ok ==> final(self).cfg_map().contains_key(name@),
            final(self).definitions() == old(self).definitions(),
            final(self).definition_names() == old(self).definition_names(),
            r is Err ==> Self::ensure_error(old(self), kind, name@, r->Err_0),
    {
        if self.cfgs.contains_key(name) {
            return Ok(());
        }
        if self.failures.contains_key(name) {
            return Err(failed(kind, name));
        }
        let mut lowered: Vec<Report> = Vec::new();
        let outcome = match self.definitions.get(name) {
            None => {
                return Err(unknown(kind, name));
            },
            Some(definition) => generate_cfg(&definition.ast, curve, &mut lowered),
        };
        let ghost lowered_reports = lowered@;
        assert(lowered_reports =~= old(self).definitions()[name@].ast.lowering_reports(*curve)@);
        let r = self.record_lift(kind, name, outcome, lowered);
        assert(Self::lift_recorded(old(self), self, kind, name@, outcome, lowered_reports, r));
        r
    }

    /// Makes sure that a graph for `name` is held, then takes it out of the
    /// cache together with the diagnostics stored for `name`, which are thus
    /// handed out once. The cache holds no graph for `name` until `replace`
    /// is called.
    pub fn take(&mut self, kind: DefinitionKind, name: &str, curve: &Curve) -> (r: Result<(C, Vec<Report>), AnalysisError>)
        ensures
            Self::take_post(old(self), final(self), kind, name@, *curve, r),
            final(self).definitions() == old(self).definitions(),
            final(self).definition_names() == old(self).definition_names(),
            r is Ok ==> !final(self).cfg_map().contains_key(name@) && final(self).reports_of(name@) == Seq::<Report>::empty(),
    {
        let e = self.ensure(kind, name, curve);
        let ghost mid = *self;
        match e {
            Err(x) => {
                assert(Self::ensure_post(old(self), &mid, kind, name@, *curve, e));
                Err(x)
            },
            Ok(()) => {
                match self.cfgs.remove(name) {
                    Some(cfg) => {
                        let reports = self.take_reports(name);
                        assert(Self::ensure_post(old(self), &mid, kind, name@, *curve, e));
                        Ok((cfg, reports))
                    },
                    None => {
                        assert(false);
                        Err(unknown(kind, name))
                    },
                }
            },
        }
    }
}

} // verus!
