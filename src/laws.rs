use vstd::prelude::*;
use crate::cache::{Curve, DefinitionCache, DefinitionKind, IntoCfg, IntoSsa, is_failed_error};
use crate::errors::AnalysisError;
use crate::report::Report;

verus! {

/// Once `ensure` has succeeded for a name, a second `ensure` for it is a
/// cache hit: it succeeds and changes nothing, so no lowering happens.
pub proof fn lemma_single_build<D: IntoCfg<C>, C: IntoSsa>(
    s0: DefinitionCache<D, C>,
    s1: DefinitionCache<D, C>,
    s2: DefinitionCache<D, C>,
    kind: DefinitionKind,
    curve: Curve,
    name: Seq<char>,
    r1: Result<(), AnalysisError>,
    r2: Result<(), AnalysisError>,
)
    requires
        DefinitionCache::ensure_post(&s0, &s1, kind, name, curve, r1),
        r1 is Ok,
        DefinitionCache::ensure_post(&s1, &s2, kind, name, curve, r2),
    ensures
        s1.cfg_map().contains_key(name),
        DefinitionCache::same_state(&s1, &s2),
        r2 is Ok,
{
    if !s0.cfg_map().contains_key(name) && !s0.failed_names().contains(name)
        && s0.definitions().contains_key(name) {
        let outcome = choose|outcome: Result<C, Report>|
            #[trigger] DefinitionCache::lift_recorded(
                &s0,
                &s1,
                kind,
                name,
                outcome,
                s0.definitions()[name].ast.lowering_reports(curve)@,
                r1,
            );
        assert(s1.cfg_map().contains_key(name));
    }
}

/// When lowering a name fails, exactly one diagnostic, the failure's, is
/// added to its stored diagnostics, and every later `ensure` or `take` for
/// that name fails the same way without lowering and without changing the
/// cache.
pub proof fn lemma_failure_memoized<D: IntoCfg<C>, C: IntoSsa>(
    s0: DefinitionCache<D, C>,
    s1: DefinitionCache<D, C>,
    kind: DefinitionKind,
    curve: Curve,
    name: Seq<char>,
    r1: Result<(), AnalysisError>,
)
    requires
        DefinitionCache::ensure_post(&s0, &s1, kind, name, curve, r1),
        r1 is Err && is_failed_error(r1->Err_0, kind, name),
        !s0.failed_names().contains(name),
    ensures
        s1.failed_names().contains(name),
        !s1.cfg_map().contains_key(name),
        exists|failure: Report| s1.reports_of(name) == s0.reports_of(name).push(failure),
        forall|s2: DefinitionCache<D, C>, r2: Result<(), AnalysisError>|
            DefinitionCache::ensure_post(&s1, &s2, kind, name, curve, r2) ==> DefinitionCache::same_state(&s1, &s2)
                && r2 is Err && is_failed_error(r2->Err_0, kind, name),
        forall|s2: DefinitionCache<D, C>, r2: Result<(C, Vec<Report>), AnalysisError>|
            DefinitionCache::take_post(&s1, &s2, kind, name, curve, r2) ==> DefinitionCache::same_state(&s1, &s2)
                && r2 is Err && is_failed_error(r2->Err_0, kind, name),
{
    let outcome = choose|outcome: Result<C, Report>|
        #[trigger] DefinitionCache::lift_recorded(
            &s0,
            &s1,
            kind,
            name,
            outcome,
            s0.definitions()[name].ast.lowering_reports(curve)@,
            r1,
        );
    assert(outcome is Err);
    assert forall|s2: DefinitionCache<D, C>, r2: Result<(C, Vec<Report>), AnalysisError>|
        DefinitionCache::take_post(&s1, &s2, kind, name, curve, r2) implies DefinitionCache::same_state(&s1, &s2)
            && r2 is Err && is_failed_error(r2->Err_0, kind, name) by {
        let (mid, e) = choose|mid: DefinitionCache<D, C>, e: Result<(), AnalysisError>|
            #[trigger] DefinitionCache::ensure_post(&s1, &mid, kind, name, curve, e) && match e {
                Ok(_) => mid.cfg_map().contains_key(name),
                Err(x) => r2 == Err::<(C, Vec<Report>), AnalysisError>(x) && DefinitionCache::same_state(&mid, &s2),
            };
    }
}

/// Taking a held graph out and putting the same graph back leaves the
/// cache's graphs, definitions and failures as they were before the take,
/// and the diagnostics stored for the name drained by the take.
pub proof fn lemma_take_replace<D: IntoCfg<C>, C: IntoSsa>(
    s0: DefinitionCache<D, C>,
    s1: DefinitionCache<D, C>,
    s2: DefinitionCache<D, C>,
    kind: DefinitionKind,
    curve: Curve,
    name: Seq<char>,
    taken: (C, Vec<Report>),
    replaced: bool,
)
    requires
        s0.cfg_map().contains_key(name),
        DefinitionCache::take_post(&s0, &s1, kind, name, curve, Ok(taken)),
        DefinitionCache::replace_post(&s1, &s2, name, taken.0, replaced),
    ensures
        s2.cfg_map() == s0.cfg_map(),
        s2.definitions() == s0.definitions(),
        s2.failed_names() == s0.failed_names(),
        s2.report_map() == s0.report_map().remove(name),
        s2.reports_of(name) == Seq::<Report>::empty(),
        taken.1@ == s0.reports_of(name),
        !replaced,
{
    let (mid, e) = choose|mid: DefinitionCache<D, C>, e: Result<(), AnalysisError>|
        #[trigger] DefinitionCache::ensure_post(&s0, &mid, kind, name, curve, e) && match e {
            Ok(_) => {
                &&& mid.cfg_map().contains_key(name)
                &&& Ok::<(C, Vec<Report>), AnalysisError>(taken) is Ok
                &&& taken.0 == mid.cfg_map()[name]
                &&& taken.1@ == mid.reports_of(name)
                &&& s1.cfg_map() == mid.cfg_map().remove(name)
                &&& s1.report_map() == mid.report_map().remove(name)
                &&& s1.definitions() == mid.definitions()
                &&& s1.definition_names() == mid.definition_names()
                &&& s1.failed_names() == mid.failed_names()
            },
            Err(x) => Ok::<(C, Vec<Report>), AnalysisError>(taken) == Err::<(C, Vec<Report>), AnalysisError>(x)
                && DefinitionCache::same_state(&mid, &s1),
        };
    assert(s2.cfg_map() =~= s0.cfg_map());
}

/// A take and replace of a name nested between the take of that name and
/// its replace: the inner replace finds the slot empty, the outer replace
/// finds it filled and overwrites it, so the last write wins.
pub proof fn lemma_reentrant_overwrite<D: IntoCfg<C>, C: IntoSsa>(
    s0: DefinitionCache<D, C>,
    s1: DefinitionCache<D, C>,
    s2: DefinitionCache<D, C>,
    s3: DefinitionCache<D, C>,
    s4: DefinitionCache<D, C>,
    kind: DefinitionKind,
    curve: Curve,
    name: Seq<char>,
    outer: (C, Vec<Report>),
    inner: (C, Vec<Report>),
    inner_replaced: bool,
    outer_replaced: bool,
)
    requires
        DefinitionCache::take_post(&s0, &s1, kind, name, curve, Ok(outer)),
        !s1.cfg_map().contains_key(name),
        DefinitionCache::take_post(&s1, &s2, kind, name, curve, Ok(inner)),
        !s2.cfg_map().contains_key(name),
        DefinitionCache::replace_post(&s2, &s3, name, inner.0, inner_replaced),
        DefinitionCache::replace_post(&s3, &s4, name, outer.0, outer_replaced),
    ensures
        !inner_replaced,
        outer_replaced,
        s4.cfg_map().contains_key(name),
        s4.cfg_map()[name] == outer.0,
{
}

} // verus!
