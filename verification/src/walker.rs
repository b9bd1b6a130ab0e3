use vstd::prelude::*;

use crate::config::{strip_dot_slash_spec, CopyDef, CopyDefView, FileSet, FileSetView};
use crate::environment::Environment;
use crate::error::Error;
use crate::utils::{fill_variable_template, path_join, spec_expand, spec_path_join, TemplateOutcome};

verus! {

broadcast use vstd::string::group_string_axioms;

#[verifier::external_type_specification]
#[verifier::external_body]
pub struct ExGlobreeks(globreeks::Globreeks);

/// The ordered patterns a compiled matcher was built from.
pub uninterp spec fn reeks_patterns(g: globreeks::Globreeks) -> Seq<Seq<char>>;

/// Whether the ordered patterns include a path. The patterns are scanned
/// for the last one matching the path: a `!`-negated one excludes, any
/// other includes, and a path no pattern matches is excluded.
pub uninterp spec fn glob_include(patterns: Seq<Seq<char>>, path: Seq<char>) -> bool;

/// Whether the ordered patterns compile into a matcher: success depends
/// on the patterns alone.
pub uninterp spec fn reeks_compiles(patterns: Seq<Seq<char>>) -> bool;

/// Relies on `globreeks::Globreeks::new`: compiles the ordered pattern
/// list; a malformed pattern is an error, and whether one is malformed
/// depends on the patterns alone.
#[verifier::external_body]
fn globreeks_new(patterns: &Vec<String>) -> (r: Result<globreeks::Globreeks, Error>)
    ensures
        r is Ok <==> reeks_compiles(patterns.deep_view()),
        r matches Ok(g) ==> reeks_patterns(g) == patterns.deep_view(),
        r matches Err(e) ==> e matches Error::Pattern(_),
{
    match globreeks::Globreeks::new(patterns.iter().map(|s| s.as_str())) {
        Ok(g) => Ok(g),
        Err(e) => Err(Error::Pattern(e.to_string())),
    }
}

/// Relies on `globreeks::Globreeks::evaluate`: evaluates the compiled
/// patterns on a path, last match winning; the verdict depends on the
/// patterns and the path alone.
#[verifier::external_body]
fn globreeks_evaluate(g: &globreeks::Globreeks, path: &str) -> (r: bool)
    ensures
        r == glob_include(reeks_patterns(*g), path@),
{
    g.evaluate(path)
}

/// A compiled ordered glob matcher.
pub struct Matcher {
    reeks: globreeks::Globreeks,
}

impl Matcher {
    /// The ordered patterns the matcher holds.
    pub closed spec fn patterns(self) -> Seq<Seq<char>> {
        reeks_patterns(self.reeks)
    }

    /// Compiles an ordered pattern list; succeeds exactly when the
    /// patterns compile.
    pub fn new(patterns: &Vec<String>) -> (r: Result<Matcher, Error>)
        ensures
            r is Ok <==> reeks_compiles(patterns.deep_view()),
            r matches Ok(m) ==> m.patterns() == patterns.deep_view(),
            r matches Err(e) ==> e matches Error::Pattern(_),
    {
        let reeks = globreeks_new(patterns)?;
        Ok(Matcher { reeks })
    }

    /// Whether the patterns include the path.
    pub fn includes(&self, path: &str) -> (r: bool)
        ensures
            r == glob_include(self.patterns(), path@),
    {
        globreeks_evaluate(&self.reeks, path)
    }
}

/// The bare glob patterns among the copy declarations, in order.
pub open spec fn simple_globs(defs: Seq<CopyDefView>) -> Seq<Seq<char>>
    decreases defs.len(),
{
    if defs.len() == 0 {
        Seq::empty()
    } else {
        (match defs[0] {
            CopyDefView::Simple(s) => seq![s],
            CopyDefView::Scoped(_) => Seq::<Seq<char>>::empty(),
        }) + simple_globs(defs.drop_first())
    }
}

/// The scoped copies among the copy declarations, in order.
pub open spec fn scoped_sets(defs: Seq<CopyDefView>) -> Seq<FileSetView>
    decreases defs.len(),
{
    if defs.len() == 0 {
        Seq::empty()
    } else {
        (match defs[0] {
            CopyDefView::Simple(_) => Seq::<FileSetView>::empty(),
            CopyDefView::Scoped(fs) => seq![fs],
        }) + scoped_sets(defs.drop_first())
    }
}

/// A scope with no filters and no destination prefix is degenerate and
/// is dropped before walking.
pub open spec fn kept_sets(sets: Seq<FileSetView>) -> Seq<FileSetView>
    decreases sets.len(),
{
    if sets.len() == 0 {
        Seq::empty()
    } else {
        (if sets[0].filter.len() == 0 && sets[0].to is None {
            Seq::<FileSetView>::empty()
        } else {
            seq![sets[0]]
        }) + kept_sets(sets.drop_first())
    }
}

/// Whether a pattern is negated.
pub open spec fn is_negated(f: Seq<char>) -> bool {
    f.len() >= 1 && f[0] == '!'
}

/// Whether any pattern is positive.
pub open spec fn has_positive(fs: Seq<Seq<char>>) -> bool {
    exists|i: int| 0 <= i < fs.len() && !is_negated(#[trigger] fs[i])
}

/// A filter list with only negated patterns gets `**/*` prepended, so the
/// scope still offers its whole tree to the negations.
pub open spec fn augment_filters(fs: Seq<Seq<char>>) -> Seq<Seq<char>> {
    if has_positive(fs) {
        fs
    } else {
        seq!["**/*"@] + fs
    }
}

/// Whether every glob in the list expands without error.
pub open spec fn all_expand_ok(
    gs: Seq<Seq<char>>,
    environment: Environment,
    vars: Seq<(String, String)>,
) -> bool {
    forall|i: int| 0 <= i < gs.len() ==> (#[trigger] spec_expand(gs[i], environment, vars)) is Done
}

/// The position of the first glob that fails to expand, or the length
/// when every glob expands.
pub open spec fn first_expand_failure(
    gs: Seq<Seq<char>>,
    environment: Environment,
    vars: Seq<(String, String)>,
) -> int
    decreases gs.len(),
{
    if gs.len() == 0 {
        0
    } else if spec_expand(gs[0], environment, vars) is Done {
        1 + first_expand_failure(gs.drop_first(), environment, vars)
    } else {
        0
    }
}

proof fn lemma_first_expand_failure_at(
    gs: Seq<Seq<char>>,
    environment: Environment,
    vars: Seq<(String, String)>,
    i: int,
)
    requires
        0 <= i < gs.len(),
        forall|j: int| 0 <= j < i ==> (#[trigger] spec_expand(gs[j], environment, vars)) is Done,
        !(spec_expand(gs[i], environment, vars) is Done),
    ensures
        first_expand_failure(gs, environment, vars) == i,
    decreases i,
{
    if i > 0 {
        assert forall|j: int| 0 <= j < i - 1 implies (#[trigger] spec_expand(
            gs.drop_first()[j],
            environment,
            vars,
        )) is Done by {
            assert(gs.drop_first()[j] == gs[j + 1]);
            assert(spec_expand(gs[j + 1], environment, vars) is Done);
        }
        assert(gs.drop_first()[i - 1] == gs[i]);
        lemma_first_expand_failure_at(gs.drop_first(), environment, vars, i - 1);
    }
}

/// The expanded glob list.
pub open spec fn expand_seq(
    gs: Seq<Seq<char>>,
    environment: Environment,
    vars: Seq<(String, String)>,
) -> Seq<Seq<char>> {
    Seq::new(gs.len(), |i: int| spec_expand(gs[i], environment, vars)->Done_0)
}

/// One scope of a walk: the bare-glob bucket, or one scoped copy.
pub struct WalkScope {
    pub from: Option<String>,
    pub to: Option<String>,
    pub filters: Vec<String>,
}

/// The mathematical shape of a walk scope.
pub struct WalkScopeView {
    pub from: Option<Seq<char>>,
    pub to: Option<Seq<char>>,
    pub filters: Seq<Seq<char>>,
}

impl View for WalkScope {
    type V = WalkScopeView;

    open spec fn view(&self) -> WalkScopeView {
        WalkScopeView {
            from: self.from.deep_view(),
            to: self.to.deep_view(),
            filters: self.filters.deep_view(),
        }
    }
}

impl DeepView for WalkScope {
    type V = WalkScopeView;

    open spec fn deep_view(&self) -> WalkScopeView {
        self.view()
    }
}

/// What a kept scoped copy walks as: its `from` and `to` without a
/// leading `./`, and its filters expanded and, where all are negated,
/// augmented.
pub open spec fn planned_scope(
    fs: FileSetView,
    environment: Environment,
    vars: Seq<(String, String)>,
) -> WalkScopeView {
    WalkScopeView {
        from: match fs.from {
            Some(f) => Some(strip_dot_slash_spec(f)),
            None => None,
        },
        to: match fs.to {
            Some(t) => Some(strip_dot_slash_spec(t)),
            None => None,
        },
        filters: augment_filters(expand_seq(fs.filter, environment, vars)),
    }
}

/// A filter list where every pattern is negated still walks the whole
/// scope tree: `**/*` is put in front, so the negations subtract from
/// everything under the scope root rather than from nothing.
pub proof fn lemma_all_negative_augmented(fs: Seq<Seq<char>>)
    requires
        forall|i: int| 0 <= i < fs.len() ==> is_negated(#[trigger] fs[i]),
    ensures
        augment_filters(fs) == seq!["**/*"@] + fs,
{
    assert(!has_positive(fs));
}

/// A whole walk: the bare-glob scope, if there are bare globs, then the
/// scoped copies.
pub struct WalkPlan {
    pub global: Option<WalkScope>,
    pub scopes: Vec<WalkScope>,
}

proof fn lemma_simple_globs_snoc(defs: Seq<CopyDefView>, d: CopyDefView)
    ensures
        simple_globs(defs.push(d)) == simple_globs(defs) + (match d {
            CopyDefView::Simple(s) => seq![s],
            CopyDefView::Scoped(_) => Seq::<Seq<char>>::empty(),
        }),
    decreases defs.len(),
{
    let tail = match d {
        CopyDefView::Simple(s) => seq![s],
        CopyDefView::Scoped(_) => Seq::<Seq<char>>::empty(),
    };
    if defs.len() == 0 {
        reveal_with_fuel(simple_globs, 2);
        assert(defs.push(d).drop_first() =~= Seq::<CopyDefView>::empty());
        assert(simple_globs(defs.push(d)) =~= tail);
        assert(simple_globs(defs) + tail =~= tail);
    } else {
        lemma_simple_globs_snoc(defs.drop_first(), d);
        assert(defs.push(d).drop_first() =~= defs.drop_first().push(d));
        assert(simple_globs(defs.push(d)) =~= simple_globs(defs) + tail);
    }
}

proof fn lemma_scoped_sets_snoc(defs: Seq<CopyDefView>, d: CopyDefView)
    ensures
        scoped_sets(defs.push(d)) == scoped_sets(defs) + (match d {
            CopyDefView::Simple(_) => Seq::<FileSetView>::empty(),
            CopyDefView::Scoped(fs) => seq![fs],
        }),
    decreases defs.len(),
{
    let tail = match d {
        CopyDefView::Simple(_) => Seq::<FileSetView>::empty(),
        CopyDefView::Scoped(fs) => seq![fs],
    };
    if defs.len() == 0 {
        reveal_with_fuel(scoped_sets, 2);
        assert(defs.push(d).drop_first() =~= Seq::<CopyDefView>::empty());
        assert(scoped_sets(defs.push(d)) =~= tail);
        assert(scoped_sets(defs) + tail =~= tail);
    } else {
        lemma_scoped_sets_snoc(defs.drop_first(), d);
        assert(defs.push(d).drop_first() =~= defs.drop_first().push(d));
        assert(scoped_sets(defs.push(d)) =~= scoped_sets(defs) + tail);
    }
}

proof fn lemma_kept_sets_snoc(sets: Seq<FileSetView>, s: FileSetView)
    ensures
        kept_sets(sets.push(s)) == kept_sets(sets) + (if s.filter.len() == 0 && s.to is None {
            Seq::<FileSetView>::empty()
        } else {
            seq![s]
        }),
    decreases sets.len(),
{
    let tail: Seq<FileSetView> = if s.filter.len() == 0 && s.to is None {
        Seq::empty()
    } else {
        seq![s]
    };
    if sets.len() == 0 {
        reveal_with_fuel(kept_sets, 2);
        assert(sets.push(s).drop_first() =~= Seq::<FileSetView>::empty());
        assert(kept_sets(sets.push(s)) =~= tail);
        assert(kept_sets(sets) + tail =~= tail);
    } else {
        lemma_kept_sets_snoc(sets.drop_first(), s);
        assert(sets.push(s).drop_first() =~= sets.drop_first().push(s));
        assert(kept_sets(sets.push(s)) =~= kept_sets(sets) + tail);
    }
}

proof fn lemma_kept_sets_concat(a: Seq<FileSetView>, b: Seq<FileSetView>)
    ensures
        kept_sets(a + b) == kept_sets(a) + kept_sets(b),
    decreases a.len(),
{
    if a.len() == 0 {
        assert(a + b =~= b);
        assert(kept_sets(a) + kept_sets(b) =~= kept_sets(b));
    } else {
        lemma_kept_sets_concat(a.drop_first(), b);
        assert((a + b).drop_first() =~= a.drop_first() + b);
        assert((a + b)[0] == a[0]);
        assert(kept_sets(a + b) =~= kept_sets(a) + kept_sets(b));
    }
}

/// Whether every kept scope's filters expand without error.
pub open spec fn kept_filters_expand_ok(
    defs: Seq<CopyDefView>,
    environment: Environment,
    vars: Seq<(String, String)>,
) -> bool {
    forall|k: int|
        0 <= k < kept_sets(scoped_sets(defs)).len() ==> all_expand_ok(
            (#[trigger] kept_sets(scoped_sets(defs))[k]).filter,
            environment,
            vars,
        )
}

/// Splits the copy declarations into the bare globs and the scoped sets.
#[verifier::loop_isolation(false)]
fn split_defs<'a>(defs: &'a Vec<CopyDef>) -> (r: (Vec<String>, Vec<&'a FileSet>))
    ensures
        r.0.deep_view() == simple_globs(defs.deep_view()),
        r.1.deep_view() == scoped_sets(defs.deep_view()),
{
    let ghost dv = defs.deep_view();
    let mut globs: Vec<String> = Vec::new();
    let mut sets: Vec<&FileSet> = Vec::new();
    proof {
        assert(dv.take(0) =~= Seq::<CopyDefView>::empty());
        assert(globs.deep_view() =~= simple_globs(dv.take(0)));
        assert(sets.deep_view() =~= scoped_sets(dv.take(0)));
    }
    let n = defs.len();
    let mut i: usize = 0;
    while i < n
        invariant
            i <= n,
            n == defs.len(),
            dv == defs.deep_view(),
            globs.deep_view() == simple_globs(dv.take(i as int)),
            sets.deep_view() == scoped_sets(dv.take(i as int)),
        decreases n - i,
    {
        proof {
            lemma_simple_globs_snoc(dv.take(i as int), dv[i as int]);
            lemma_scoped_sets_snoc(dv.take(i as int), dv[i as int]);
            assert(dv.take(i + 1 as int) =~= dv.take(i as int).push(dv[i as int]));
            assert(dv[i as int] == defs@[i as int]@);
        }
        match &defs[i] {
            CopyDef::Simple(g) => {
                globs.push(g.clone());
                proof {
                    assert(globs.deep_view() =~= simple_globs(dv.take(i + 1 as int)));
                    assert(sets.deep_view() =~= scoped_sets(dv.take(i + 1 as int)));
                }
            },
            CopyDef::Scoped(fs) => {
                sets.push(fs);
                proof {
                    assert(globs.deep_view() =~= simple_globs(dv.take(i + 1 as int)));
                    assert(sets.deep_view() =~= scoped_sets(dv.take(i + 1 as int)));
                }
            },
        }
        i += 1;
    }
    proof {
        assert(dv.take(n as int) =~= dv);
    }
    (globs, sets)
}

/// Expands the template variables in every glob of the list.
#[verifier::loop_isolation(false)]
pub fn expand_globs(
    globs: &Vec<String>,
    environment: &Environment,
    vars: &Vec<(String, String)>,
) -> (r: Result<Vec<String>, Error>)
    ensures
        match r {
            Ok(o) => all_expand_ok(globs.deep_view(), *environment, vars@) && o.deep_view()
                == expand_seq(globs.deep_view(), *environment, vars@),
            Err(e) => {
                let k = first_expand_failure(globs.deep_view(), *environment, vars@);
                &&& !all_expand_ok(globs.deep_view(), *environment, vars@)
                &&& 0 <= k < globs.deep_view().len()
                &&& match spec_expand(globs.deep_view()[k], *environment, vars@) {
                    TemplateOutcome::UnknownVar(v) => e matches Error::UnknownTemplateVariable(x)
                        && x@ == v,
                    TemplateOutcome::MissingEnv(v) => e matches Error::MissingEnvironmentVariable(
                        x,
                    ) && x@ == v,
                    TemplateOutcome::Done(_) => false,
                }
            },
        },
{
    let ghost gv = globs.deep_view();
    let mut out: Vec<String> = Vec::new();
    let n = globs.len();
    let mut i: usize = 0;
    while i < n
        invariant
            i <= n,
            n == globs.len(),
            gv == globs.deep_view(),
            out@.len() == i,
            forall|j: int| 0 <= j < i ==> (#[trigger] spec_expand(gv[j], *environment, vars@))
                is Done,
            forall|j: int| 0 <= j < i ==> #[trigger] out@[j]@ == spec_expand(
                gv[j],
                *environment,
                vars@,
            )->Done_0,
        decreases n - i,
    {
        let expanded = match fill_variable_template(globs[i].as_str(), environment, vars) {
            Ok(x) => x,
            Err(e) => {
                proof {
                    assert(!(spec_expand(gv[i as int], *environment, vars@) is Done));
                    lemma_first_expand_failure_at(gv, *environment, vars@, i as int);
                }
                return Err(e);
            },
        };
        out.push(expanded);
        i += 1;
    }
    proof {
        assert(out.deep_view() =~= expand_seq(gv, *environment, vars@));
    }
    Ok(out)
}

/// Whether any pattern in the list is positive.
#[verifier::loop_isolation(false)]
fn any_positive(filters: &Vec<String>) -> (r: bool)
    ensures
        r == has_positive(filters.deep_view()),
{
    let ghost fv = filters.deep_view();
    let n = filters.len();
    let mut i: usize = 0;
    while i < n
        invariant
            i <= n,
            n == filters.len(),
            fv == filters.deep_view(),
            forall|j: int| 0 <= j < i ==> is_negated(#[trigger] fv[j]),
        decreases n - i,
    {
        let f = &filters[i];
        let neg = f.unicode_len() >= 1 && f.as_str().get_char(0) == '!';
        if !neg {
            proof {
                assert(!is_negated(fv[i as int]));
            }
            return true;
        }
        i += 1;
    }
    false
}

/// Plans a walk: splits the declarations into the bare-glob bucket and
/// the scoped copies, expands every template variable, drops degenerate
/// scopes and augments all-negative filter lists.
#[verifier::loop_isolation(false)]
pub fn plan_walk(
    defs: &Vec<CopyDef>,
    environment: &Environment,
    vars: &Vec<(String, String)>,
) -> (r: Result<WalkPlan, Error>)
    ensures
        match r {
            Ok(plan) => {
                let globs = simple_globs(defs.deep_view());
                let ks = kept_sets(scoped_sets(defs.deep_view()));
                &&& all_expand_ok(globs, *environment, vars@)
                &&& match plan.global {
                    Some(g) => globs.len() > 0 && g@ == (WalkScopeView {
                        from: None,
                        to: None,
                        filters: expand_seq(globs, *environment, vars@),
                    }),
                    None => globs.len() == 0,
                }
                &&& plan.scopes.deep_view() == Seq::new(
                    ks.len(),
                    |i: int| planned_scope(ks[i], *environment, vars@),
                )
                &&& forall|i: int| 0 <= i < ks.len() ==> all_expand_ok(
                    (#[trigger] ks[i]).filter,
                    *environment,
                    vars@,
                )
            },
            Err(e) => (e matches Error::UnknownTemplateVariable(_)
                || e matches Error::MissingEnvironmentVariable(_)),
        },
        r is Err <==> !(all_expand_ok(simple_globs(defs.deep_view()), *environment, vars@)
            && kept_filters_expand_ok(defs.deep_view(), *environment, vars@)),
{
    let (globs, sets) = split_defs(defs);
    let ghost gv = simple_globs(defs.deep_view());
    let expanded_globs = match expand_globs(&globs, environment, vars) {
        Ok(x) => x,
        Err(e) => {
            return Err(e);
        },
    };
    let global: Option<WalkScope> = if globs.len() > 0 {
        Some(WalkScope { from: None, to: None, filters: expanded_globs })
    } else {
        None
    };

    let ghost sv = scoped_sets(defs.deep_view());
    let ghost ks = kept_sets(sv);
    let mut scopes: Vec<WalkScope> = Vec::new();
    proof {
        assert(sv.take(0) =~= Seq::<FileSetView>::empty());
        assert(scopes.deep_view() =~= Seq::new(
            kept_sets(sv.take(0)).len(),
            |i: int| planned_scope(kept_sets(sv.take(0))[i], *environment, vars@),
        ));
    }
    let n = sets.len();
    let mut i: usize = 0;
    while i < n
        invariant
            i <= n,
            n == sets.len(),
            sets.deep_view() == sv,
            scopes.deep_view() == Seq::new(
                kept_sets(sv.take(i as int)).len(),
                |k: int| planned_scope(kept_sets(sv.take(i as int))[k], *environment, vars@),
            ),
            forall|k: int| 0 <= k < kept_sets(sv.take(i as int)).len() ==> all_expand_ok(
                (#[trigger] kept_sets(sv.take(i as int))[k]).filter,
                *environment,
                vars@,
            ),
        decreases n - i,
    {
        let fs: &FileSet = sets[i];
        proof {
            lemma_kept_sets_snoc(sv.take(i as int), sv[i as int]);
            assert(sv.take(i + 1 as int) =~= sv.take(i as int).push(sv[i as int]));
            assert(sets.deep_view()[i as int] == sets@[i as int]@);
            assert(sv[i as int] == fs@);
        }
        let degenerate = fs.filter.len() == 0 && match &fs.to {
            Some(_) => false,
            None => true,
        };
        if !degenerate {
            let mut expanded = match expand_globs(&fs.filter, environment, vars) {
                Ok(x) => x,
                Err(e) => {
                    proof {
                        let base = kept_sets(sv.take(i as int));
                        assert(kept_sets(sv.take(i + 1 as int)) =~= base.push(fs@));
                        assert(sv =~= sv.take(i + 1 as int) + sv.skip(i + 1 as int));
                        lemma_kept_sets_concat(sv.take(i + 1 as int), sv.skip(i + 1 as int));
                        assert(kept_sets(sv)[base.len() as int] == fs@);
                        assert(!all_expand_ok(fs@.filter, *environment, vars@));
                        assert(!kept_filters_expand_ok(defs.deep_view(), *environment, vars@));
                    }
                    return Err(e);
                },
            };
            if !any_positive(&expanded) {
                let ghost before = expanded.deep_view();
                let mut augmented: Vec<String> = Vec::new();
                augmented.push("**/*".to_owned());
                augmented.append(&mut expanded);
                proof {
                    assert(augmented.deep_view() =~= seq!["**/*"@] + before);
                }
                expanded = augmented;
            }
            let from_s: Option<String> = match fs.from() {
                Some(f) => Some(f.to_owned()),
                None => None,
            };
            let to_s: Option<String> = match fs.to() {
                Some(t) => Some(t.to_owned()),
                None => None,
            };
            let scope = WalkScope { from: from_s, to: to_s, filters: expanded };
            proof {
                assert(scope@ == planned_scope(fs@, *environment, vars@));
            }
            let ghost old_scopes = scopes.deep_view();
            scopes.push(scope);
            proof {
                assert(scopes.deep_view() =~= old_scopes.push(
                    planned_scope(fs@, *environment, vars@),
                ));
                assert(kept_sets(sv.take(i + 1 as int)) =~= kept_sets(sv.take(i as int)).push(
                    fs@,
                ));
                assert(scopes.deep_view() =~= Seq::new(
                    kept_sets(sv.take(i + 1 as int)).len(),
                    |k: int| planned_scope(
                        kept_sets(sv.take(i + 1 as int))[k],
                        *environment,
                        vars@,
                    ),
                ));
            }
        } else {
            proof {
                assert(kept_sets(sv.take(i + 1 as int)) =~= kept_sets(sv.take(i as int)));
                assert(scopes.deep_view() =~= Seq::new(
                    kept_sets(sv.take(i + 1 as int)).len(),
                    |k: int| planned_scope(
                        kept_sets(sv.take(i + 1 as int))[k],
                        *environment,
                        vars@,
                    ),
                ));
            }
        }
        i += 1;
    }
    proof {
        assert(sv.take(n as int) =~= sv);
    }
    Ok(WalkPlan { global, scopes })
}

/// The path a walked file is matched as: the scope root, a separator,
/// and the file's path under that root; with no scope root, the latter
/// alone.
pub open spec fn scope_candidate(from: Option<Seq<char>>, suffix: Seq<char>) -> Seq<char> {
    match from {
        Some(f) => f + "/"@ + suffix,
        None => suffix,
    }
}

/// Where a walked file lands: under `to` when given, else at its
/// matched path.
pub open spec fn scope_dest(
    from: Option<Seq<char>>,
    to: Option<Seq<char>>,
    suffix: Seq<char>,
) -> Seq<char> {
    match to {
        Some(t) => t + "/"@ + suffix,
        None => scope_candidate(from, suffix),
    }
}

/// The patterns of an optional matcher.
pub open spec fn unpack_patterns(u: Option<&Matcher>) -> Option<Seq<Seq<char>>> {
    match u {
        Some(m) => Some(m.patterns()),
        None => None,
    }
}

/// The triples a scope emits for a directory listing: each listed file
/// the patterns include, as its absolute source, its destination, and
/// whether the unpack patterns include it.
pub open spec fn spec_select(
    root: Seq<char>,
    from: Option<Seq<char>>,
    to: Option<Seq<char>>,
    listing: Seq<Seq<char>>,
    pats: Seq<Seq<char>>,
    upats: Option<Seq<Seq<char>>>,
) -> Seq<(Seq<char>, Seq<char>, bool)>
    decreases listing.len(),
{
    if listing.len() == 0 {
        Seq::empty()
    } else {
        let cand = scope_candidate(from, listing[0]);
        (if glob_include(pats, cand) {
            seq![
                (
                    spec_path_join(root, cand),
                    scope_dest(from, to, listing[0]),
                    match upats {
                        Some(u) => glob_include(u, cand),
                        None => false,
                    },
                ),
            ]
        } else {
            Seq::<(Seq<char>, Seq<char>, bool)>::empty()
        }) + spec_select(root, from, to, listing.drop_first(), pats, upats)
    }
}

proof fn lemma_spec_select_snoc(
    root: Seq<char>,
    from: Option<Seq<char>>,
    to: Option<Seq<char>>,
    listing: Seq<Seq<char>>,
    pats: Seq<Seq<char>>,
    upats: Option<Seq<Seq<char>>>,
    s: Seq<char>,
)
    ensures
        spec_select(root, from, to, listing.push(s), pats, upats) == spec_select(
            root,
            from,
            to,
            listing,
            pats,
            upats,
        ) + (if glob_include(pats, scope_candidate(from, s)) {
            seq![
                (
                    spec_path_join(root, scope_candidate(from, s)),
                    scope_dest(from, to, s),
                    match upats {
                        Some(u) => glob_include(u, scope_candidate(from, s)),
                        None => false,
                    },
                ),
            ]
        } else {
            Seq::<(Seq<char>, Seq<char>, bool)>::empty()
        }),
    decreases listing.len(),
{
    let tail: Seq<(Seq<char>, Seq<char>, bool)> = if glob_include(
        pats,
        scope_candidate(from, s),
    ) {
        seq![
            (
                spec_path_join(root, scope_candidate(from, s)),
                scope_dest(from, to, s),
                match upats {
                    Some(u) => glob_include(u, scope_candidate(from, s)),
                    None => false,
                },
            ),
        ]
    } else {
        Seq::empty()
    };
    if listing.len() == 0 {
        reveal_with_fuel(spec_select, 2);
        assert(listing.push(s).drop_first() =~= Seq::<Seq<char>>::empty());
        assert(spec_select(root, from, to, listing.push(s), pats, upats) =~= tail);
        assert(spec_select(root, from, to, listing, pats, upats) + tail =~= tail);
    } else {
        lemma_spec_select_snoc(root, from, to, listing.drop_first(), pats, upats, s);
        assert(listing.push(s).drop_first() =~= listing.drop_first().push(s));
        assert(spec_select(root, from, to, listing.push(s), pats, upats) =~= spec_select(
            root,
            from,
            to,
            listing,
            pats,
            upats,
        ) + tail);
    }
}

/// The scope root, a separator and the suffix; or the suffix alone.
fn candidate_of(from: &Option<String>, suffix: &str) -> (r: String)
    ensures
        r@ == scope_candidate(from.deep_view(), suffix@),
{
    match from {
        Some(f) => {
            let mut c = f.clone();
            c.append("/");
            c.append(suffix);
            c
        },
        None => suffix.to_owned(),
    }
}

/// Selects from one scope's directory listing the files its patterns
/// include, as `(source, destination, unpack)` triples, in listing order.
#[verifier::loop_isolation(false)]
pub fn select_scope(
    root: &str,
    scope: &WalkScope,
    matcher: &Matcher,
    unpack: Option<&Matcher>,
    listing: &Vec<String>,
) -> (r: Vec<(String, String, bool)>)
    requires
        matcher.patterns() == scope@.filters,
    ensures
        r.deep_view() == spec_select(
            root@,
            scope@.from,
            scope@.to,
            listing.deep_view(),
            scope@.filters,
            unpack_patterns(unpack),
        ),
{
    let ghost lv = listing.deep_view();
    let ghost pats = scope@.filters;
    let ghost upats = unpack_patterns(unpack);
    let mut out: Vec<(String, String, bool)> = Vec::new();
    proof {
        assert(lv.take(0) =~= Seq::<Seq<char>>::empty());
        assert(out.deep_view() =~= spec_select(root@, scope@.from, scope@.to, lv.take(0), pats,
            upats));
    }
    let n = listing.len();
    let mut i: usize = 0;
    while i < n
        invariant
            i <= n,
            n == listing.len(),
            lv == listing.deep_view(),
            matcher.patterns() == scope@.filters,
            pats == scope@.filters,
            upats == unpack_patterns(unpack),
            out.deep_view() == spec_select(
                root@,
                scope@.from,
                scope@.to,
                lv.take(i as int),
                pats,
                upats,
            ),
        decreases n - i,
    {
        proof {
            lemma_spec_select_snoc(
                root@,
                scope@.from,
                scope@.to,
                lv.take(i as int),
                pats,
                upats,
                lv[i as int],
            );
            assert(lv.take(i + 1 as int) =~= lv.take(i as int).push(lv[i as int]));
        }
        let suffix = &listing[i];
        let cand = candidate_of(&scope.from, suffix.as_str());
        if matcher.includes(cand.as_str()) {
            let source = path_join(root, cand.as_str());
            let dest: String = match &scope.to {
                Some(t) => {
                    let mut d = t.clone();
                    d.append("/");
                    d.append(suffix.as_str());
                    d
                },
                None => cand,
            };
            let unpack_flag = match unpack {
                Some(u) => u.includes(candidate_of(&scope.from, suffix.as_str()).as_str()),
                None => false,
            };
            out.push((source, dest, unpack_flag));
            proof {
                assert(out.deep_view() =~= spec_select(root@, scope@.from, scope@.to, lv.take(
                    i + 1 as int,
                ), pats, upats));
            }
        } else {
            proof {
                assert(out.deep_view() =~= spec_select(root@, scope@.from, scope@.to, lv.take(
                    i + 1 as int,
                ), pats, upats));
            }
        }
        i += 1;
    }
    proof {
        assert(lv.take(n as int) =~= lv);
    }
    out
}

/// Every emitted triple either lands at its own path under the root —
/// so the source is the root plus the destination — or comes from a
/// scope with a destination prefix, in which case the source is the
/// matched path under the root while the destination is the prefix,
/// a separator and the file's path under the scope root.
pub proof fn lemma_select_paths(
    root: Seq<char>,
    from: Option<Seq<char>>,
    to: Option<Seq<char>>,
    listing: Seq<Seq<char>>,
    pats: Seq<Seq<char>>,
    upats: Option<Seq<Seq<char>>>,
    i: int,
)
    requires
        0 <= i < spec_select(root, from, to, listing, pats, upats).len(),
    ensures
        ({
            let t = spec_select(root, from, to, listing, pats, upats)[i];
            match to {
                None => t.0 == spec_path_join(root, t.1),
                Some(tp) => exists|suffix: Seq<char>|
                    t.0 == spec_path_join(root, #[trigger] scope_candidate(from, suffix)) && t.1
                        == tp + "/"@ + suffix,
            }
        }),
    decreases listing.len(),
{
    let t = spec_select(root, from, to, listing, pats, upats)[i];
    let s = listing[0];
    let cand = scope_candidate(from, s);
    let head: Seq<(Seq<char>, Seq<char>, bool)> = if glob_include(pats, cand) {
        seq![
            (
                spec_path_join(root, cand),
                scope_dest(from, to, s),
                match upats {
                    Some(u) => glob_include(u, cand),
                    None => false,
                },
            ),
        ]
    } else {
        Seq::empty()
    };
    if i < head.len() {
        match to {
            None => {},
            Some(tp) => {
                assert(t.0 == spec_path_join(root, scope_candidate(from, s)) && t.1 == tp + "/"@
                    + s);
            },
        }
    } else {
        lemma_select_paths(root, from, to, listing.drop_first(), pats, upats, i - head.len());
    }
}

} // verus!
