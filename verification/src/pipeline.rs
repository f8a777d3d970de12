//! From built components to a pipeline that may start: all of it, or none.

use crate::component::Category;
use crate::config::names_view;
use crate::sequence::reversed;
use vstd::prelude::*;
use vstd::string::StringExecFns;

verus! {

/// The text that reports a component that could not be built.
pub open spec fn build_failure_message(kind: Seq<char>, name: Seq<char>, reason: Seq<char>) -> Seq<
    char,
> {
    kind + " \""@ + name + "\": "@ + reason
}

pub fn build_failure_report(kind: &str, name: &str, reason: &str) -> (report: String)
    ensures
        report@ == build_failure_message(kind@, name@, reason@),
{
    String::from_str(kind).concat(" \"").concat(name).concat("\": ").concat(reason)
}

/// The stages among the first `n` attempts that were built, in order.
pub open spec fn built_stages<R>(attempts: Seq<(String, Result<R, String>)>, n: nat) -> Seq<
    (String, R),
>
    decreases n,
{
    if n == 0 || n > attempts.len() {
        Seq::empty()
    } else {
        let earlier = built_stages(attempts, (n - 1) as nat);
        match attempts[n - 1].1 {
            Ok(stage) => earlier.push((attempts[n - 1].0, stage)),
            Err(_) => earlier,
        }
    }
}

/// The reports on those among the first `n` attempts that failed, in order.
pub open spec fn build_errors<R>(
    kind: Seq<char>,
    attempts: Seq<(String, Result<R, String>)>,
    n: nat,
) -> Seq<Seq<char>>
    decreases n,
{
    if n == 0 || n > attempts.len() {
        Seq::empty()
    } else {
        let earlier = build_errors(kind, attempts, (n - 1) as nat);
        match attempts[n - 1].1 {
            Ok(_) => earlier,
            Err(reason) => earlier.push(build_failure_message(kind, attempts[n - 1].0@, reason@)),
        }
    }
}

/// Sorts the attempts to build the components of one category: the stages
/// that were built go behind `stages`, a report on each failure behind
/// `errors`, both in the order of the attempts.
pub fn sort_attempts<R>(
    category: Category,
    attempts: Vec<(String, Result<R, String>)>,
    stages: &mut Vec<(String, R)>,
    errors: &mut Vec<String>,
)
    ensures
        final(stages)@ == old(stages)@ + built_stages(attempts@, attempts@.len()),
        names_view(final(errors)@) == names_view(old(errors)@) + build_errors(
            category.spec_name(),
            attempts@,
            attempts@.len(),
        ),
{
    let ghost total = attempts@.len();
    let mut stack = reversed(attempts);
    assert(stages@ =~= old(stages)@ + built_stages(attempts@, 0));
    assert(names_view(errors@) =~= names_view(old(errors)@) + build_errors(
        category.spec_name(),
        attempts@,
        0,
    ));
    while stack.len() > 0
        invariant
            total == attempts@.len(),
            stack@.len() <= total,
            stack@ == attempts@.reverse().subrange(0, stack@.len() as int),
            stages@ == old(stages)@ + built_stages(attempts@, (total - stack@.len()) as nat),
            names_view(errors@) == names_view(old(errors)@) + build_errors(
                category.spec_name(),
                attempts@,
                (total - stack@.len()) as nat,
            ),
        decreases stack@.len(),
    {
        let ghost done = total - stack@.len();
        let ghost before = stack@;
        let ghost shown = names_view(errors@);
        let (name, attempt) = stack.pop().unwrap();
        proof {
            assert(stack@ =~= attempts@.reverse().subrange(0, stack@.len() as int));
            assert((name, attempt) == attempts@.reverse()[before.len() - 1]);
            assert((name, attempt) == attempts@[done]);
        }
        match attempt {
            Ok(stage) => {
                stages.push((name, stage));
            },
            Err(reason) => {
                errors.push(build_failure_report(category.name(), name.as_str(), reason.as_str()));
                assert(names_view(errors@) =~= shown.push(
                    build_failure_message(category.spec_name(), name@, reason@),
                ));
            },
        }
        assert(stages@ =~= old(stages)@ + built_stages(attempts@, (done + 1) as nat));
        assert(names_view(errors@) =~= names_view(old(errors)@) + build_errors(
            category.spec_name(),
            attempts@,
            (done + 1) as nat,
        ));
    }
}

/// The stages of a pipeline, by category, each under its component's name.
pub struct Pieces<A, B, C> {
    pub sources: Vec<(String, A)>,
    pub transforms: Vec<(String, B)>,
    pub sinks: Vec<(String, C)>,
}

/// Every report on a component that could not be built: sources first,
/// then transforms, then sinks.
pub open spec fn assembly_errors<A, B, C>(
    sources: Seq<(String, Result<A, String>)>,
    transforms: Seq<(String, Result<B, String>)>,
    sinks: Seq<(String, Result<C, String>)>,
) -> Seq<Seq<char>> {
    build_errors("source"@, sources, sources.len()) + build_errors(
        "transform"@,
        transforms,
        transforms.len(),
    ) + build_errors("sink"@, sinks, sinks.len())
}

/// Puts together the pipeline from the attempts to build each component.
/// The pipeline comes together only if every component was built: one
/// failure refuses it whole, with a report on each failure.
pub fn assemble<A, B, C>(
    sources: Vec<(String, Result<A, String>)>,
    transforms: Vec<(String, Result<B, String>)>,
    sinks: Vec<(String, Result<C, String>)>,
) -> (result: Result<Pieces<A, B, C>, Vec<String>>)
    ensures
        match result {
            Ok(pieces) => {
                &&& assembly_errors(sources@, transforms@, sinks@).len() == 0
                &&& pieces.sources@ == built_stages(sources@, sources@.len())
                &&& pieces.transforms@ == built_stages(transforms@, transforms@.len())
                &&& pieces.sinks@ == built_stages(sinks@, sinks@.len())
            },
            Err(errors) => errors@.len() > 0 && names_view(errors@) == assembly_errors(
                sources@,
                transforms@,
                sinks@,
            ),
        },
{
    let mut errors: Vec<String> = Vec::new();
    let mut pieces = Pieces { sources: Vec::new(), transforms: Vec::new(), sinks: Vec::new() };
    assert(names_view(errors@) =~= Seq::<Seq<char>>::empty());
    sort_attempts(Category::Source, sources, &mut pieces.sources, &mut errors);
    sort_attempts(Category::Transform, transforms, &mut pieces.transforms, &mut errors);
    sort_attempts(Category::Sink, sinks, &mut pieces.sinks, &mut errors);
    proof {
        assert(names_view(errors@) =~= assembly_errors(sources@, transforms@, sinks@));
        assert(names_view(errors@).len() == errors@.len());
        assert(pieces.sources@ =~= built_stages(sources@, sources@.len()));
        assert(pieces.transforms@ =~= built_stages(transforms@, transforms@.len()));
        assert(pieces.sinks@ =~= built_stages(sinks@, sinks@.len()));
    }
    if errors.len() == 0 {
        Ok(pieces)
    } else {
        Err(errors)
    }
}

/// Where nothing failed, every component has its stage.
pub proof fn law_all_or_nothing<R>(kind: Seq<char>, attempts: Seq<(String, Result<R, String>)>, n: nat)
    requires
        n <= attempts.len(),
    ensures
        build_errors(kind, attempts, n).len() + built_stages(attempts, n).len() == n,
        build_errors(kind, attempts, n).len() == 0 <==> forall|i: int|
            0 <= i < n ==> (#[trigger] attempts[i]).1 is Ok,
    decreases n,
{
    if n > 0 {
        law_all_or_nothing(kind, attempts, (n - 1) as nat);
    }
}

} // verus!
