//! What holds of merging fragments, and of an accepted graph, on every input.

use crate::builder::{collides, compile_errors, duplicate_errors, duplicate_message, merged};
use crate::config::Config;
use crate::resource::{claims, conflict_set, declared, holds, in_conflict, Claims, Resource};
use crate::validation::{
    category_missing, input_errors, missing_inputs, named_before, resolves, resource_errors,
    resource_errors_upto, sink_inputs, transform_inputs,
};
use vstd::prelude::*;

verus! {

/// The names of `incoming` that `held` holds already, in the order of
/// `incoming`.
pub open spec fn colliding_names(held: Seq<Seq<char>>, incoming: Seq<Seq<char>>) -> Seq<
    Seq<char>,
> {
    incoming.filter(|name: Seq<char>| held.contains(name))
}

/// A merge reports every colliding name, once for each time the fragment
/// declares it, in the order of declaration, and reports nothing else.
pub proof fn law_collisions_reported_in_order(
    category: Seq<char>,
    held: Seq<Seq<char>>,
    incoming: Seq<Seq<char>>,
)
    ensures
        duplicate_errors(category, held, incoming) == colliding_names(held, incoming).map_values(
            |name: Seq<char>| duplicate_message(category, name),
        ),
    decreases incoming.len(),
{
    reveal(Seq::filter);
    let report = |name: Seq<char>| duplicate_message(category, name);
    let taken = |name: Seq<char>| held.contains(name);
    if incoming.len() == 0 {
        assert(duplicate_errors(category, held, incoming) =~= incoming.filter(taken).map_values(
            report,
        ));
    } else {
        law_collisions_reported_in_order(category, held, incoming.drop_last());
        assert(duplicate_errors(category, held, incoming) =~= incoming.filter(taken).map_values(
            report,
        ));
    }
}

/// Every colliding name has its report.
pub proof fn law_every_collision_reported(
    category: Seq<char>,
    held: Seq<Seq<char>>,
    incoming: Seq<Seq<char>>,
    i: int,
)
    requires
        0 <= i < incoming.len(),
        held.contains(incoming[i]),
    ensures
        duplicate_errors(category, held, incoming).contains(
            duplicate_message(category, incoming[i]),
        ),
    decreases incoming.len(),
{
    let front = incoming.drop_last();
    let errors = duplicate_errors(category, held, incoming);
    if i == incoming.len() - 1 {
        assert(errors[errors.len() - 1] == duplicate_message(category, incoming[i]));
    } else {
        law_every_collision_reported(category, held, front, i);
        let earlier = duplicate_errors(category, held, front);
        let k = choose|k: int|
            0 <= k < earlier.len() && earlier[k] == duplicate_message(category, front[i]);
        assert(errors[k] == duplicate_message(category, incoming[i]));
    }
}

/// A category in which a name collides holds after the merge what it held
/// before; one without a collision holds what it held, followed by what came
/// in.
pub proof fn law_collision_leaves_category<A>(
    held_names: Seq<Seq<char>>,
    incoming_names: Seq<Seq<char>>,
    held: Seq<A>,
    incoming: Seq<A>,
    i: int,
)
    requires
        0 <= i < incoming_names.len(),
        held_names.contains(incoming_names[i]),
    ensures
        merged(held_names, incoming_names, held, incoming) == held,
{
    assert(collides(held_names, incoming_names));
}

/// No report on a component's inputs means that each of them leads
/// somewhere.
pub proof fn lemma_no_missing_inputs<S, K, T>(
    config: &Config<S, K, T>,
    kind: Seq<char>,
    name: Seq<char>,
    inputs: Seq<Seq<char>>,
)
    ensures
        missing_inputs(config, kind, name, inputs).len() == 0 <==> forall|j: int|
            0 <= j < inputs.len() ==> resolves(config, #[trigger] inputs[j]),
    decreases inputs.len(),
{
    if inputs.len() > 0 {
        let front = inputs.drop_last();
        lemma_no_missing_inputs(config, kind, name, front);
        if missing_inputs(config, kind, name, inputs).len() == 0 {
            assert forall|j: int| 0 <= j < inputs.len() implies resolves(
                config,
                #[trigger] inputs[j],
            ) by {
                if j < front.len() {
                    assert(front[j] == inputs[j]);
                }
            }
        }
        if forall|j: int| 0 <= j < inputs.len() ==> resolves(config, #[trigger] inputs[j]) {
            assert forall|j: int| 0 <= j < front.len() implies resolves(
                config,
                #[trigger] front[j],
            ) by {
                assert(front[j] == inputs[j]);
            }
            assert(resolves(config, inputs[inputs.len() - 1]));
        }
    }
}

/// No report on the first `n` components of a category means that every
/// input of each of them leads somewhere.
pub proof fn lemma_no_missing_in_category<S, K, T>(
    config: &Config<S, K, T>,
    kind: Seq<char>,
    names: Seq<Seq<char>>,
    inputs: Seq<Seq<Seq<char>>>,
    n: nat,
)
    ensures
        category_missing(config, kind, names, inputs, n).len() == 0 <==> forall|i: int, j: int|
            0 <= i < n && 0 <= j < inputs[i].len() ==> resolves(config, #[trigger] inputs[i][j]),
    decreases n,
{
    if n > 0 {
        lemma_no_missing_in_category(config, kind, names, inputs, (n - 1) as nat);
        lemma_no_missing_inputs(config, kind, names[n - 1], inputs[n - 1]);
    }
}

/// In a graph without a report on its inputs, every input that a sink or a
/// transform declares leads, after the lookup of expansions, to a source or
/// a transform.
pub proof fn law_accepted_inputs_resolve<S, K, T>(config: &Config<S, K, T>)
    requires
        config.wf(),
        input_errors(config).len() == 0,
    ensures
        forall|i: int, j: int|
            0 <= i < config.sinks.values().len() && 0 <= j < config.sinks.values()[i].inputs@.len()
                ==> resolves(config, #[trigger] config.sinks.values()[i].inputs@[j]@),
        forall|i: int, j: int|
            0 <= i < config.transforms.values().len() && 0 <= j
                < config.transforms.values()[i].inputs@.len() ==> resolves(
                config,
                #[trigger] config.transforms.values()[i].inputs@[j]@,
            ),
{
    let of_sinks = sink_inputs(config.sinks.values());
    let of_transforms = transform_inputs(config.transforms.values());
    lemma_no_missing_in_category(
        config,
        "sink"@,
        config.sinks.keys(),
        of_sinks,
        config.sinks.keys().len(),
    );
    lemma_no_missing_in_category(
        config,
        "transform"@,
        config.transforms.keys(),
        of_transforms,
        config.transforms.keys().len(),
    );
    assert forall|i: int, j: int|
        0 <= i < config.sinks.values().len() && 0 <= j
            < config.sinks.values()[i].inputs@.len() implies resolves(
        config,
        #[trigger] config.sinks.values()[i].inputs@[j]@,
    ) by {
        assert(of_sinks[i][j] == config.sinks.values()[i].inputs@[j]@);
    }
    assert forall|i: int, j: int|
        0 <= i < config.transforms.values().len() && 0 <= j
            < config.transforms.values()[i].inputs@.len() implies resolves(
        config,
        #[trigger] config.transforms.values()[i].inputs@[j]@,
    ) by {
        assert(of_transforms[i][j] == config.transforms.values()[i].inputs@[j]@);
    }
}

/// The reports on resources only grow as more components are looked at.
pub proof fn lemma_resource_errors_grow(components: Claims, m: nat, n: nat)
    requires
        m <= n,
    ensures
        resource_errors_upto(components, m).len() <= resource_errors_upto(components, n).len(),
    decreases n,
{
    if m < n {
        lemma_resource_errors_grow(components, m, (n - 1) as nat);
    }
}

/// A component in conflict among the first `n` makes for a report, and
/// without one there is none.
pub proof fn lemma_resource_errors_iff_conflict(components: Claims, n: nat)
    requires
        n <= components.len(),
    ensures
        resource_errors_upto(components, n).len() > 0 <==> exists|j: int|
            0 <= j < n && in_conflict(components, (#[trigger] components[j]).0),
    decreases n,
{
    if n > 0 {
        let m = (n - 1) as nat;
        lemma_resource_errors_iff_conflict(components, m);
        lemma_resource_errors_grow(components, m, n);
        let name = components[n - 1].0;
        if exists|j: int| 0 <= j < n && in_conflict(components, (#[trigger] components[j]).0) {
            let j = choose|j: int| 0 <= j < n && in_conflict(components, (#[trigger] components[j]).0);
            if j == n - 1 && resource_errors_upto(components, m).len() == 0 {
                if named_before(components, n - 1, name) {
                    let k = choose|k: int| 0 <= k < n - 1 && (#[trigger] components[k]).0 == name;
                    assert(0 <= k < m && in_conflict(components, components[k].0));
                }
            } else if j < n - 1 {
                assert(0 <= j < m && in_conflict(components, components[j].0));
            }
        }
        if resource_errors_upto(components, n).len() > 0 {
            if resource_errors_upto(components, m).len() > 0 {
                let j = choose|j: int| 0 <= j < m && in_conflict(components, (#[trigger] components[j]).0);
                assert(0 <= j < n && in_conflict(components, components[j].0));
            } else {
                assert(0 <= n - 1 < n && in_conflict(components, components[n - 1].0));
            }
        }
    }
}

/// There is a report on resources exactly when some component is in
/// conflict with another.
pub proof fn law_resource_report_iff_conflict(components: Claims)
    ensures
        resource_errors(components).len() == 0 <==> conflict_set(components) == Set::<Seq<char>>::empty(),
{
    lemma_resource_errors_iff_conflict(components, components.len());
    if resource_errors(components).len() == 0 {
        assert forall|name: Seq<char>| !in_conflict(components, name) by {
            if in_conflict(components, name) {
                let (r, other) = choose|r: Resource, other: Seq<char>|
                    other != name && declared(components, r) && claims(components, name, r)
                        && #[trigger] claims(components, other, r);
                let i = choose|i: int|
                    0 <= i < components.len() && (#[trigger] components[i]).0 == name && holds(
                        components[i].1,
                        r,
                    );
                assert(0 <= i < components.len() && in_conflict(components, components[i].0));
            }
        }
        assert(conflict_set(components) =~= Set::<Seq<char>>::empty());
    }
    if conflict_set(components) == Set::<Seq<char>>::empty() {
        if resource_errors(components).len() > 0 {
            let j = choose|j: int|
                0 <= j < components.len() && in_conflict(components, (#[trigger] components[j]).0);
            assert(conflict_set(components).contains(components[j].0));
        }
    }
}

/// A graph is accepted only if its expansion reported nothing, every input
/// of its sinks and transforms leads somewhere, and no two of its components
/// are in conflict over a resource.
pub proof fn law_accepted_graph<S, K, T>(
    candidate: &Config<S, K, T>,
    expansion_errors: Seq<Seq<char>>,
    components: Claims,
)
    requires
        candidate.wf(),
    ensures
        compile_errors(candidate, expansion_errors, components).len() == 0 <==> {
            &&& expansion_errors.len() == 0
            &&& input_errors(candidate).len() == 0
            &&& conflict_set(components) == Set::<Seq<char>>::empty()
        },
{
    law_resource_report_iff_conflict(components);
}

} // verus!
