//! What is checked of a graph before it is accepted: that every declared
//! input leads somewhere, and that no two components claim one resource.

use crate::config::{names_view, Config, SinkConfig, SinkOuter, SourceConfig, TransformOuter};
use crate::resource::{claims_view, in_conflict, Claims, Resource};
use crate::table::Table;
use vstd::hash_set::StringHashSet;
use vstd::prelude::*;
use vstd::string::StringExecFns;

verus! {

/// A source or a transform of this name exists, so events come out of it.
pub open spec fn has_output<S, K, T>(config: &Config<S, K, T>, name: Seq<char>) -> bool {
    config.sources.keys().contains(name) || config.transforms.keys().contains(name)
}

/// Every name that stands for `input` has an output.
pub open spec fn resolves<S, K, T>(config: &Config<S, K, T>, input: Seq<char>) -> bool {
    forall|i: int|
        0 <= i < config.spec_inputs(input).len() ==> has_output(
            config,
            #[trigger] config.spec_inputs(input)[i],
        )
}

/// The text that reports an input that leads nowhere.
pub open spec fn missing_input_message(input: Seq<char>, kind: Seq<char>, name: Seq<char>) -> Seq<
    char,
> {
    "Input \""@ + input + "\" for "@ + kind + " \""@ + name + "\" doesn't exist."@
}

/// The reports for those of one component's inputs that lead nowhere, in the
/// order of the inputs.
pub open spec fn missing_inputs<S, K, T>(
    config: &Config<S, K, T>,
    kind: Seq<char>,
    name: Seq<char>,
    inputs: Seq<Seq<char>>,
) -> Seq<Seq<char>>
    decreases inputs.len(),
{
    if inputs.len() == 0 {
        Seq::empty()
    } else {
        let earlier = missing_inputs(config, kind, name, inputs.drop_last());
        if resolves(config, inputs.last()) {
            earlier
        } else {
            earlier.push(missing_input_message(inputs.last(), kind, name))
        }
    }
}

/// The reports for the first `n` components of one category, component by
/// component.
pub open spec fn category_missing<S, K, T>(
    config: &Config<S, K, T>,
    kind: Seq<char>,
    names: Seq<Seq<char>>,
    inputs: Seq<Seq<Seq<char>>>,
    n: nat,
) -> Seq<Seq<char>>
    decreases n,
{
    if n == 0 {
        Seq::empty()
    } else {
        category_missing(config, kind, names, inputs, (n - 1) as nat) + missing_inputs(
            config,
            kind,
            names[n - 1],
            inputs[n - 1],
        )
    }
}

/// The inputs that each sink declares.
pub open spec fn sink_inputs<K>(sinks: Seq<SinkOuter<K>>) -> Seq<Seq<Seq<char>>> {
    sinks.map_values(|sink: SinkOuter<K>| names_view(sink.inputs@))
}

/// The inputs that each transform declares.
pub open spec fn transform_inputs<T>(transforms: Seq<TransformOuter<T>>) -> Seq<Seq<Seq<char>>> {
    transforms.map_values(|transform: TransformOuter<T>| names_view(transform.inputs@))
}

/// All reports of inputs that lead nowhere: those of the sinks, then those of
/// the transforms, each in declaration order.
pub open spec fn input_errors<S, K, T>(config: &Config<S, K, T>) -> Seq<Seq<char>> {
    category_missing(
        config,
        "sink"@,
        config.sinks.keys(),
        sink_inputs(config.sinks.values()),
        config.sinks.keys().len(),
    ) + category_missing(
        config,
        "transform"@,
        config.transforms.keys(),
        transform_inputs(config.transforms.values()),
        config.transforms.keys().len(),
    )
}

/// Decides `resolves`.
pub fn input_resolves<S, K, T>(config: &Config<S, K, T>, input: &str) -> (found: bool)
    requires
        config.wf(),
    ensures
        found == resolves(config, input@),
{
    let names = config.get_inputs(input);
    let mut i: usize = 0;
    while i < names.len()
        invariant
            config.wf(),
            i <= names.len(),
            names_view(names@) == config.spec_inputs(input@),
            forall|k: int|
                0 <= k < i ==> has_output(config, #[trigger] config.spec_inputs(input@)[k]),
        decreases names.len() - i,
    {
        assert(names_view(names@)[i as int] == names@[i as int]@);
        let name = names[i].as_str();
        if !config.sources.contains_key(name) && !config.transforms.contains_key(name) {
            assert(!has_output(config, config.spec_inputs(input@)[i as int]));
            return false;
        }
        i += 1;
    }
    assert(names_view(names@).len() == names@.len());
    true
}

/// The text of one report of an input that leads nowhere.
pub fn missing_input_report(input: &str, kind: &str, name: &str) -> (report: String)
    ensures
        report@ == missing_input_message(input@, kind@, name@),
{
    String::from_str("Input \"").concat(input).concat("\" for ").concat(kind).concat(" \"").concat(
        name,
    ).concat("\" doesn't exist.")
}

/// Appends to `errors` a report for each of `inputs` that leads nowhere.
pub fn check_component_inputs<S, K, T>(
    config: &Config<S, K, T>,
    kind: &str,
    name: &str,
    inputs: &Vec<String>,
    errors: &mut Vec<String>,
)
    requires
        config.wf(),
    ensures
        names_view(final(errors)@) == names_view(old(errors)@) + missing_inputs(
            config,
            kind@,
            name@,
            names_view(inputs@),
        ),
{
    let ghost all = names_view(inputs@);
    let mut i: usize = 0;
    assert(all.subrange(0, 0) =~= Seq::<Seq<char>>::empty());
    assert(names_view(errors@) =~= names_view(old(errors)@) + Seq::<Seq<char>>::empty());
    while i < inputs.len()
        invariant
            config.wf(),
            i <= inputs.len(),
            all == names_view(inputs@),
            names_view(errors@) == names_view(old(errors)@) + missing_inputs(
                config,
                kind@,
                name@,
                all.subrange(0, i as int),
            ),
        decreases inputs.len() - i,
    {
        let input = inputs[i].as_str();
        let ghost shown = names_view(errors@);
        let ghost next = all.subrange(0, i as int + 1);
        assert(next.drop_last() =~= all.subrange(0, i as int));
        assert(next.last() == input@);
        if !input_resolves(config, input) {
            errors.push(missing_input_report(input, kind, name));
            assert(names_view(errors@) =~= shown.push(
                missing_input_message(input@, kind@, name@),
            ));
        }
        assert(names_view(errors@) =~= names_view(old(errors)@) + missing_inputs(
            config,
            kind@,
            name@,
            next,
        ));
        i += 1;
    }
    assert(all.subrange(0, i as int) =~= all);
}

/// Reports every declared input that, after the lookup of expansions, names
/// neither a source nor a transform.
pub fn check_inputs<S, K, T>(config: &Config<S, K, T>) -> (errors: Vec<String>)
    requires
        config.wf(),
    ensures
        names_view(errors@) == input_errors(config),
{
    let mut errors: Vec<String> = Vec::new();
    let ghost of_sinks = sink_inputs(config.sinks.values());
    let ghost of_transforms = transform_inputs(config.transforms.values());
    assert(names_view(errors@) =~= Seq::<Seq<char>>::empty());
    let mut i: usize = 0;
    while i < config.sinks.len()
        invariant
            config.wf(),
            i <= config.sinks.keys().len(),
            of_sinks == sink_inputs(config.sinks.values()),
            names_view(errors@) == category_missing(
                config,
                "sink"@,
                config.sinks.keys(),
                of_sinks,
                i as nat,
            ),
        decreases config.sinks.keys().len() - i,
    {
        let name = config.sinks.key_at(i);
        let sink = config.sinks.value_at(i);
        check_component_inputs(config, "sink", name.as_str(), &sink.inputs, &mut errors);
        i += 1;
    }
    let ghost of_the_sinks = names_view(errors@);
    assert(names_view(errors@) =~= of_the_sinks + Seq::<Seq<char>>::empty());
    let mut j: usize = 0;
    while j < config.transforms.len()
        invariant
            config.wf(),
            j <= config.transforms.keys().len(),
            of_transforms == transform_inputs(config.transforms.values()),
            names_view(errors@) == of_the_sinks + category_missing(
                config,
                "transform"@,
                config.transforms.keys(),
                of_transforms,
                j as nat,
            ),
        decreases config.transforms.keys().len() - j,
    {
        let name = config.transforms.key_at(j);
        let transform = config.transforms.value_at(j);
        let ghost shown = names_view(errors@);
        check_component_inputs(
            config,
            "transform",
            name.as_str(),
            &transform.inputs,
            &mut errors,
        );
        assert(names_view(errors@) =~= of_the_sinks + category_missing(
            config,
            "transform"@,
            config.transforms.keys(),
            of_transforms,
            (j + 1) as nat,
        ));
        j += 1;
    }
    errors
}

/// Some component before position `k` has this name.
pub open spec fn named_before(claims: Claims, k: int, name: Seq<char>) -> bool {
    exists|j: int| 0 <= j < k && (#[trigger] claims[j]).0 == name
}

/// The text that reports a component whose resources another component
/// claims too.
pub open spec fn conflict_message(name: Seq<char>) -> Seq<char> {
    "Component \""@ + name + "\" claims a resource that another component claims as well."@
}

/// The reports on the first `n` components: one for each name that is in
/// conflict, where it is first declared.
pub open spec fn resource_errors_upto(claims: Claims, n: nat) -> Seq<Seq<char>>
    decreases n,
{
    if n == 0 {
        Seq::empty()
    } else {
        let earlier = resource_errors_upto(claims, (n - 1) as nat);
        let name = claims[n - 1].0;
        if in_conflict(claims, name) && !named_before(claims, n - 1, name) {
            earlier.push(conflict_message(name))
        } else {
            earlier
        }
    }
}

/// One report for each name in conflict, in declaration order.
pub open spec fn resource_errors(claims: Claims) -> Seq<Seq<char>> {
    resource_errors_upto(claims, claims.len())
}

/// The text of one report of a conflict.
pub fn conflict_report(name: &str) -> (report: String)
    ensures
        report@ == conflict_message(name@),
{
    String::from_str("Component \"").concat(name).concat(
        "\" claims a resource that another component claims as well.",
    )
}

/// Reports every component that claims a resource which a component of
/// another name claims as well.
pub fn check_resources(components: &Vec<(String, Vec<Resource>)>) -> (errors: Vec<String>)
    ensures
        names_view(errors@) == resource_errors(claims_view(components@)),
{
    let ghost cv = claims_view(components@);
    let conflicting = Resource::conflicts_among(components);
    let mut seen = StringHashSet::new();
    let mut errors: Vec<String> = Vec::new();
    assert(names_view(errors@) =~= Seq::<Seq<char>>::empty());
    let mut i: usize = 0;
    while i < components.len()
        invariant
            i <= components.len(),
            cv == claims_view(components@),
            cv.len() == components@.len(),
            forall|name: Seq<char>|
                #![trigger in_conflict(cv, name)]
                conflicting@.contains(name) <==> in_conflict(cv, name),
            forall|name: Seq<char>|
                #![trigger seen@.contains(name)]
                seen@.contains(name) <==> named_before(cv, i as int, name),
            names_view(errors@) == resource_errors_upto(cv, i as nat),
        decreases components.len() - i,
    {
        assert(cv[i as int] == (components@[i as int].0@, components@[i as int].1@));
        let name = components[i].0.as_str();
        let ghost shown = names_view(errors@);
        if conflicting.contains(name) && !seen.contains(name) {
            errors.push(conflict_report(name));
            assert(names_view(errors@) =~= shown.push(conflict_message(name@)));
        }
        seen.insert(components[i].0.clone());
        proof {
            assert forall|other: Seq<char>|
                #![trigger seen@.contains(other)]
                seen@.contains(other) <==> named_before(cv, i as int + 1, other) by {
                if named_before(cv, i as int + 1, other) {
                    let j = choose|j: int| 0 <= j < i + 1 && (#[trigger] cv[j]).0 == other;
                    if j < i {
                        assert(named_before(cv, i as int, other));
                    }
                }
                if named_before(cv, i as int, other) {
                    let j = choose|j: int| 0 <= j < i && (#[trigger] cv[j]).0 == other;
                    assert(0 <= j < i + 1 && cv[j].0 == other);
                }
                if other == name@ {
                    assert(0 <= i < i + 1 && cv[i as int].0 == other);
                }
            }
        }
        i += 1;
    }
    errors
}

/// Asks every source and every sink for the resources it claims: the
/// sources first, then the sinks, each under its name.
pub fn gather_claims<S: SourceConfig, K: SinkConfig>(
    sources: &Table<S>,
    sinks: &Table<SinkOuter<K>>,
) -> (components: Vec<(String, Vec<Resource>)>)
    requires
        sources.wf(),
        sinks.wf(),
    ensures
        components@.len() == sources.keys().len() + sinks.keys().len(),
        forall|i: int|
            0 <= i < sources.keys().len() ==> (#[trigger] components@[i]).0@ == sources.keys()[i],
        forall|i: int|
            0 <= i < sinks.keys().len() ==> (#[trigger] components@[sources.keys().len()
                + i]).0@ == sinks.keys()[i],
{
    let mut components: Vec<(String, Vec<Resource>)> = Vec::new();
    let mut i: usize = 0;
    while i < sources.len()
        invariant
            sources.wf(),
            i <= sources.keys().len(),
            components@.len() == i,
            forall|k: int| 0 <= k < i ==> (#[trigger] components@[k]).0@ == sources.keys()[k],
        decreases sources.keys().len() - i,
    {
        let claimed = sources.value_at(i).resources();
        components.push((sources.key_at(i).clone(), claimed));
        i += 1;
    }
    let mut j: usize = 0;
    while j < sinks.len()
        invariant
            sources.wf(),
            sinks.wf(),
            j <= sinks.keys().len(),
            components@.len() == sources.keys().len() + j,
            forall|k: int|
                0 <= k < sources.keys().len() ==> (#[trigger] components@[k]).0@
                    == sources.keys()[k],
            forall|k: int|
                0 <= k < j ==> (#[trigger] components@[sources.keys().len() + k]).0@
                    == sinks.keys()[k],
        decreases sinks.keys().len() - j,
    {
        let claimed = sinks.value_at(j).inner.resources();
        components.push((sinks.key_at(j).clone(), claimed));
        j += 1;
    }
    components
}

} // verus!
