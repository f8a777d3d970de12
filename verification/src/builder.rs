//! Assembling a configuration graph from fragments.

use crate::config::{
    data_dir_unset, merged_key, names_view, Config, GlobalOptions, SinkConfig, SinkOuter,
    SourceConfig, TestDefinition, TransformConfig, TransformOuter,
};
use crate::expand::{all_held, expand_macros, EXPANSION_DEPTH_LIMIT};
use crate::resource::{claims_view, Claims, Resource};
use crate::table::Table;
use crate::validation::{
    check_inputs, check_resources, gather_claims, input_errors, resource_errors,
};
use vstd::prelude::*;
use vstd::string::StringExecFns;

verus! {

/// The text that reports a name that a fragment and the graph both hold.
pub open spec fn duplicate_message(category: Seq<char>, name: Seq<char>) -> Seq<char> {
    "duplicate "@ + category + " name found: "@ + name
}

/// The reports for the names of `incoming` that `held` holds already, one for
/// each such name, in the order of `incoming`.
pub open spec fn duplicate_errors(
    category: Seq<char>,
    held: Seq<Seq<char>>,
    incoming: Seq<Seq<char>>,
) -> Seq<Seq<char>>
    decreases incoming.len(),
{
    if incoming.len() == 0 {
        Seq::empty()
    } else {
        let earlier = duplicate_errors(category, held, incoming.drop_last());
        if held.contains(incoming.last()) {
            earlier.push(duplicate_message(category, incoming.last()))
        } else {
            earlier
        }
    }
}

/// Some name of `incoming` is held already.
pub open spec fn collides(held: Seq<Seq<char>>, incoming: Seq<Seq<char>>) -> bool {
    exists|i: int| 0 <= i < incoming.len() && held.contains(#[trigger] incoming[i])
}

/// There is a report exactly when there is a collision.
pub proof fn lemma_errors_iff_collision(
    category: Seq<char>,
    held: Seq<Seq<char>>,
    incoming: Seq<Seq<char>>,
)
    ensures
        duplicate_errors(category, held, incoming).len() > 0 <==> collides(held, incoming),
    decreases incoming.len(),
{
    if incoming.len() > 0 {
        let front = incoming.drop_last();
        lemma_errors_iff_collision(category, held, front);
        if collides(held, front) {
            let i = choose|i: int| 0 <= i < front.len() && held.contains(#[trigger] front[i]);
            assert(held.contains(incoming[i]));
        }
        if collides(held, incoming) {
            let i = choose|i: int| 0 <= i < incoming.len() && held.contains(#[trigger] incoming[i]);
            if i < front.len() {
                assert(held.contains(front[i]));
            }
        }
        if held.contains(incoming.last()) {
            assert(held.contains(incoming[incoming.len() - 1]));
        }
    }
}

/// The text of one report.
pub fn duplicate_report(category: &str, name: &str) -> (report: String)
    ensures
        report@ == duplicate_message(category@, name@),
{
    String::from_str("duplicate ").concat(category).concat(" name found: ").concat(name)
}

/// Appends to `errors` a report for each name of `incoming` that `held` holds.
pub fn report_duplicates<V, W>(
    held: &Table<V>,
    incoming: &Table<W>,
    category: &str,
    errors: &mut Vec<String>,
)
    requires
        held.wf(),
        incoming.wf(),
    ensures
        names_view(final(errors)@) == names_view(old(errors)@) + duplicate_errors(
            category@,
            held.keys(),
            incoming.keys(),
        ),
{
    let mut i: usize = 0;
    assert(incoming.keys().subrange(0, 0) =~= Seq::<Seq<char>>::empty());
    assert(names_view(errors@) =~= names_view(old(errors)@) + Seq::<Seq<char>>::empty());
    while i < incoming.len()
        invariant
            held.wf(),
            incoming.wf(),
            i <= incoming.keys().len(),
            names_view(errors@) == names_view(old(errors)@) + duplicate_errors(
                category@,
                held.keys(),
                incoming.keys().subrange(0, i as int),
            ),
        decreases incoming.keys().len() - i,
    {
        let name = incoming.key_at(i);
        let ghost shown = names_view(errors@);
        let ghost next = incoming.keys().subrange(0, i as int + 1);
        assert(next.drop_last() =~= incoming.keys().subrange(0, i as int));
        assert(next.last() == name@);
        if held.contains_key(name.as_str()) {
            errors.push(duplicate_report(category, name.as_str()));
            assert(names_view(errors@) =~= shown.push(duplicate_message(category@, name@)));
        }
        assert(names_view(errors@) =~= names_view(old(errors)@) + duplicate_errors(
            category@,
            held.keys(),
            next,
        ));
        i += 1;
    }
    assert(incoming.keys().subrange(0, i as int) =~= incoming.keys());
}

/// Merges one category of a fragment into the graph: where no name collides,
/// the fragment's entries follow the graph's; where one does, the graph's
/// entries stay as they are and each collision is reported.
pub fn merge_category<V>(
    held: &mut Table<V>,
    incoming: Table<V>,
    category: &str,
    errors: &mut Vec<String>,
)
    requires
        old(held).wf(),
        incoming.wf(),
    ensures
        final(held).wf(),
        names_view(final(errors)@) == names_view(old(errors)@) + duplicate_errors(
            category@,
            old(held).keys(),
            incoming.keys(),
        ),
        final(held).keys() == merged(old(held).keys(), incoming.keys(), old(held).keys(), incoming.keys()),
        final(held).values() == merged(
            old(held).keys(),
            incoming.keys(),
            old(held).values(),
            incoming.values(),
        ),
{
    let before = errors.len();
    report_duplicates(held, &incoming, category, errors);
    proof {
        lemma_errors_iff_collision(category@, held.keys(), incoming.keys());
        assert(names_view(errors@).len() == errors@.len());
        assert(names_view(old(errors)@).len() == old(errors)@.len());
    }
    if errors.len() == before {
        held.append_disjoint(incoming);
    }
}

/// What one category holds after a merge: with a collision between the names
/// what it held, without one what it held followed by what came in.
pub open spec fn merged<A>(
    held_names: Seq<Seq<char>>,
    incoming_names: Seq<Seq<char>>,
    held: Seq<A>,
    incoming: Seq<A>,
) -> Seq<A> {
    if collides(held_names, incoming_names) {
        held
    } else {
        held + incoming
    }
}

/// A configuration graph under construction.
pub struct ConfigBuilder<S, K, T> {
    pub global: GlobalOptions,
    pub sources: Table<S>,
    pub sinks: Table<SinkOuter<K>>,
    pub transforms: Table<TransformOuter<T>>,
    pub tests: Vec<TestDefinition>,
}

/// The reports of one append: collisions among sources first, then among
/// sinks, then among transforms, each group in the fragment's order.
pub open spec fn append_errors<S, K, T>(
    graph: ConfigBuilder<S, K, T>,
    fragment: ConfigBuilder<S, K, T>,
) -> Seq<Seq<char>> {
    duplicate_errors("source"@, graph.sources.keys(), fragment.sources.keys())
        + duplicate_errors("sink"@, graph.sinks.keys(), fragment.sinks.keys())
        + duplicate_errors("transform"@, graph.transforms.keys(), fragment.transforms.keys())
}

impl<S, K, T> ConfigBuilder<S, K, T> {
    pub open spec fn wf(&self) -> bool {
        &&& self.sources.wf()
        &&& self.sinks.wf()
        &&& self.transforms.wf()
    }

    /// The graph holds no component.
    pub open spec fn is_empty(&self) -> bool {
        &&& self.sources.keys().len() == 0
        &&& self.sinks.keys().len() == 0
        &&& self.transforms.keys().len() == 0
    }

    /// A graph without components, tests or options.
    pub fn new() -> (builder: Self)
        ensures
            builder.wf(),
            builder.sources.keys().len() == 0,
            builder.sinks.keys().len() == 0,
            builder.transforms.keys().len() == 0,
            builder.tests@.len() == 0,
            builder.global.data_dir is None,
            builder.global.log_schema.is_default(),
    {
        ConfigBuilder {
            global: GlobalOptions::default(),
            sources: Table::new(),
            sinks: Table::new(),
            transforms: Table::new(),
            tests: Vec::new(),
        }
    }

    /// Merges the fragment `with` into this graph.
    ///
    /// Every name of the fragment that the graph already holds in the same
    /// category is reported, and all reports are returned together. A category
    /// with a collision is left as it was; a category without one takes the
    /// fragment's entries behind its own. The fragment's tests are taken in any
    /// case, and so are those of its global options that the graph has not set.
    pub fn append(&mut self, with: Self) -> (result: Result<(), Vec<String>>)
        requires
            old(self).wf(),
            with.wf(),
        ensures
            final(self).wf(),
            match result {
                Ok(()) => append_errors(*old(self), with).len() == 0,
                Err(errors) => errors@.len() > 0 && names_view(errors@) == append_errors(
                    *old(self),
                    with,
                ),
            },
            final(self).sources.keys() == merged(
                old(self).sources.keys(),
                with.sources.keys(),
                old(self).sources.keys(),
                with.sources.keys(),
            ),
            final(self).sources.values() == merged(
                old(self).sources.keys(),
                with.sources.keys(),
                old(self).sources.values(),
                with.sources.values(),
            ),
            final(self).sinks.keys() == merged(
                old(self).sinks.keys(),
                with.sinks.keys(),
                old(self).sinks.keys(),
                with.sinks.keys(),
            ),
            final(self).sinks.values() == merged(
                old(self).sinks.keys(),
                with.sinks.keys(),
                old(self).sinks.values(),
                with.sinks.values(),
            ),
            final(self).transforms.keys() == merged(
                old(self).transforms.keys(),
                with.transforms.keys(),
                old(self).transforms.keys(),
                with.transforms.keys(),
            ),
            final(self).transforms.values() == merged(
                old(self).transforms.keys(),
                with.transforms.keys(),
                old(self).transforms.values(),
                with.transforms.values(),
            ),
            final(self).tests@ == old(self).tests@ + with.tests@,
            final(self).global.data_dir == if data_dir_unset(old(self).global.data_dir) {
                with.global.data_dir
            } else {
                old(self).global.data_dir
            },
            final(self).global.log_schema.spec_message_key() == merged_key(
                old(self).global.log_schema.spec_message_key(),
                "message"@,
                with.global.log_schema.spec_message_key(),
            ),
            final(self).global.log_schema.spec_timestamp_key() == merged_key(
                old(self).global.log_schema.spec_timestamp_key(),
                "timestamp"@,
                with.global.log_schema.spec_timestamp_key(),
            ),
            final(self).global.log_schema.spec_host_key() == merged_key(
                old(self).global.log_schema.spec_host_key(),
                "host"@,
                with.global.log_schema.spec_host_key(),
            ),
    {
        let ConfigBuilder { global, sources, sinks, transforms, tests } = with;
        let mut tests = tests;
        let mut errors: Vec<String> = Vec::new();
        assert(names_view(errors@) =~= Seq::<Seq<char>>::empty());
        self.global.merge(global);
        merge_category(&mut self.sources, sources, "source", &mut errors);
        merge_category(&mut self.sinks, sinks, "sink", &mut errors);
        merge_category(&mut self.transforms, transforms, "transform", &mut errors);
        self.tests.append(&mut tests);
        proof {
            assert(names_view(errors@) =~= append_errors(*old(self), with));
            assert(names_view(errors@).len() == errors@.len());
        }
        if errors.len() == 0 {
            Ok(())
        } else {
            Err(errors)
        }
    }
}


/// Everything that stands against accepting a graph: what went wrong while
/// its transforms were expanded, then the inputs that lead nowhere, then the
/// components in conflict over a resource.
pub open spec fn compile_errors<S, K, T>(
    candidate: &Config<S, K, T>,
    expansion_errors: Seq<Seq<char>>,
    claims: Claims,
) -> Seq<Seq<char>> {
    expansion_errors + input_errors(candidate) + resource_errors(claims)
}

/// Accepts or refuses an expanded graph, given what its expansion reported
/// and the resources that its sources and sinks claim: the graph is accepted
/// exactly when nothing stands against it, and refused with all reports
/// together otherwise.
pub fn compile<S, K, T>(
    candidate: Config<S, K, T>,
    expansion_errors: Vec<String>,
    claims: &Vec<(String, Vec<Resource>)>,
) -> (result: Result<Config<S, K, T>, Vec<String>>)
    requires
        candidate.wf(),
    ensures
        match result {
            Ok(config) => config == candidate && compile_errors(
                &candidate,
                names_view(expansion_errors@),
                claims_view(claims@),
            ).len() == 0,
            Err(errors) => errors@.len() > 0 && names_view(errors@) == compile_errors(
                &candidate,
                names_view(expansion_errors@),
                claims_view(claims@),
            ),
        },
{
    let mut errors = expansion_errors;
    let mut of_inputs = check_inputs(&candidate);
    let mut of_resources = check_resources(claims);
    let ghost first = errors@;
    let ghost second = of_inputs@;
    let ghost third = of_resources@;
    errors.append(&mut of_inputs);
    errors.append(&mut of_resources);
    proof {
        assert(errors@ =~= first + second + third);
        assert(names_view(errors@) =~= names_view(first) + names_view(second) + names_view(
            third,
        ));
        assert(names_view(errors@).len() == errors@.len());
    }
    if errors.len() == 0 {
        Ok(candidate)
    } else {
        Err(errors)
    }
}

impl<S: SourceConfig, K: SinkConfig, T: TransformConfig> ConfigBuilder<S, K, T> {
    /// Turns what was assembled into a graph: expands the transforms that
    /// expand, then checks that every input leads somewhere and that no two
    /// components claim one resource.
    ///
    /// What the transforms expand to and what the components claim is theirs
    /// to say, so the outcome is stated for whatever they said: an accepted
    /// graph holds the sources, sinks, tests and options as they were
    /// assembled and has no input that leads nowhere; a refusal carries at
    /// least one report.
    pub fn build(self) -> (result: Result<Config<S, K, T>, Vec<String>>)
        requires
            self.wf(),
        ensures
            match result {
                Ok(config) => {
                    &&& config.wf()
                    &&& config.global == self.global
                    &&& config.sources == self.sources
                    &&& config.sinks == self.sinks
                    &&& config.tests == self.tests
                    &&& input_errors(&config).len() == 0
                    &&& forall|i: int|
                        0 <= i < config.expansions.values().len() ==> all_held(
                            config.transforms.keys(),
                            #[trigger] config.expansions.values()[i]@,
                        )
                },
                Err(errors) => errors@.len() > 0,
            },
            self.is_empty() ==> result is Ok,
    {
        self.build_within(EXPANSION_DEPTH_LIMIT)
    }

    /// `build`, with the number of expansions that may be nested given by
    /// the caller.
    pub fn build_within(self, depth_limit: usize) -> (result: Result<Config<S, K, T>, Vec<String>>)
        requires
            self.wf(),
        ensures
            match result {
                Ok(config) => {
                    &&& config.wf()
                    &&& config.global == self.global
                    &&& config.sources == self.sources
                    &&& config.sinks == self.sinks
                    &&& config.tests == self.tests
                    &&& input_errors(&config).len() == 0
                    &&& forall|i: int|
                        0 <= i < config.expansions.values().len() ==> all_held(
                            config.transforms.keys(),
                            #[trigger] config.expansions.values()[i]@,
                        )
                },
                Err(errors) => errors@.len() > 0,
            },
            self.is_empty() ==> result is Ok,
    {
        let ConfigBuilder { global, sources, sinks, transforms, tests } = self;
        let expanded = expand_macros(transforms, depth_limit);
        let claims = gather_claims(&sources, &sinks);
        let candidate = Config {
            global,
            sources,
            sinks,
            transforms: expanded.transforms,
            tests,
            expansions: expanded.expansions,
        };
        proof {
            if self.is_empty() {
                assert(names_view(expanded.errors@) =~= Seq::<Seq<char>>::empty());
                assert(claims_view(claims@) =~= Seq::empty());
                assert(resource_errors(claims_view(claims@)) =~= Seq::<Seq<char>>::empty());
                assert(input_errors(&candidate) =~= Seq::<Seq<char>>::empty());
            }
        }
        compile(candidate, expanded.errors, &claims)
    }
}

} // verus!
