//! The configuration graph: named sources, transforms and sinks, their
//! declared inputs, and what each component kind must tell the graph.

use crate::builder::ConfigBuilder;
use crate::resource::Resource;
use crate::table::Table;
use vstd::prelude::*;
use vstd::string::StringExecFns;

verus! {

/// The kind of event a component produces or accepts.
#[derive(Debug, Clone, Copy, PartialEq, Eq, Structural)]
pub enum DataType {
    Any,
    Log,
    Metric,
}

/// What a source declares of itself to the graph.
pub trait SourceConfig {
    fn output_type(&self) -> DataType;

    fn source_type(&self) -> &'static str;

    /// Resources that the source is using. A source that does not say
    /// otherwise claims none.
    fn resources(&self) -> (claimed: Vec<Resource>)
        default_ensures
            claimed@ == Seq::<Resource>::empty(),
    {
        Vec::new()
    }
}

/// What a sink declares of itself to the graph.
pub trait SinkConfig {
    fn input_type(&self) -> DataType;

    fn sink_type(&self) -> &'static str;

    /// Resources that the sink is using. A sink that does not say otherwise
    /// claims none.
    fn resources(&self) -> (claimed: Vec<Resource>)
        default_ensures
            claimed@ == Seq::<Resource>::empty(),
    {
        Vec::new()
    }
}

/// What a transform declares of itself to the graph.
pub trait TransformConfig: Sized {
    fn input_type(&self) -> DataType;

    fn output_type(&self) -> DataType;

    fn transform_type(&self) -> &'static str;

    /// Allows a transform configuration to expand itself into multiple "child"
    /// transformations to replace it. This allows a transform to act as a macro
    /// for various patterns.
    ///
    /// `Ok(None)` leaves the transform as it is; `Ok(Some(children))` replaces
    /// it by the children, each given with its own name, in their order;
    /// `Err` says why the expansion failed. A transform that does not say
    /// otherwise does not expand, and is not changed by being asked.
    fn expand(&mut self) -> (expanded: Result<Option<Vec<(String, Self)>>, String>)
        default_ensures
            expanded == Ok::<Option<Vec<(String, Self)>>, String>(None),
            *final(self) == *old(self),
    {
        Ok(None)
    }
}

/// The names under which log events carry their standard fields.
#[derive(Debug)]
pub struct LogSchema {
    message_key: String,
    timestamp_key: String,
    host_key: String,
}

impl LogSchema {
    pub closed spec fn spec_message_key(&self) -> Seq<char> {
        self.message_key@
    }

    pub closed spec fn spec_timestamp_key(&self) -> Seq<char> {
        self.timestamp_key@
    }

    pub closed spec fn spec_host_key(&self) -> Seq<char> {
        self.host_key@
    }

    /// The schema that is in force where a configuration names none.
    pub open spec fn is_default(&self) -> bool {
        &&& self.spec_message_key() == "message"@
        &&& self.spec_timestamp_key() == "timestamp"@
        &&& self.spec_host_key() == "host"@
    }

    pub fn new(message_key: String, timestamp_key: String, host_key: String) -> (schema: Self)
        ensures
            schema.spec_message_key() == message_key@,
            schema.spec_timestamp_key() == timestamp_key@,
            schema.spec_host_key() == host_key@,
    {
        LogSchema { message_key, timestamp_key, host_key }
    }

    pub fn message_key(&self) -> (key: &str)
        ensures
            key@ == self.spec_message_key(),
    {
        self.message_key.as_str()
    }

    pub fn timestamp_key(&self) -> (key: &str)
        ensures
            key@ == self.spec_timestamp_key(),
    {
        self.timestamp_key.as_str()
    }

    pub fn host_key(&self) -> (key: &str)
        ensures
            key@ == self.spec_host_key(),
    {
        self.host_key.as_str()
    }

    pub fn set_message_key(&mut self, key: String)
        ensures
            final(self).spec_message_key() == key@,
            final(self).spec_timestamp_key() == old(self).spec_timestamp_key(),
            final(self).spec_host_key() == old(self).spec_host_key(),
    {
        self.message_key = key;
    }

    pub fn set_timestamp_key(&mut self, key: String)
        ensures
            final(self).spec_timestamp_key() == key@,
            final(self).spec_message_key() == old(self).spec_message_key(),
            final(self).spec_host_key() == old(self).spec_host_key(),
    {
        self.timestamp_key = key;
    }

    pub fn set_host_key(&mut self, key: String)
        ensures
            final(self).spec_host_key() == key@,
            final(self).spec_message_key() == old(self).spec_message_key(),
            final(self).spec_timestamp_key() == old(self).spec_timestamp_key(),
    {
        self.host_key = key;
    }
}

/// The key that holds after a fragment's key is merged into a graph's key:
/// the graph's key where it was set to something else than the default, else
/// the fragment's.
pub open spec fn merged_key(held: Seq<char>, default: Seq<char>, incoming: Seq<char>) -> Seq<char> {
    if held == default {
        incoming
    } else {
        held
    }
}

impl LogSchema {
    /// Takes from `other` every key that `self` still has at its default.
    pub fn merge(&mut self, other: LogSchema)
        ensures
            final(self).spec_message_key() == merged_key(
                old(self).spec_message_key(),
                "message"@,
                other.spec_message_key(),
            ),
            final(self).spec_timestamp_key() == merged_key(
                old(self).spec_timestamp_key(),
                "timestamp"@,
                other.spec_timestamp_key(),
            ),
            final(self).spec_host_key() == merged_key(
                old(self).spec_host_key(),
                "host"@,
                other.spec_host_key(),
            ),
    {
        let LogSchema { message_key, timestamp_key, host_key } = other;
        if self.message_key == String::from_str("message") {
            self.message_key = message_key;
        }
        if self.timestamp_key == String::from_str("timestamp") {
            self.timestamp_key = timestamp_key;
        }
        if self.host_key == String::from_str("host") {
            self.host_key = host_key;
        }
    }
}

impl Default for LogSchema {
    fn default() -> (schema: Self)
        ensures
            schema.is_default(),
    {
        LogSchema {
            message_key: String::from_str("message"),
            timestamp_key: String::from_str("timestamp"),
            host_key: String::from_str("host"),
        }
    }
}

/// Options that hold for the whole process.
#[derive(Debug)]
pub struct GlobalOptions {
    pub data_dir: Option<String>,
    pub log_schema: LogSchema,
}

/// The data directory that is in force where a configuration names none.
pub open spec fn spec_default_data_dir() -> Seq<char> {
    "/var/lib/vector/"@
}

pub fn default_data_dir() -> (dir: Option<String>)
    ensures
        dir matches Some(path) && path@ == spec_default_data_dir(),
{
    Some(String::from_str("/var/lib/vector/"))
}

/// A data directory counts as not set when none is given or when it is the
/// default.
pub open spec fn data_dir_unset(dir: Option<String>) -> bool {
    match dir {
        None => true,
        Some(path) => path@ == spec_default_data_dir(),
    }
}

impl GlobalOptions {
    /// Decides `data_dir_unset` of this graph's data directory.
    pub fn data_dir_is_unset(&self) -> (unset: bool)
        ensures
            unset == data_dir_unset(self.data_dir),
    {
        match &self.data_dir {
            None => true,
            Some(path) => *path == String::from_str("/var/lib/vector/"),
        }
    }

    /// Takes from a fragment's options what this graph has not set itself.
    pub fn merge(&mut self, other: GlobalOptions)
        ensures
            final(self).data_dir == if data_dir_unset(old(self).data_dir) {
                other.data_dir
            } else {
                old(self).data_dir
            },
            final(self).log_schema.spec_message_key() == merged_key(
                old(self).log_schema.spec_message_key(),
                "message"@,
                other.log_schema.spec_message_key(),
            ),
            final(self).log_schema.spec_timestamp_key() == merged_key(
                old(self).log_schema.spec_timestamp_key(),
                "timestamp"@,
                other.log_schema.spec_timestamp_key(),
            ),
            final(self).log_schema.spec_host_key() == merged_key(
                old(self).log_schema.spec_host_key(),
                "host"@,
                other.log_schema.spec_host_key(),
            ),
    {
        let GlobalOptions { data_dir, log_schema } = other;
        if self.data_dir_is_unset() {
            self.data_dir = data_dir;
        }
        self.log_schema.merge(log_schema);
    }
}

impl Default for GlobalOptions {
    fn default() -> (options: Self)
        ensures
            options.data_dir is None,
            options.log_schema.is_default(),
    {
        GlobalOptions { data_dir: None, log_schema: LogSchema::default() }
    }
}

/// Where acknowledgements of delivered events go.
#[derive(Debug, Clone, Copy, PartialEq, Eq, Structural)]
pub enum Acker {
    /// Acknowledgements advance the read position of the numbered disk buffer.
    Disk(usize),
    /// Nothing waits for acknowledgements.
    Null,
}

/// What a sink is handed when it is built.
#[derive(Debug, Clone, Copy)]
pub struct SinkContext {
    pub acker: Acker,
}

impl SinkContext {
    /// A context whose acknowledgements go nowhere.
    pub fn new_test() -> (cx: Self)
        ensures
            cx.acker == Acker::Null,
    {
        SinkContext { acker: Acker::Null }
    }

    pub fn acker(&self) -> (acker: Acker)
        ensures
            acker == self.acker,
    {
        self.acker
    }
}

/// What a buffer does with an event that it has no room for.
#[derive(Debug, Clone, Copy, PartialEq, Eq, Structural)]
pub enum WhenFull {
    Block,
    DropNewest,
}

/// How the events on their way to a sink are buffered.
#[derive(Debug, Clone, Copy, PartialEq, Eq, Structural)]
pub enum BufferConfig {
    Memory { max_events: usize, when_full: WhenFull },
    Disk { max_size: usize, when_full: WhenFull },
}

impl Default for BufferConfig {
    fn default() -> (buffer: Self)
        ensures
            buffer == (BufferConfig::Memory { max_events: 500, when_full: WhenFull::Block }),
    {
        BufferConfig::Memory { max_events: 500, when_full: WhenFull::Block }
    }
}

pub fn healthcheck_default() -> (enabled: bool)
    ensures
        enabled,
{
    true
}

/// A sink as the graph holds it.
pub struct SinkOuter<K> {
    pub buffer: BufferConfig,
    pub healthcheck: bool,
    pub inputs: Vec<String>,
    pub inner: K,
}

impl<K> SinkOuter<K> {
    /// A sink with the default buffer and an enabled health check.
    pub fn new(inputs: Vec<String>, inner: K) -> (sink: Self)
        ensures
            sink.buffer == (BufferConfig::Memory { max_events: 500, when_full: WhenFull::Block }),
            sink.healthcheck,
            sink.inputs == inputs,
            sink.inner == inner,
    {
        SinkOuter {
            buffer: BufferConfig::default(),
            healthcheck: healthcheck_default(),
            inputs,
            inner,
        }
    }
}

/// A transform as the graph holds it.
pub struct TransformOuter<T> {
    pub inputs: Vec<String>,
    pub inner: T,
}

/// A value injected into a test as a field of a log event.
#[derive(Debug)]
pub enum TestInputValue {
    String(String),
    Integer(i64),
    /// The bit pattern of a double-precision number.
    Float(u64),
    Boolean(bool),
}

/// The kind of a metric.
#[derive(Debug, Clone, Copy, PartialEq, Eq, Structural)]
pub enum MetricKind {
    Incremental,
    Absolute,
}

/// A counter metric built ahead of a test.
#[derive(Debug)]
pub struct Metric {
    pub name: String,
    pub kind: MetricKind,
    /// The bit pattern of the counter's double-precision value.
    pub value: u64,
}

pub fn default_test_input_type() -> (kind: String)
    ensures
        kind@ == "raw"@,
{
    String::from_str("raw")
}

/// One event injected at a component.
pub struct TestInput {
    pub insert_at: String,
    pub type_str: String,
    pub value: Option<String>,
    pub log_fields: Option<Table<TestInputValue>>,
    pub metric: Option<Metric>,
}

/// A set of checks on named fields.
pub struct CheckFieldsConfig {
    pub predicates: Table<TestInputValue>,
}

/// A condition that the events taken from a component must meet.
pub enum TestCondition {
    /// A condition that names its own kind.
    Embedded { kind: String, config: CheckFieldsConfig },
    /// A condition of the default kind, a check on fields.
    NoTypeEmbedded(CheckFieldsConfig),
    String(String),
}

/// The component whose output a test inspects, and what must hold of it.
pub struct TestOutput {
    pub extract_from: String,
    pub conditions: Option<Vec<TestCondition>>,
}

/// An end-to-end assertion against the graph.
pub struct TestDefinition {
    pub name: String,
    pub input: Option<TestInput>,
    pub inputs: Vec<TestInput>,
    pub outputs: Vec<TestOutput>,
    pub no_outputs_from: Vec<String>,
}

/// The names in a list, as mathematics.
pub open spec fn names_view(names: Seq<String>) -> Seq<Seq<char>> {
    names.map_values(|name: String| name@)
}

/// A copy of a list of names.
pub fn clone_names(names: &Vec<String>) -> (copy: Vec<String>)
    ensures
        copy@ == names@,
{
    let mut copy: Vec<String> = Vec::new();
    let mut i: usize = 0;
    while i < names.len()
        invariant
            i <= names.len(),
            copy@ == names@.subrange(0, i as int),
        decreases names.len() - i,
    {
        copy.push(names[i].clone());
        assert(copy@ =~= names@.subrange(0, i as int + 1));
        i += 1;
    }
    assert(copy@ =~= names@);
    copy
}


/// A configuration graph: the components by name, the tests against them, and
/// the record of which logical transform names were replaced by which
/// children.
pub struct Config<S, K, T> {
    pub global: GlobalOptions,
    pub sources: Table<S>,
    pub sinks: Table<SinkOuter<K>>,
    pub transforms: Table<TransformOuter<T>>,
    pub tests: Vec<TestDefinition>,
    /// Each expanded logical name with the names of the components that stand
    /// for it.
    pub expansions: Table<Vec<String>>,
}

impl<S, K, T> Config<S, K, T> {
    pub open spec fn wf(&self) -> bool {
        &&& self.sources.wf()
        &&& self.sinks.wf()
        &&& self.transforms.wf()
        &&& self.expansions.wf()
    }

    /// The names that stand for `identifier`: its recorded children where it
    /// was expanded, else the name itself.
    pub open spec fn spec_inputs(&self, identifier: Seq<char>) -> Seq<Seq<char>> {
        if self.expansions.keys().contains(identifier) {
            names_view(self.expansions.value_of(identifier)@)
        } else {
            seq![identifier]
        }
    }

    /// A builder of graphs that holds nothing yet.
    pub fn builder() -> (builder: ConfigBuilder<S, K, T>)
        ensures
            builder.wf(),
            builder.sources.keys().len() == 0,
            builder.sinks.keys().len() == 0,
            builder.transforms.keys().len() == 0,
            builder.tests@.len() == 0,
            builder.global.data_dir is None,
            builder.global.log_schema.is_default(),
    {
        ConfigBuilder::new()
    }

    /// Expand a logical component name (i.e. from the config file) into the names of the
    /// components it was expanded to as part of the macro process. Does not check that the
    /// identifier is otherwise valid.
    pub fn get_inputs(&self, identifier: &str) -> (inputs: Vec<String>)
        requires
            self.wf(),
        ensures
            names_view(inputs@) == self.spec_inputs(identifier@),
            inputs@.len() == self.spec_inputs(identifier@).len(),
            forall|i: int|
                0 <= i < inputs@.len() ==> (#[trigger] inputs@[i])@ == self.spec_inputs(
                    identifier@,
                )[i],
    {
        match self.expansions.get(identifier) {
            Some(children) => clone_names(children),
            None => {
                let mut inputs: Vec<String> = Vec::new();
                inputs.push(String::from_str(identifier));
                assert(names_view(inputs@) =~= seq![identifier@]);
                inputs
            },
        }
    }
}

impl<S, K, T> Default for Config<S, K, T> {
    fn default() -> (config: Self)
        ensures
            config.wf(),
            config.sources.keys().len() == 0,
            config.sinks.keys().len() == 0,
            config.transforms.keys().len() == 0,
            config.tests@.len() == 0,
            config.expansions.keys().len() == 0,
            config.global.data_dir is None,
            config.global.log_schema.is_default(),
    {
        Config {
            global: GlobalOptions::default(),
            sources: Table::new(),
            sinks: Table::new(),
            transforms: Table::new(),
            tests: Vec::new(),
            expansions: Table::new(),
        }
    }
}

} // verus!
