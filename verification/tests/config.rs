use std::path::PathBuf;
use vector_topology::component::{Category, Registry};
use vector_topology::builder::ConfigBuilder;
use vector_topology::config;
use vector_topology::config::{
    default_test_input_type, healthcheck_default, BufferConfig, Config,
    DataType, GlobalOptions, LogSchema, SinkConfig, SinkContext, SinkOuter, SourceConfig,
    Acker, CheckFieldsConfig, TestCondition, TestDefinition, TestInput, TestInputValue,
    TestOutput, TransformConfig, TransformOuter, WhenFull,
};
use vector_topology::expand::{ask, expand_macros, settle, Answer, Expanded};
use vector_topology::resource::{Resource, SocketAddress};
use vector_topology::table::Table;

enum Source {
    File,
    Stdin,
    Socket(SocketAddress),
}

impl SourceConfig for Source {
    fn output_type(&self) -> DataType {
        DataType::Log
    }

    fn source_type(&self) -> &'static str {
        match self {
            Source::File => "file",
            Source::Stdin => "stdin",
            Source::Socket(_) => "socket",
        }
    }

    fn resources(&self) -> Vec<Resource> {
        match self {
            Source::File => Vec::new(),
            Source::Stdin => vec![Resource::Stdin],
            Source::Socket(address) => vec![Resource::Port(*address)],
        }
    }
}

enum Sink {
    Console,
    Socket(SocketAddress),
}

impl SinkConfig for Sink {
    fn input_type(&self) -> DataType {
        DataType::Any
    }

    fn sink_type(&self) -> &'static str {
        match self {
            Sink::Console => "console",
            Sink::Socket(_) => "socket",
        }
    }

    fn resources(&self) -> Vec<Resource> {
        match self {
            Sink::Console => Vec::new(),
            Sink::Socket(address) => vec![Resource::Port(*address)],
        }
    }
}

enum Transform {
    JsonParser,
    /// Expands into the named children.
    Macro(Vec<(&'static str, Transform)>),
    /// Expands into itself, again and again.
    Endless,
    /// Fails to expand.
    Broken,
}

impl TransformConfig for Transform {
    fn input_type(&self) -> DataType {
        DataType::Log
    }

    fn output_type(&self) -> DataType {
        DataType::Log
    }

    fn transform_type(&self) -> &'static str {
        match self {
            Transform::JsonParser => "json_parser",
            Transform::Macro(_) => "macro",
            Transform::Endless => "endless",
            Transform::Broken => "broken",
        }
    }

    fn expand(&mut self) -> Result<Option<Vec<(String, Self)>>, String> {
        match self {
            Transform::JsonParser => Ok(None),
            Transform::Macro(children) => Ok(Some(
                children
                    .drain(..)
                    .map(|(name, child)| (name.to_string(), child))
                    .collect(),
            )),
            Transform::Endless => Ok(Some(vec![("again".to_string(), Transform::Endless)])),
            Transform::Broken => Err("no children today".to_string()),
        }
    }
}

type Builder = ConfigBuilder<Source, Sink, Transform>;

fn names(list: &[&str]) -> Vec<String> {
    list.iter().map(|name| name.to_string()).collect()
}

fn transform(inputs: &[&str], inner: Transform) -> TransformOuter<Transform> {
    TransformOuter { inputs: names(inputs), inner }
}


type Fields = toml::value::Table;

fn address(fields: &Fields) -> SocketAddress {
    let text = fields["address"].as_str().unwrap();
    let (ip, port) = text.rsplit_once(':').unwrap();
    let octets: Vec<u8> = ip.split('.').map(|octet| octet.parse().unwrap()).collect();
    SocketAddress::v4(octets[0], octets[1], octets[2], octets[3], port.parse().unwrap())
}

fn source_kinds() -> Registry<fn(&Fields) -> Source> {
    let mut kinds: Registry<fn(&Fields) -> Source> = Registry::new(Category::Source);
    kinds.register("file".to_string(), |_| Source::File);
    kinds.register("stdin".to_string(), |_| Source::Stdin);
    kinds.register("socket".to_string(), |fields| Source::Socket(address(fields)));
    kinds
}

fn sink_kinds() -> Registry<fn(&Fields) -> Sink> {
    let mut kinds: Registry<fn(&Fields) -> Sink> = Registry::new(Category::Sink);
    kinds.register("console".to_string(), |_| Sink::Console);
    kinds.register("socket".to_string(), |fields| Sink::Socket(address(fields)));
    kinds
}

fn transform_kinds() -> Registry<fn(&Fields) -> Transform> {
    let mut kinds: Registry<fn(&Fields) -> Transform> = Registry::new(Category::Transform);
    kinds.register("json_parser".to_string(), |_| Transform::JsonParser);
    kinds.register("endless".to_string(), |_| Transform::Endless);
    kinds.register("broken".to_string(), |_| Transform::Broken);
    kinds
}

fn made<C>(kinds: &Registry<fn(&Fields) -> C>, fields: &Fields) -> Result<C, String> {
    let tag = fields["type"].as_str().unwrap();
    match kinds.lookup(tag) {
        Ok(factory) => Ok(factory(fields)),
        Err(unknown) => Err(unknown.message()),
    }
}

fn inputs_of(fields: &Fields) -> Vec<String> {
    fields["inputs"]
        .as_array()
        .unwrap()
        .iter()
        .map(|input| input.as_str().unwrap().to_string())
        .collect()
}

fn text_of(fields: &Fields, key: &str) -> Option<String> {
    fields.get(key).map(|value| value.as_str().unwrap().to_string())
}

fn test_input(fields: &Fields) -> TestInput {
    TestInput {
        insert_at: text_of(fields, "insert_at").unwrap(),
        type_str: text_of(fields, "type").unwrap_or_else(default_test_input_type),
        value: text_of(fields, "value"),
        log_fields: None,
        metric: None,
    }
}

fn test_condition(fields: &Fields) -> TestCondition {
    let mut predicates = Table::new();
    for (key, value) in fields {
        if key != "type" {
            predicates.insert(
                key.clone(),
                TestInputValue::String(value.as_str().unwrap().to_string()),
            );
        }
    }
    let config = CheckFieldsConfig { predicates };
    match text_of(fields, "type") {
        Some(kind) => TestCondition::Embedded { kind, config },
        None => TestCondition::NoTypeEmbedded(config),
    }
}

fn test_output(fields: &Fields) -> TestOutput {
    TestOutput {
        extract_from: text_of(fields, "extract_from").unwrap(),
        conditions: fields.get("conditions").map(|conditions| {
            conditions
                .as_array()
                .unwrap()
                .iter()
                .map(|condition| test_condition(condition.as_table().unwrap()))
                .collect()
        }),
    }
}

fn tables<'a>(fields: &'a Fields, key: &str) -> Vec<&'a Fields> {
    match fields.get(key) {
        Some(list) => list
            .as_array()
            .unwrap()
            .iter()
            .map(|item| item.as_table().unwrap())
            .collect(),
        None => Vec::new(),
    }
}

fn test_definition(fields: &Fields) -> TestDefinition {
    TestDefinition {
        name: text_of(fields, "name").unwrap(),
        input: fields.get("input").map(|input| test_input(input.as_table().unwrap())),
        inputs: tables(fields, "inputs").into_iter().map(test_input).collect(),
        outputs: tables(fields, "outputs").into_iter().map(test_output).collect(),
        no_outputs_from: Vec::new(),
    }
}

fn section<'a>(document: &'a Fields, key: &str) -> Vec<(&'a String, &'a Fields)> {
    match document.get(key) {
        Some(entries) => entries
            .as_table()
            .unwrap()
            .iter()
            .map(|(name, fields)| (name, fields.as_table().unwrap()))
            .collect(),
        None => Vec::new(),
    }
}

/// Reads a graph under construction from its text. A document that names no
/// data directory gets the default one.
fn builder_from_str(input: &str) -> Result<Builder, Vec<String>> {
    let document: toml::Value = input.parse().map_err(|error| vec![format!("{}", error)])?;
    let document = document.as_table().unwrap();
    let mut errors = Vec::new();
    let mut builder = Builder::new();

    builder.global.data_dir = match text_of(document, "data_dir") {
        Some(dir) => Some(dir),
        None => config::default_data_dir(),
    };
    if let Some(schema) = document.get("log_schema") {
        let schema = schema.as_table().unwrap();
        if let Some(key) = text_of(schema, "host_key") {
            builder.global.log_schema.set_host_key(key);
        }
        if let Some(key) = text_of(schema, "message_key") {
            builder.global.log_schema.set_message_key(key);
        }
        if let Some(key) = text_of(schema, "timestamp_key") {
            builder.global.log_schema.set_timestamp_key(key);
        }
    }

    for (name, fields) in section(document, "sources") {
        match made(&source_kinds(), fields) {
            Ok(source) => {
                builder.sources.insert(name.clone(), source);
            }
            Err(error) => errors.push(error),
        }
    }
    for (name, fields) in section(document, "transforms") {
        match made(&transform_kinds(), fields) {
            Ok(inner) => {
                let outer = TransformOuter { inputs: inputs_of(fields), inner };
                builder.transforms.insert(name.clone(), outer);
            }
            Err(error) => errors.push(error),
        }
    }
    for (name, fields) in section(document, "sinks") {
        match made(&sink_kinds(), fields) {
            Ok(sink) => {
                builder
                    .sinks
                    .insert(name.clone(), SinkOuter::new(inputs_of(fields), sink));
            }
            Err(error) => errors.push(error),
        }
    }
    for fields in tables(document, "tests") {
        builder.tests.push(test_definition(fields));
    }

    if errors.is_empty() {
        Ok(builder)
    } else {
        Err(errors)
    }
}

/// Reads a graph from its text and builds it.
fn load_from_str(input: &str) -> Result<Config<Source, Sink, Transform>, Vec<String>> {
    builder_from_str(input)?.build()
}

fn loaded(input: &str) -> Config<Source, Sink, Transform> {
    match load_from_str(input) {
        Ok(config) => config,
        Err(errors) => panic!("the graph was refused: {:?}", errors),
    }
}

fn file_to_console() -> Builder {
    let mut builder = Builder::new();
    builder.global.data_dir = config::default_data_dir();
    builder.sources.insert("in".to_string(), Source::File);
    builder
        .sinks
        .insert("out".to_string(), SinkOuter::new(names(&["in"]), Sink::Console));
    builder
}

fn built(builder: Builder) -> Config<Source, Sink, Transform> {
    match builder.build() {
        Ok(config) => config,
        Err(errors) => panic!("the graph was refused: {:?}", errors),
    }
}

fn refused(builder: Builder) -> Vec<String> {
    match builder.build() {
        Ok(_) => panic!("the graph was accepted"),
        Err(errors) => errors,
    }
}

#[test]
fn default_data_dir() {
    let config = loaded(
        r#"
      [sources.in]
      type = "file"
      include = ["/var/log/messages"]

      [sinks.out]
      type = "console"
      inputs = ["in"]
      encoding = "json"
      "#,
    );

    assert_eq!(
        Some(PathBuf::from("/var/lib/vector")),
        config.global.data_dir.map(PathBuf::from)
    )
}

#[test]
fn default_schema() {
    let config = loaded(
        r#"
      [sources.in]
      type = "file"
      include = ["/var/log/messages"]

      [sinks.out]
      type = "console"
      inputs = ["in"]
      encoding = "json"
      "#,
    );

    assert_eq!("host", config.global.log_schema.host_key().to_string());
    assert_eq!(
        "message",
        config.global.log_schema.message_key().to_string()
    );
    assert_eq!(
        "timestamp",
        config.global.log_schema.timestamp_key().to_string()
    );
}

#[test]
fn custom_schema() {
    let config = loaded(
        r#"
      [log_schema]
      host_key = "this"
      message_key = "that"
      timestamp_key = "then"

      [sources.in]
      type = "file"
      include = ["/var/log/messages"]

      [sinks.out]
      type = "console"
      inputs = ["in"]
      encoding = "json"
      "#,
    );

    assert_eq!("this", config.global.log_schema.host_key().to_string());
    assert_eq!("that", config.global.log_schema.message_key().to_string());
    assert_eq!("then", config.global.log_schema.timestamp_key().to_string());
}

fn check_simple_log() -> TestDefinition {
    let mut predicates = Table::new();
    predicates.insert(
        "message.equals".to_string(),
        TestInputValue::String(
            "Sorry, I'm busy this week Cecil".to_string(),
        ),
    );
    TestDefinition {
        name: "check_simple_log".to_string(),
        input: Some(TestInput {
            insert_at: "foo".to_string(),
            type_str: "raw".to_string(),
            value: Some(
                "2019-11-28T12:00:00+00:00 info Sorry, I'm busy this week Cecil".to_string(),
            ),
            log_fields: None,
            metric: None,
        }),
        inputs: Vec::new(),
        outputs: vec![TestOutput {
            extract_from: "foo".to_string(),
            conditions: Some(vec![TestCondition::Embedded {
                kind: "check_fields".to_string(),
                config: CheckFieldsConfig { predicates },
            }]),
        }],
        no_outputs_from: Vec::new(),
    }
}

#[test]
fn config_append() {
    let mut config = builder_from_str(
        r#"
      [sources.in]
      type = "file"
      include = ["/var/log/messages"]

      [sinks.out]
      type = "console"
      inputs = ["in"]
      encoding = "json"
      "#,
    )
    .unwrap();

    assert_eq!(
        config.append(
            builder_from_str(
                r#"
        data_dir = "/foobar"

        [transforms.foo]
        type = "json_parser"
        inputs = [ "in" ]

        [[tests]]
        name = "check_simple_log"
        [tests.input]
        insert_at = "foo"
        type = "raw"
        value = "2019-11-28T12:00:00+00:00 info Sorry, I'm busy this week Cecil"
        [[tests.outputs]]
        extract_from = "foo"
        [[tests.outputs.conditions]]
        type = "check_fields"
        "message.equals" = "Sorry, I'm busy this week Cecil"
            "#,
            )
            .unwrap()
        ),
        Ok(())
    );

    assert_eq!(
        Some(PathBuf::from("/foobar")),
        config.global.data_dir.clone().map(PathBuf::from)
    );
    assert!(config.sources.contains_key("in"));
    assert!(config.sinks.contains_key("out"));
    assert!(config.transforms.contains_key("foo"));
    assert_eq!(config.tests.len(), 1);
}

#[test]
fn config_append_collisions() {
    let mut config = builder_from_str(
        r#"
      [sources.in]
      type = "file"
      include = ["/var/log/messages"]

      [sinks.out]
      type = "console"
      inputs = ["in"]
      encoding = "json"
      "#,
    )
    .unwrap();

    assert_eq!(
        config.append(
            builder_from_str(
                r#"
        [sources.in]
        type = "file"
        include = ["/var/log/messages"]

        [transforms.foo]
        type = "json_parser"
        inputs = [ "in" ]

        [sinks.out]
        type = "console"
        inputs = ["in"]
        encoding = "json"
            "#,
            )
            .unwrap()
        ),
        Err(vec![
            "duplicate source name found: in".into(),
            "duplicate sink name found: out".into(),
        ])
    );
}

#[test]
fn config_conflict_detected() {
    assert!(load_from_str(
        r#"
        [sources.in0]
        type = "stdin"

        [sources.in1]
        type = "stdin"

        [sinks.out]
        type = "console"
        inputs = ["in0","in1"]
        encoding = "json"
        "#
    )
    .is_err());
}

#[test]
fn unknown_component_type_is_refused() {
    let errors = match load_from_str(
        r#"
        [sources.in]
        type = "carrier_pigeon"

        [sinks.out]
        type = "console"
        inputs = ["in"]
        "#,
    ) {
        Ok(_) => panic!("the graph was accepted"),
        Err(errors) => errors,
    };
    assert_eq!(
        errors,
        vec!["unknown component type \"carrier_pigeon\" for category source".to_string()]
    );
}

#[test]
fn test_definitions_keep_their_shape() {
    let builder = builder_from_str(
        r#"
        [[tests]]
        name = "check_simple_log"
        [tests.input]
        insert_at = "foo"
        value = "some text"
        [[tests.outputs]]
        extract_from = "foo"
        [[tests.outputs.conditions]]
        type = "check_fields"
        "message.equals" = "Sorry, I'm busy this week Cecil"
        [[tests.outputs.conditions]]
        "message.contains" = "busy"
        "#,
    )
    .unwrap();
    assert_eq!(builder.tests.len(), 1);
    let test = &builder.tests[0];
    assert_eq!(test.name, "check_simple_log");
    let input = test.input.as_ref().unwrap();
    assert_eq!(input.insert_at, "foo");
    assert_eq!(input.type_str, "raw");
    assert_eq!(input.value.as_deref(), Some("some text"));
    let conditions = test.outputs[0].conditions.as_ref().unwrap();
    match &conditions[0] {
        TestCondition::Embedded { kind, config } => {
            assert_eq!(kind, "check_fields");
            assert!(matches!(
                config.predicates.get("message.equals"),
                Some(TestInputValue::String(text)) if text == "Sorry, I'm busy this week Cecil"
            ));
        }
        _ => panic!("expected a condition that names its kind"),
    }
    assert!(matches!(&conditions[1], TestCondition::NoTypeEmbedded(_)));
}

#[test]
fn conflict_report_names_each_component_once() {
    let mut builder = Builder::new();
    builder.sources.insert("in0".to_string(), Source::Stdin);
    builder.sources.insert("quiet".to_string(), Source::File);
    builder.sources.insert("in1".to_string(), Source::Stdin);
    builder.sinks.insert(
        "out".to_string(),
        SinkOuter::new(names(&["in0", "in1", "quiet"]), Sink::Console),
    );
    assert_eq!(
        refused(builder),
        vec![
            "Component \"in0\" claims a resource that another component claims as well."
                .to_string(),
            "Component \"in1\" claims a resource that another component claims as well."
                .to_string(),
        ]
    );
}

#[test]
fn source_and_sink_on_one_port_conflict() {
    let mut builder = Builder::new();
    builder.sources.insert(
        "listen".to_string(),
        Source::Socket(SocketAddress::v4(0, 0, 0, 0, 9000)),
    );
    builder.sinks.insert(
        "serve".to_string(),
        SinkOuter::new(
            names(&["listen"]),
            Sink::Socket(SocketAddress::v4(127, 0, 0, 1, 9000)),
        ),
    );
    let errors = refused(builder);
    assert_eq!(errors.len(), 2);
    assert!(errors[0].contains("\"listen\""));
    assert!(errors[1].contains("\"serve\""));
}

#[test]
fn append_keeps_a_colliding_category_and_merges_the_others() {
    let mut config = file_to_console();
    config
        .sources
        .insert("other".to_string(), Source::Stdin);

    let mut fragment = Builder::new();
    fragment.sources.insert("fresh".to_string(), Source::File);
    fragment.sources.insert("in".to_string(), Source::Stdin);
    fragment
        .transforms
        .insert("foo".to_string(), transform(&["in"], Transform::JsonParser));
    fragment.tests.push(check_simple_log());

    assert_eq!(
        config.append(fragment),
        Err(vec!["duplicate source name found: in".to_string()])
    );
    // the category with the collision is as it was
    assert_eq!(config.sources.len(), 2);
    assert_eq!(config.sources.key_at(0), "in");
    assert_eq!(config.sources.key_at(1), "other");
    assert_eq!(config.sources.get("in").unwrap().source_type(), "file");
    assert!(!config.sources.contains_key("fresh"));
    // the others took what came in
    assert!(config.transforms.contains_key("foo"));
    assert_eq!(config.sinks.len(), 1);
    assert_eq!(config.tests.len(), 1);
}

#[test]
fn append_reports_collisions_in_declaration_order() {
    let mut config = Builder::new();
    for name in ["a", "b", "c"] {
        config
            .transforms
            .insert(name.to_string(), transform(&[], Transform::JsonParser));
        config.sources.insert(name.to_string(), Source::File);
    }
    let mut fragment = Builder::new();
    for name in ["c", "x", "a"] {
        fragment
            .transforms
            .insert(name.to_string(), transform(&[], Transform::JsonParser));
    }
    fragment.sources.insert("b".to_string(), Source::File);
    assert_eq!(
        config.append(fragment),
        Err(vec![
            "duplicate source name found: b".to_string(),
            "duplicate transform name found: c".to_string(),
            "duplicate transform name found: a".to_string(),
        ])
    );
    assert_eq!(config.transforms.len(), 3);
}

#[test]
fn append_appends_in_order() {
    let mut config = Builder::new();
    config.sources.insert("one".to_string(), Source::File);
    let mut fragment = Builder::new();
    fragment.sources.insert("two".to_string(), Source::Stdin);
    fragment.sources.insert("three".to_string(), Source::File);
    assert_eq!(config.append(fragment), Ok(()));
    assert_eq!(config.sources.len(), 3);
    assert_eq!(config.sources.key_at(0), "one");
    assert_eq!(config.sources.key_at(1), "two");
    assert_eq!(config.sources.key_at(2), "three");
    assert_eq!(config.sources.value_at(1).source_type(), "stdin");
    assert_eq!(config.sources.position("three"), Some(2));
}

#[test]
fn data_dir_is_taken_only_where_none_was_set() {
    let mut config = Builder::new();
    assert_eq!(config.global.data_dir, None);
    assert!(config.global.data_dir_is_unset());

    let mut first = Builder::new();
    first.global.data_dir = Some("/first".to_string());
    assert_eq!(config.append(first), Ok(()));
    assert_eq!(config.global.data_dir, Some("/first".to_string()));
    assert!(!config.global.data_dir_is_unset());

    let mut second = Builder::new();
    second.global.data_dir = Some("/second".to_string());
    assert_eq!(config.append(second), Ok(()));
    assert_eq!(config.global.data_dir, Some("/first".to_string()));
}

#[test]
fn log_schema_keys_are_taken_only_where_at_their_default() {
    let mut config = Builder::new();
    config.global.log_schema.set_host_key("machine".to_string());

    let mut fragment = Builder::new();
    fragment.global.log_schema =
        LogSchema::new("msg".to_string(), "ts".to_string(), "node".to_string());
    assert_eq!(config.append(fragment), Ok(()));

    assert_eq!(config.global.log_schema.host_key(), "machine");
    assert_eq!(config.global.log_schema.message_key(), "msg");
    assert_eq!(config.global.log_schema.timestamp_key(), "ts");
}

#[test]
fn get_inputs_of_a_name_that_was_not_expanded() {
    let config = built(file_to_console());
    assert_eq!(config.get_inputs("in"), vec!["in".to_string()]);
    assert_eq!(config.get_inputs("nobody"), vec!["nobody".to_string()]);
    assert_eq!(config.expansions.len(), 0);
}

#[test]
fn expansion_replaces_a_transform_by_its_children() {
    let mut builder = file_to_console();
    builder.transforms.insert(
        "parse".to_string(),
        transform(
            &["in"],
            Transform::Macro(vec![
                ("first", Transform::JsonParser),
                ("second", Transform::JsonParser),
            ]),
        ),
    );
    builder
        .transforms
        .insert("plain".to_string(), transform(&["parse"], Transform::JsonParser));
    builder.sinks.insert(
        "after".to_string(),
        SinkOuter::new(names(&["parse", "plain"]), Sink::Console),
    );
    let config = built(builder);

    assert!(!config.transforms.contains_key("parse"));
    assert_eq!(config.transforms.len(), 3);
    assert_eq!(config.transforms.key_at(0), "parse.first");
    assert_eq!(config.transforms.key_at(1), "parse.second");
    assert_eq!(config.transforms.key_at(2), "plain");
    // a child takes its parent's inputs
    assert_eq!(
        config.transforms.get("parse.second").unwrap().inputs,
        vec!["in".to_string()]
    );
    assert_eq!(
        config.get_inputs("parse"),
        vec!["parse.first".to_string(), "parse.second".to_string()]
    );
    assert_eq!(config.get_inputs("plain"), vec!["plain".to_string()]);
}

#[test]
fn nested_expansion_records_what_finally_stands_for_a_name() {
    let mut builder = file_to_console();
    builder.transforms.insert(
        "outer".to_string(),
        transform(
            &["in"],
            Transform::Macro(vec![
                (
                    "inner",
                    Transform::Macro(vec![
                        ("a", Transform::JsonParser),
                        ("b", Transform::JsonParser),
                    ]),
                ),
                ("leaf", Transform::JsonParser),
            ]),
        ),
    );
    let config = built(builder);

    assert_eq!(
        config.get_inputs("outer"),
        vec![
            "outer.inner.a".to_string(),
            "outer.inner.b".to_string(),
            "outer.leaf".to_string()
        ]
    );
    assert_eq!(
        config.get_inputs("outer.inner"),
        vec!["outer.inner.a".to_string(), "outer.inner.b".to_string()]
    );
    assert_eq!(config.transforms.len(), 3);
}

#[test]
fn endless_expansion_is_refused() {
    let mut builder = file_to_console();
    builder
        .transforms
        .insert("loop".to_string(), transform(&["in"], Transform::Endless));
    let errors = match builder.build_within(2) {
        Ok(_) => panic!("the graph was accepted"),
        Err(errors) => errors,
    };
    assert_eq!(
        errors,
        vec![
            "transform 'loop.again.again' expands deeper than the limit of nested expansions"
                .to_string()
        ]
    );
}

#[test]
fn endless_expansion_is_refused_at_the_default_depth() {
    let mut builder = file_to_console();
    builder
        .transforms
        .insert("loop".to_string(), transform(&["in"], Transform::Endless));
    let errors = refused(builder);
    assert_eq!(errors.len(), 1);
    assert!(errors[0].ends_with("expands deeper than the limit of nested expansions"));
}

#[test]
fn failed_expansion_is_reported() {
    let mut builder = file_to_console();
    builder
        .transforms
        .insert("bad".to_string(), transform(&["in"], Transform::Broken));
    assert_eq!(
        refused(builder),
        vec!["failed to expand transform 'bad': no children today".to_string()]
    );
}

#[test]
fn child_name_that_is_taken_is_reported() {
    let mut builder = file_to_console();
    builder
        .transforms
        .insert("a.b".to_string(), transform(&["in"], Transform::JsonParser));
    builder.transforms.insert(
        "a".to_string(),
        transform(&["in"], Transform::Macro(vec![("b", Transform::JsonParser)])),
    );
    assert_eq!(
        refused(builder),
        vec!["duplicate transform name found: a.b".to_string()]
    );
}

#[test]
fn inputs_that_lead_nowhere_are_reported_in_order() {
    let mut builder = file_to_console();
    builder.sinks.insert(
        "lost".to_string(),
        SinkOuter::new(names(&["nowhere", "in", "gone"]), Sink::Console),
    );
    builder
        .transforms
        .insert("t".to_string(), transform(&["missing"], Transform::JsonParser));
    assert_eq!(
        refused(builder),
        vec![
            "Input \"nowhere\" for sink \"lost\" doesn't exist.".to_string(),
            "Input \"gone\" for sink \"lost\" doesn't exist.".to_string(),
            "Input \"missing\" for transform \"t\" doesn't exist.".to_string(),
        ]
    );
}

#[test]
fn a_sink_may_read_from_a_transform() {
    let mut builder = file_to_console();
    builder
        .transforms
        .insert("t".to_string(), transform(&["in"], Transform::JsonParser));
    builder
        .sinks
        .insert("late".to_string(), SinkOuter::new(names(&["t"]), Sink::Console));
    let config = built(builder);
    assert_eq!(config.sinks.len(), 2);
    assert_eq!(config.transforms.get("t").unwrap().inner.transform_type(), "json_parser");
}

#[test]
fn builder_starts_empty() {
    let builder: Builder = Config::builder();
    assert_eq!(builder.sources.len(), 0);
    assert!(builder.sinks.is_empty());
    assert!(builder.transforms.is_empty());
    assert!(builder.tests.is_empty());
    let config: Config<Source, Sink, Transform> = Config::default();
    assert!(config.sources.is_empty());
    assert!(config.expansions.is_empty());
    let options = GlobalOptions::default();
    assert_eq!(options.data_dir, None);
    assert_eq!(options.log_schema.host_key(), "host");
}

#[test]
fn defaults() {
    assert_eq!(config::default_data_dir(), Some("/var/lib/vector/".to_string()));
    assert!(healthcheck_default());
    assert_eq!(default_test_input_type(), "raw");
    assert_eq!(
        BufferConfig::default(),
        BufferConfig::Memory { max_events: 500, when_full: WhenFull::Block }
    );
    let sink = SinkOuter::new(names(&["in"]), Sink::Console);
    assert!(sink.healthcheck);
    assert_eq!(sink.buffer, BufferConfig::default());
    assert_eq!(sink.inputs, names(&["in"]));
}

#[test]
fn sink_context_hands_out_its_acker() {
    let cx = SinkContext::new_test();
    assert_eq!(cx.acker(), Acker::Null);
    let cx = SinkContext { acker: Acker::Disk(3) };
    assert_eq!(cx.acker(), Acker::Disk(3));
}

#[test]
fn table_insert_replaces_in_place() {
    let mut table: Table<u32> = Table::new();
    assert_eq!(table.insert("a".to_string(), 1), None);
    assert_eq!(table.insert("b".to_string(), 2), None);
    assert_eq!(table.insert("c".to_string(), 3), None);
    assert_eq!(table.insert("a".to_string(), 10), Some(1));
    assert_eq!(table.len(), 3);
    assert_eq!(table.key_at(0), "a");
    assert_eq!(*table.value_at(0), 10);
    assert_eq!(table.get("b"), Some(&2));
    assert_eq!(table.get("z"), None);
    assert_eq!(table.position("c"), Some(2));
    assert_eq!(table.pop(), Some(("c".to_string(), 3)));
    assert_eq!(table.len(), 2);
    assert!(!table.contains_key("c"));
    assert_eq!(
        table.into_stack(),
        vec![("b".to_string(), 2), ("a".to_string(), 10)]
    );
    let mut empty: Table<u32> = Table::new();
    assert_eq!(empty.pop(), None);
}

#[test]
fn table_append_disjoint_keeps_both_orders() {
    let mut left: Table<u32> = Table::new();
    left.insert("a".to_string(), 1);
    left.insert("b".to_string(), 2);
    let mut right: Table<u32> = Table::new();
    right.insert("c".to_string(), 3);
    right.insert("d".to_string(), 4);
    left.append_disjoint(right);
    assert_eq!(left.len(), 4);
    assert_eq!(left.key_at(2), "c");
    assert_eq!(left.key_at(3), "d");
    assert_eq!(*left.value_at(3), 4);
}

#[test]
fn answers_are_placed_in_order_under_derived_names() {
    let mut state: Expanded<Transform> = Expanded::new();
    let answer = Answer::Expands(vec![
        ("one".to_string(), Answer::Stays(Transform::JsonParser)),
        (
            "two".to_string(),
            Answer::Expands(vec![("deep".to_string(), Answer::Stays(Transform::JsonParser))]),
        ),
        ("three".to_string(), Answer::Failed("out of luck".to_string())),
        ("four".to_string(), Answer::TooDeep),
    ]);
    let leaves = state.place("top".to_string(), names(&["in"]), answer);
    assert_eq!(leaves, names(&["top.one", "top.two.deep"]));
    assert_eq!(state.transforms.len(), 2);
    assert_eq!(state.transforms.key_at(0), "top.one");
    assert_eq!(state.transforms.key_at(1), "top.two.deep");
    assert_eq!(state.transforms.value_at(1).inputs, names(&["in"]));
    assert_eq!(state.expansions.len(), 2);
    assert_eq!(state.expansions.key_at(0), "top.two");
    assert_eq!(state.expansions.get("top.two"), Some(&names(&["top.two.deep"])));
    assert_eq!(state.expansions.key_at(1), "top");
    assert_eq!(state.expansions.get("top"), Some(&names(&["top.one", "top.two.deep"])));
    assert_eq!(
        state.errors,
        vec![
            "failed to expand transform 'top.three': out of luck".to_string(),
            "transform 'top.four' expands deeper than the limit of nested expansions".to_string(),
        ]
    );

    // a transform that stays stands for itself; one whose name is taken is dropped
    let leaves = state.place("plain".to_string(), names(&[]), Answer::Stays(Transform::JsonParser));
    assert_eq!(leaves, names(&["plain"]));
    let leaves = state.place("plain".to_string(), names(&[]), Answer::Stays(Transform::JsonParser));
    assert_eq!(leaves, names(&["plain"]));
    assert_eq!(state.transforms.len(), 3);
    assert_eq!(state.errors.len(), 3);
    assert_eq!(state.errors[2], "duplicate transform name found: plain");

    // asking stops at the depth that is allowed
    assert!(matches!(ask(Transform::JsonParser, 0), Answer::Stays(Transform::JsonParser)));
    assert!(matches!(ask(Transform::Endless, 0), Answer::TooDeep));
    assert!(matches!(ask(Transform::Broken, 3), Answer::Failed(reason) if reason == "no children today"));
    match ask(Transform::Endless, 1) {
        Answer::Expands(children) => {
            assert_eq!(children.len(), 1);
            assert_eq!(children[0].0, "again");
            assert!(matches!(children[0].1, Answer::TooDeep));
        }
        _ => panic!("expected children"),
    }
}

#[test]
fn a_transforms_word_is_settled_as_it_stands() {
    assert!(matches!(
        settle(Transform::JsonParser, Err("broke".to_string()), 3),
        Answer::Failed(reason) if reason == "broke"
    ));
    assert!(matches!(
        settle(Transform::Broken, Ok(None), 0),
        Answer::Stays(Transform::Broken)
    ));
    let children = vec![
        ("a".to_string(), Transform::JsonParser),
        ("b".to_string(), Transform::Broken),
        ("c".to_string(), Transform::Endless),
    ];
    assert!(matches!(
        settle(Transform::JsonParser, Ok(Some(children)), 0),
        Answer::TooDeep
    ));
    let children = vec![
        ("a".to_string(), Transform::JsonParser),
        ("b".to_string(), Transform::Broken),
        ("c".to_string(), Transform::Endless),
    ];
    match settle(Transform::JsonParser, Ok(Some(children)), 1) {
        Answer::Expands(answers) => {
            assert_eq!(answers.len(), 3);
            assert_eq!(answers[0].0, "a");
            assert!(matches!(answers[0].1, Answer::Stays(Transform::JsonParser)));
            assert_eq!(answers[1].0, "b");
            assert!(matches!(&answers[1].1, Answer::Failed(reason) if reason == "no children today"));
            assert_eq!(answers[2].0, "c");
            assert!(matches!(answers[2].1, Answer::TooDeep));
        }
        _ => panic!("expected children"),
    }
}

#[test]
fn expansion_places_every_transform_in_declaration_order() {
    let mut transforms = Table::new();
    transforms.insert("plain".to_string(), transform(&["in"], Transform::JsonParser));
    transforms.insert(
        "wide".to_string(),
        transform(
            &["plain"],
            Transform::Macro(vec![("x", Transform::JsonParser), ("y", Transform::Broken)]),
        ),
    );
    transforms.insert("bad".to_string(), transform(&["in"], Transform::Broken));
    transforms.insert("last".to_string(), transform(&["wide"], Transform::JsonParser));

    let state = expand_macros(transforms, 4);
    assert_eq!(state.transforms.len(), 3);
    assert_eq!(state.transforms.key_at(0), "plain");
    assert_eq!(state.transforms.key_at(1), "wide.x");
    assert_eq!(state.transforms.key_at(2), "last");
    assert_eq!(state.transforms.value_at(1).inputs, names(&["plain"]));
    assert_eq!(state.transforms.value_at(2).inputs, names(&["wide"]));
    assert_eq!(state.expansions.len(), 1);
    assert_eq!(state.expansions.get("wide"), Some(&names(&["wide.x"])));
    assert_eq!(
        state.errors,
        vec![
            "failed to expand transform 'wide.y': no children today".to_string(),
            "failed to expand transform 'bad': no children today".to_string(),
        ]
    );

    let nothing: Expanded<Transform> = expand_macros(Table::new(), 4);
    assert!(nothing.transforms.is_empty());
    assert!(nothing.expansions.is_empty());
    assert!(nothing.errors.is_empty());
}

struct Quiet;

impl SourceConfig for Quiet {
    fn output_type(&self) -> DataType {
        DataType::Metric
    }

    fn source_type(&self) -> &'static str {
        "quiet"
    }
}

impl SinkConfig for Quiet {
    fn input_type(&self) -> DataType {
        DataType::Metric
    }

    fn sink_type(&self) -> &'static str {
        "quiet"
    }
}

impl TransformConfig for Quiet {
    fn input_type(&self) -> DataType {
        DataType::Metric
    }

    fn output_type(&self) -> DataType {
        DataType::Metric
    }

    fn transform_type(&self) -> &'static str {
        "quiet"
    }
}

#[test]
fn component_that_says_nothing_claims_nothing_and_does_not_expand() {
    assert!(SourceConfig::resources(&Quiet).is_empty());
    assert!(SinkConfig::resources(&Quiet).is_empty());
    let mut quiet = Quiet;
    assert!(matches!(quiet.expand(), Ok(None)));
    assert!(matches!(ask(Quiet, 5), Answer::Stays(Quiet)));
}
