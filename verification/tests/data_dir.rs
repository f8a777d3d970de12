use vector_topology::config::{GlobalOptions, LogSchema};
use vector_topology::data_dir::{DataDirError, DirProbe};

fn options(data_dir: Option<&str>) -> GlobalOptions {
    GlobalOptions { data_dir: data_dir.map(|dir| dir.to_string()), log_schema: LogSchema::default() }
}

fn text(result: Result<String, DataDirError>) -> Result<String, String> {
    result.map_err(|error| error.message())
}

#[test]
fn local_data_dir_wins_over_global() {
    let local = "/local".to_string();
    assert_eq!(
        text(options(Some("/global")).resolve_data_dir(Some(&local))),
        Ok("/local".to_string())
    );
    assert_eq!(
        text(options(Some("/global")).resolve_data_dir(None)),
        Ok("/global".to_string())
    );
    assert_eq!(text(options(None).resolve_data_dir(Some(&local))), Ok("/local".to_string()));
}

#[test]
fn missing_data_dir() {
    let result = options(None).resolve_and_validate_data_dir(None, DirProbe::Writable);
    assert!(matches!(result, Err(DataDirError::MissingDataDir)));
    assert_eq!(
        text(result),
        Err("data_dir option required, but not given here or globally".to_string())
    );
}

#[test]
fn data_dir_that_does_not_exist() {
    let result = options(Some("/var/lib/none")).resolve_and_validate_data_dir(None, DirProbe::Missing);
    assert!(matches!(&result, Err(DataDirError::DoesNotExist { data_dir }) if data_dir == "/var/lib/none"));
    assert_eq!(text(result), Err("data_dir \"/var/lib/none\" does not exist".to_string()));
}

#[test]
fn data_dir_that_is_not_writable() {
    let local = "/ro".to_string();
    let result = options(Some("/global")).resolve_and_validate_data_dir(Some(&local), DirProbe::ReadOnly);
    assert!(matches!(&result, Err(DataDirError::NotWritable { data_dir }) if data_dir == "/ro"));
    assert_eq!(text(result), Err("data_dir \"/ro\" is not writable".to_string()));
    let result = options(Some("/global")).resolve_and_validate_data_dir(None, DirProbe::Unreadable);
    assert_eq!(text(result), Err("data_dir \"/global\" is not writable".to_string()));
}

#[test]
fn data_dir_that_is_fine() {
    assert_eq!(
        text(options(Some("/data")).resolve_and_validate_data_dir(None, DirProbe::Writable)),
        Ok("/data".to_string())
    );
}

#[test]
fn subdir_that_was_made() {
    let made = options(Some("/data")).resolve_and_make_data_subdir(
        None,
        "sink_a",
        DirProbe::Writable,
        "/data/sink_a".to_string(),
        Ok(()),
    );
    assert_eq!(text(made), Ok("/data/sink_a".to_string()));
}

#[test]
fn subdir_that_could_not_be_made() {
    let made = options(Some("/data")).resolve_and_make_data_subdir(
        None,
        "sink \"a\"",
        DirProbe::Writable,
        "/data/sink \"a\"".to_string(),
        Err("permission denied".to_string()),
    );
    match &made {
        Err(DataDirError::CouldNotCreate { subdir, data_dir, source }) => {
            assert_eq!(subdir, "sink \"a\"");
            assert_eq!(data_dir, "/data");
            assert_eq!(source, "permission denied");
        }
        _ => panic!("expected the creation to fail"),
    }
    assert_eq!(
        text(made),
        Err("Could not create subdirectory \"sink \\\"a\\\"\" inside of data dir \"/data\": permission denied".to_string())
    );
}

#[test]
fn subdir_is_not_made_in_a_bad_data_dir() {
    let made = options(Some("/data")).resolve_and_make_data_subdir(
        None,
        "sink_a",
        DirProbe::Missing,
        "/data/sink_a".to_string(),
        Ok(()),
    );
    assert!(matches!(made, Err(DataDirError::DoesNotExist { .. })));
    let made = options(None).resolve_and_make_data_subdir(
        None,
        "sink_a",
        DirProbe::Writable,
        "sink_a".to_string(),
        Err("whatever".to_string()),
    );
    assert!(matches!(made, Err(DataDirError::MissingDataDir)));
}
