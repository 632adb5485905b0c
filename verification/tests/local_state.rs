use formation_lap::diagnostics::{log_rotation_needed, recent_entries, MAX_EXPORT_ENTRIES, MAX_LOG_BYTES};
use formation_lap::discovery_catalog::{
    quoted_tokens, quoted_values_for_key, steam_library_roots, validate_catalog_documents, CatalogSimIdentity,
    DiscoveryCatalogError,
};
use formation_lap::errors::CoreError;
use formation_lap::model::{DiagnosticEntry, LaunchRecipe, LaunchSource, ProcessIdentity, SessionSnapshot};
use formation_lap::process_runtime::{
    expected_process, expected_process_matches, ExpectedProcess, OutputBuffer, OUTPUT_LIMIT_BYTES,
};
use formation_lap::session_journal::{journal_document, recovered_from_document, SESSION_JOURNAL_SCHEMA_VERSION};

fn entry(index: usize) -> DiagnosticEntry {
    DiagnosticEntry { timestamp_unix_seconds: index as u64, event: format!("event-{index}"), outcome: "succeeded".to_owned() }
}

#[test]
fn the_log_rotates_only_past_its_size_limit() {
    assert!(!log_rotation_needed(MAX_LOG_BYTES - 10, 10));
    assert!(log_rotation_needed(MAX_LOG_BYTES - 10, 11));
    assert!(log_rotation_needed(u64::MAX, 1));
}

#[test]
fn an_export_keeps_only_the_newest_entries() {
    let few: Vec<DiagnosticEntry> = (0..3).map(entry).collect();
    assert_eq!(recent_entries(few).len(), 3);
    let many: Vec<DiagnosticEntry> = (0..200).map(entry).collect();
    let kept = recent_entries(many);
    assert_eq!(kept.len(), MAX_EXPORT_ENTRIES);
    assert_eq!(kept[0].event, "event-72");
    assert_eq!(kept[MAX_EXPORT_ENTRIES - 1].event, "event-199");
}

#[test]
fn quoted_tokens_unescape_backslashes_and_quotes() {
    let document = "\"libraryfolders\" { \"0\" { \"path\" \"C:\\\\Program Files (x86)\\\\Steam\" \"label\" \"say \\\"hi\\\"\" } }";
    assert_eq!(
        quoted_tokens(document),
        vec!["libraryfolders", "0", "path", "C:\\Program Files (x86)\\Steam", "label", "say \"hi\""]
    );
    assert_eq!(quoted_tokens("\"open \\n"), vec!["open \\n"]);
    assert_eq!(quoted_tokens("\"trailing\\"), vec!["trailing\\"]);
    assert_eq!(quoted_values_for_key(document, "path"), vec!["C:\\Program Files (x86)\\Steam"]);
}

#[test]
fn steam_libraries_are_listed_once_in_first_seen_order() {
    let roots = vec![
        (
            "C:\\Steam".to_owned(),
            Some("\"path\" \"D:\\\\Games\" \"path\" \"C:\\\\Steam\" \"path\" \"D:\\\\Games\"".to_owned()),
        ),
        ("E:\\Steam".to_owned(), None),
    ];
    assert_eq!(steam_library_roots(&roots), vec!["C:\\Steam", "D:\\Games", "E:\\Steam"]);
}

#[test]
fn catalog_identities_must_be_unique() {
    let sims = vec![
        CatalogSimIdentity { id: "acc".to_owned(), steam_app_id: Some(805550) },
        CatalogSimIdentity { id: "iracing".to_owned(), steam_app_id: None },
        CatalogSimIdentity { id: "lmu".to_owned(), steam_app_id: Some(2399420) },
    ];
    assert!(validate_catalog_documents(1, &sims, 1).is_ok());
    assert_eq!(validate_catalog_documents(2, &sims, 1), Err(DiscoveryCatalogError::UnsupportedSchema(2)));
    assert_eq!(
        validate_catalog_documents(1, &sims, 3),
        Err(DiscoveryCatalogError::UnsupportedSupportingApplicationSchema(3))
    );
    let duplicate_id = vec![
        CatalogSimIdentity { id: "acc".to_owned(), steam_app_id: None },
        CatalogSimIdentity { id: "lmu".to_owned(), steam_app_id: None },
        CatalogSimIdentity { id: "acc".to_owned(), steam_app_id: None },
    ];
    assert_eq!(
        validate_catalog_documents(1, &duplicate_id, 1),
        Err(DiscoveryCatalogError::DuplicateSimId { id: "acc".to_owned(), first_index: 0, duplicate_index: 2 })
    );
    let duplicate_app = vec![
        CatalogSimIdentity { id: "a".to_owned(), steam_app_id: Some(7) },
        CatalogSimIdentity { id: "b".to_owned(), steam_app_id: Some(7) },
    ];
    assert_eq!(
        validate_catalog_documents(1, &duplicate_app, 1),
        Err(DiscoveryCatalogError::DuplicateSteamAppId {
            app_id: 7,
            first_location: "sims[0].steamAppId".to_owned(),
            duplicate_location: "sims[1].steamAppId".to_owned()
        })
    );
}

#[test]
fn output_keeps_only_the_newest_bytes_of_each_stream() {
    let mut buffer = OutputBuffer::new();
    buffer.append(true, b"hello");
    buffer.append(false, b"oops");
    assert_eq!(buffer.stdout, b"hello");
    assert_eq!(buffer.stderr, b"oops");
    assert!(!buffer.truncated);
    let chunk = vec![b'x'; OUTPUT_LIMIT_BYTES - 2];
    buffer.append(true, &chunk);
    assert_eq!(buffer.stdout.len(), OUTPUT_LIMIT_BYTES);
    assert_eq!(&buffer.stdout[..3], b"lox");
    assert!(buffer.truncated);
    let mut whole = OutputBuffer::new();
    whole.append(false, &vec![b'y'; OUTPUT_LIMIT_BYTES]);
    assert_eq!(whole.stderr.len(), OUTPUT_LIMIT_BYTES);
    assert!(whole.truncated);
}

#[test]
fn observed_processes_match_by_path_or_name() {
    let identity = ProcessIdentity { pid: 1, creation_time: 2, canonical_executable_path: "C:\\Games\\Sim\\Sim.exe".to_owned() };
    assert!(expected_process_matches(
        &identity,
        &ExpectedProcess { canonical_executable_path: Some("c:\\games\\sim\\sim.EXE".to_owned()), executable_name: None }
    ));
    assert!(expected_process_matches(
        &identity,
        &ExpectedProcess { canonical_executable_path: None, executable_name: Some("sim.exe".to_owned()) }
    ));
    assert!(!expected_process_matches(
        &identity,
        &ExpectedProcess { canonical_executable_path: None, executable_name: Some("other.exe".to_owned()) }
    ));
    assert!(!expected_process_matches(&identity, &ExpectedProcess { canonical_executable_path: None, executable_name: None }));
}

#[test]
fn monitored_processes_must_be_bare_executable_names() {
    let mut recipe = LaunchRecipe::default();
    recipe.monitored_process = Some("C:\\Games\\sim.exe".to_owned());
    assert_eq!(
        expected_process(&recipe).expect_err("a path is not a process name").message,
        "monitored process must be an executable file name"
    );
    recipe.monitored_process = Some("sim.exe".to_owned());
    let expected = expected_process(&recipe).expect("a bare name is accepted");
    assert_eq!(expected.executable_name.as_deref(), Some("sim.exe"));
    assert!(expected.canonical_executable_path.is_none());
    let mut steam = LaunchRecipe::default();
    steam.source = LaunchSource::Steam { app_id: 42, selector: None };
    assert_eq!(
        expected_process(&steam).expect_err("Steam needs a process name").message,
        "Steam launch requires a monitored process executable name"
    );
    let mut orphan = LaunchRecipe::default();
    orphan.monitored_executable_path = Some("C:\\Games\\sim.exe".to_owned());
    assert_eq!(
        expected_process(&orphan).expect_err("a path needs a name").message,
        "monitored executable path requires a monitored process name"
    );
}

#[test]
fn only_the_current_journal_schema_is_recovered() {
    let document = journal_document(SessionSnapshot::idle(), Vec::new());
    assert_eq!(document.schema_version, SESSION_JOURNAL_SCHEMA_VERSION);
    assert!(recovered_from_document(document).is_ok());
    let mut future = journal_document(SessionSnapshot::idle(), Vec::new());
    future.schema_version = 9;
    assert_eq!(
        recovered_from_document(future).err(),
        Some(CoreError::UnsupportedSessionJournalSchema(9))
    );
}
