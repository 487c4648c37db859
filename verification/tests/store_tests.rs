use fdnix_search::error::SearchError;
use fdnix_search::json::{JsonDocument, JsonField, JsonItem};
use fdnix_search::package::Package;
use fdnix_search::score::Score;
use fdnix_search::store::{
    decompress_payload, find_member, hydrate, record_from_document, PayloadFault, RecordStore,
};

const FULL_RECORD: &str = r#"{
    "package_id": "nodejs-18",
    "package_name": "nodejs",
    "version": "18.17.1",
    "description": "Event-driven I/O framework for the V8 JavaScript engine",
    "homepage": "https://nodejs.org",
    "license": "MIT",
    "attribute_path": "pkgs.nodejs",
    "category": "development",
    "broken": false,
    "unfree": true,
    "available": false,
    "maintainers": [{"name": "alice", "email": "a@example.org"}, "bob"],
    "platforms": ["x86_64-linux", 7, "aarch64-darwin", null],
    "long_description": "A longer text.",
    "main_program": "node",
    "position": "pkgs/development/web/nodejs/v18.nix:1",
    "outputs_to_install": ["out", "dev"],
    "last_updated": "2025-08-27T12:00:00Z"
}"#;

fn compress(text: &str) -> Vec<u8> {
    zstd::bulk::compress(text.as_bytes(), 3).unwrap()
}

fn compress_with(text: &str, dictionary: &[u8]) -> Vec<u8> {
    let mut compressor = zstd::bulk::Compressor::with_dictionary(3, dictionary).unwrap();
    compressor.compress(text.as_bytes()).unwrap()
}

fn sample_dictionary() -> Vec<u8> {
    let mut content = String::new();
    for i in 0..64 {
        content.push_str(&format!(
            "{{\"package_id\": \"pkg-{}\", \"package_name\": \"pkg\", \"version\": \"1.0\", \"license\": \"MIT\"}}",
            i
        ));
    }
    content.into_bytes()
}

fn expected_full_record() -> Package {
    Package {
        package_id: "nodejs-18".to_string(),
        package_name: "nodejs".to_string(),
        version: "18.17.1".to_string(),
        description: "Event-driven I/O framework for the V8 JavaScript engine".to_string(),
        homepage: "https://nodejs.org".to_string(),
        license: "MIT".to_string(),
        attribute_path: "pkgs.nodejs".to_string(),
        category: "development".to_string(),
        broken: false,
        unfree: true,
        available: false,
        relevance_score: Score { num: 1, den: 1 },
        maintainers: Some(vec![
            r#"{"email":"a@example.org","name":"alice"}"#.to_string(),
            r#""bob""#.to_string(),
        ]),
        platforms: Some(vec!["x86_64-linux".to_string(), "aarch64-darwin".to_string()]),
        long_description: Some("A longer text.".to_string()),
        main_program: Some("node".to_string()),
        position: Some("pkgs/development/web/nodejs/v18.nix:1".to_string()),
        outputs_to_install: Some(vec!["out".to_string(), "dev".to_string()]),
        last_updated: Some("2025-08-27T12:00:00Z".to_string()),
    }
}

#[test]
fn hydrate_round_trip_gives_every_field() {
    let payload = compress(FULL_RECORD);
    assert_ne!(payload, FULL_RECORD.as_bytes());
    let record = hydrate(&payload, &None).unwrap();
    assert_eq!(record, expected_full_record());
}

#[test]
fn hydrate_round_trip_matches_the_structured_input() {
    // Build the input as a structure, write it, compress it, and compare
    // what comes back with the structure field by field.
    let mut input = serde_json::Map::new();
    input.insert("package_id".to_string(), serde_json::Value::from("ripgrep-14"));
    input.insert("package_name".to_string(), serde_json::Value::from("ripgrep"));
    input.insert("version".to_string(), serde_json::Value::from("14.1.0"));
    input.insert("description".to_string(), serde_json::Value::from("line-oriented \"search\" tool"));
    input.insert("homepage".to_string(), serde_json::Value::from("https://example.org/rg"));
    input.insert("license".to_string(), serde_json::Value::from("Unlicense"));
    input.insert("attribute_path".to_string(), serde_json::Value::from("pkgs.ripgrep"));
    input.insert("category".to_string(), serde_json::Value::from("tools"));
    input.insert("broken".to_string(), serde_json::Value::from(true));
    input.insert("unfree".to_string(), serde_json::Value::from(false));
    input.insert("available".to_string(), serde_json::Value::from(true));
    input.insert("main_program".to_string(), serde_json::Value::from("rg"));
    let text = serde_json::to_string(&serde_json::Value::Object(input.clone())).unwrap();
    let dictionary = sample_dictionary();
    let payload = compress_with(&text, &dictionary);
    let record = hydrate(&payload, &Some(dictionary)).unwrap();
    assert_eq!(record.package_id, input["package_id"].as_str().unwrap());
    assert_eq!(record.package_name, input["package_name"].as_str().unwrap());
    assert_eq!(record.version, input["version"].as_str().unwrap());
    assert_eq!(record.description, input["description"].as_str().unwrap());
    assert_eq!(record.homepage, input["homepage"].as_str().unwrap());
    assert_eq!(record.license, input["license"].as_str().unwrap());
    assert_eq!(record.attribute_path, input["attribute_path"].as_str().unwrap());
    assert_eq!(record.category, input["category"].as_str().unwrap());
    assert_eq!(record.broken, input["broken"].as_bool().unwrap());
    assert_eq!(record.unfree, input["unfree"].as_bool().unwrap());
    assert_eq!(record.available, input["available"].as_bool().unwrap());
    assert_eq!(record.main_program.as_deref(), input["main_program"].as_str());
    assert_eq!(record.maintainers, None);
    assert_eq!(record.platforms, None);
    assert_eq!(record.long_description, None);
    assert_eq!(record.relevance_score, Score { num: 1, den: 1 });
}

#[test]
fn hydrate_defaults_what_the_payload_lacks() {
    let record = hydrate(&compress("{}"), &None).unwrap();
    let mut expected = Package::new(String::new(), String::new());
    expected.relevance_score = Score { num: 1, den: 1 };
    assert_eq!(record, expected);
    assert!(record.available);
    assert!(!record.broken);
    assert!(!record.unfree);
}

#[test]
fn hydrate_treats_wrong_types_as_missing() {
    let text = r#"{"package_id": 7, "version": null, "broken": "yes", "available": 0,
                   "platforms": "linux", "main_program": ["a"], "maintainers": {}}"#;
    let record = hydrate(&compress(text), &None).unwrap();
    assert_eq!(record.package_id, "");
    assert_eq!(record.version, "");
    assert!(!record.broken);
    assert!(record.available);
    assert_eq!(record.platforms, None);
    assert_eq!(record.main_program, None);
    assert_eq!(record.maintainers, None);
}

#[test]
fn hydrate_license_that_is_no_string_is_kept_as_json() {
    let record = hydrate(&compress(r#"{"license": {"spdxId": "MIT", "free": true}}"#), &None).unwrap();
    assert_eq!(record.license, r#"{"free":true,"spdxId":"MIT"}"#);
    let record = hydrate(&compress(r#"{"license": ["MIT", "Apache-2.0"]}"#), &None).unwrap();
    assert_eq!(record.license, r#"["MIT","Apache-2.0"]"#);
    let record = hydrate(&compress(r#"{"license": null}"#), &None).unwrap();
    assert_eq!(record.license, "null");
    let record = hydrate(&compress(r#"{"license": "GPL-3.0"}"#), &None).unwrap();
    assert_eq!(record.license, "GPL-3.0");
    let record = hydrate(&compress(r#"{"name": "x"}"#), &None).unwrap();
    assert_eq!(record.license, "");
}

#[test]
fn hydrate_document_that_is_no_object_gives_defaults() {
    for text in ["[1, 2]", "\"text\"", "42", "null", "true"] {
        let record = hydrate(&compress(text), &None).unwrap();
        assert_eq!(record.package_id, "");
        assert_eq!(record.license, "");
        assert!(record.available);
    }
}

#[test]
fn hydrate_empty_arrays_stay_arrays() {
    let record = hydrate(&compress(r#"{"platforms": [], "maintainers": [], "outputs_to_install": [1, 2]}"#), &None).unwrap();
    assert_eq!(record.platforms, Some(Vec::new()));
    assert_eq!(record.maintainers, Some(Vec::new()));
    assert_eq!(record.outputs_to_install, Some(Vec::new()));
}

#[test]
fn hydrate_faults() {
    assert_eq!(hydrate(b"this is no zstd frame", &None), Err(PayloadFault::Corrupt));
    assert_eq!(hydrate(&[], &None), Err(PayloadFault::NotJson));
    let not_text = zstd::bulk::compress(&[0xff, 0xfe, 0x00, 0x80], 3).unwrap();
    assert_eq!(hydrate(&not_text, &None), Err(PayloadFault::NotText));
    assert_eq!(hydrate(&compress("{\"package_id\": "), &None), Err(PayloadFault::NotJson));
    assert_eq!(hydrate(&compress("not json"), &None), Err(PayloadFault::NotJson));
}

#[test]
fn decompress_with_the_right_dictionary() {
    let dictionary = sample_dictionary();
    let payload = compress_with(FULL_RECORD, &dictionary);
    let bytes = decompress_payload(&payload, &Some(dictionary)).unwrap();
    assert_eq!(bytes, FULL_RECORD.as_bytes());
}

#[test]
fn decompress_needs_the_dictionary_it_was_made_with() {
    let dictionary = sample_dictionary();
    let text = "{\"package_id\": \"pkg-63\", \"package_name\": \"pkg\", \"version\": \"1.0\", \"license\": \"MIT\"}";
    let payload = compress_with(text, &dictionary);
    let with = decompress_payload(&payload, &Some(dictionary));
    assert_eq!(with.as_deref(), Some(text.as_bytes()));
    let without = decompress_payload(&payload, &None);
    assert_ne!(without.as_deref(), Some(text.as_bytes()));
}

#[test]
fn decompress_falls_back_to_no_dictionary() {
    // A dictionary that cannot be loaded: the magic number of a dictionary,
    // and then nothing that makes one.
    let broken_dictionary = vec![0x37, 0xa4, 0x30, 0xec, 1, 2, 3, 4, 5, 6, 7, 8, 9, 10, 11, 12];
    let payload = compress(FULL_RECORD);
    let bytes = decompress_payload(&payload, &Some(broken_dictionary.clone())).unwrap();
    assert_eq!(bytes, FULL_RECORD.as_bytes());
    let record = hydrate(&payload, &Some(broken_dictionary)).unwrap();
    assert_eq!(record, expected_full_record());
}

#[test]
fn payload_that_compresses_very_well_hydrates() {
    // A record of some hundred kilobytes in a payload of a few hundred bytes.
    let long_description = "0".repeat(300_000);
    let text = format!(
        "{{\"package_id\": \"zeros\", \"version\": \"1\", \"long_description\": \"{}\"}}",
        long_description
    );
    let payload = compress(&text);
    assert!(payload.len() * 100 < text.len());
    assert_eq!(decompress_payload(&payload, &None).as_deref(), Some(text.as_bytes()));
    let record = hydrate(&payload, &None).unwrap();
    assert_eq!(record.package_id, "zeros");
    assert_eq!(record.version, "1");
    assert_eq!(record.long_description, Some(long_description.clone()));
    let dictionary = sample_dictionary();
    let with_dictionary = compress_with(&text, &dictionary);
    let record = hydrate(&with_dictionary, &Some(dictionary)).unwrap();
    assert_eq!(record.long_description, Some(long_description));
}

#[test]
fn store_hydrate_names_the_identifier_in_errors() {
    let store = RecordStore::new(None);
    assert!(!store.has_dictionary());
    let id = "nodejs-18".to_string();
    assert_eq!(store.hydrate(&id, None), Err(SearchError::RecordNotFound(id.clone())));
    assert_eq!(
        store.hydrate(&id, Some(b"garbage".as_slice())),
        Err(SearchError::DecompressionFailed(id.clone()))
    );
    let payload = compress(FULL_RECORD);
    assert_eq!(store.hydrate(&id, Some(payload.as_slice())), Ok(expected_full_record()));
    assert!(!SearchError::RecordNotFound(id.clone()).is_fatal());
    assert!(!SearchError::DecompressionFailed(id).is_fatal());
    assert!(SearchError::NotInitialized.is_fatal());
}

#[test]
fn store_hydrate_hits_drops_failures_and_keeps_scores() {
    let dictionary = sample_dictionary();
    let store = RecordStore::new(Some(dictionary.clone()));
    assert!(store.has_dictionary());
    let hit = |id: &str, num: i64| {
        Package::new(id.to_string(), id.to_string()).with_score(Score { num, den: 100 })
    };
    let hits = vec![hit("a", 90), hit("missing", 80), hit("corrupt", 70), hit("d", 60)];
    let payloads = vec![
        Some(compress_with(r#"{"package_id": "a", "version": "1"}"#, &dictionary)),
        None,
        Some(b"garbage".to_vec()),
        Some(compress(r#"{"package_id": "d", "version": "4"}"#)),
    ];
    let records = store.hydrate_hits(&hits, &payloads);
    assert_eq!(records.len(), 2);
    assert_eq!(records[0].package_id, "a");
    assert_eq!(records[0].version, "1");
    assert_eq!(records[0].relevance_score, Score { num: 90, den: 100 });
    assert_eq!(records[1].package_id, "d");
    assert_eq!(records[1].version, "4");
    assert_eq!(records[1].relevance_score, Score { num: 60, den: 100 });
}

#[test]
fn record_from_document_reads_the_first_member_of_a_key() {
    let field = |key: &str, text: &str| JsonField {
        key: key.to_string(),
        text: Some(text.to_string()),
        flag: None,
        items: None,
        json: format!("\"{}\"", text),
    };
    let document = JsonDocument {
        members: Some(vec![
            field("version", "1.0"),
            field("version", "2.0"),
            JsonField {
                key: "platforms".to_string(),
                text: None,
                flag: None,
                items: Some(vec![
                    JsonItem { text: Some("linux".to_string()), json: "\"linux\"".to_string() },
                    JsonItem { text: None, json: "3".to_string() },
                ]),
                json: "[\"linux\",3]".to_string(),
            },
            JsonField {
                key: "broken".to_string(),
                text: None,
                flag: Some(true),
                items: None,
                json: "true".to_string(),
            },
        ]),
    };
    let record = record_from_document(&document);
    assert_eq!(record.version, "1.0");
    assert_eq!(record.platforms, Some(vec!["linux".to_string()]));
    assert!(record.broken);
    assert_eq!(find_member(&document, "version").unwrap().text.as_deref(), Some("1.0"));
    assert!(find_member(&document, "Version").is_none());
    assert!(find_member(&JsonDocument { members: None }, "version").is_none());
}
