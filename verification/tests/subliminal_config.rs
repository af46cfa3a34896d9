use rustitles::config::{credential_edits, credentials_config, session_config};

#[test]
fn credential_sync_preserves_unrelated_toml_and_refuses_invalid_input() {
    let content = "# keep\n[download]\nforce = true\n[provider.other]\nsetting = 'preserved'\n";
    let value = "fixture\\\"\n\t";
    let result = credentials_config(content, "", value, "").unwrap();
    let doc = result.parse::<toml_edit::DocumentMut>().unwrap();
    assert_eq!(
        doc["provider"]["opensubtitlescom"]["password"].as_str(),
        Some(value)
    );
    assert_eq!(
        doc["provider"]["other"]["setting"].as_str(),
        Some("preserved")
    );
    assert!(result.starts_with("# keep"));
    let snapshot = session_config(&result)
        .unwrap()
        .parse::<toml_edit::DocumentMut>()
        .unwrap();
    assert_eq!(snapshot["download"]["force"].as_bool(), Some(false));
    assert_eq!(doc["download"]["force"].as_bool(), Some(true));
    assert_eq!(
        credentials_config("[invalid", "", "", ""),
        Err("Invalid Subliminal configuration; the existing file was not changed".to_string())
    );
}

#[test]
fn empty_credentials_are_removed() {
    let result = credentials_config(
        "[provider.opensubtitlescom]\nusername = 'old'\napikey = 'k'\n",
        "",
        "pw",
        "",
    )
    .unwrap();
    let doc = result.parse::<toml_edit::DocumentMut>().unwrap();
    let table = &doc["provider"]["opensubtitlescom"];
    assert!(table.get("username").is_none());
    assert!(table.get("apikey").is_none());
    assert_eq!(table["password"].as_str(), Some("pw"));
    assert_eq!(
        credential_edits("u", "", "k"),
        vec![
            ("username".to_string(), Some("u".to_string())),
            ("password".to_string(), None),
            ("apikey".to_string(), Some("k".to_string())),
        ]
    );
}

#[test]
fn configuration_errors_name_the_offending_table() {
    assert_eq!(
        credentials_config("provider = 3\n", "u", "", ""),
        Err("Subliminal provider configuration must be a table".to_string())
    );
    assert_eq!(
        credentials_config("[provider]\nopensubtitlescom = 'x'\n", "u", "", ""),
        Err("OpenSubtitles.com configuration must be a table".to_string())
    );
    assert_eq!(
        session_config("download = 1\n"),
        Err("Subliminal download configuration must be a table".to_string())
    );
    assert_eq!(
        session_config("[x"),
        Err("Invalid Subliminal configuration".to_string())
    );
}

#[test]
fn session_configuration_sets_the_download_defaults() {
    let result = session_config("[download]\ndirectory = '/tmp'\nsingle = true\n").unwrap();
    let doc = result.parse::<toml_edit::DocumentMut>().unwrap();
    let download = &doc["download"];
    assert!(download.get("directory").is_none());
    assert_eq!(download["single"].as_bool(), Some(false));
    assert_eq!(download["force_external_subtitles"].as_bool(), Some(false));
    assert_eq!(download["language_format"].as_str(), Some("alpha2"));
    let inline = session_config("download = { single = true }\n").unwrap();
    let doc = inline.parse::<toml_edit::DocumentMut>().unwrap();
    assert_eq!(doc["download"]["single"].as_bool(), Some(false));
}
