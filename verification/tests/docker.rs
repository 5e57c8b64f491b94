use devcontainerex::docker::{container_ids, containers_from_inspect, containers_from_json};
use devcontainerex::error::DevContainerExError;
use devcontainerex::json::Json;

#[test]
fn ids_are_nonempty_lines() {
    assert_eq!(container_ids("abc\ndef\n"), vec!["abc".to_string(), "def".to_string()]);
    assert_eq!(container_ids("abc\r\n\n\r\ndef"), vec!["abc".to_string(), "def".to_string()]);
    assert_eq!(container_ids(""), Vec::<String>::new());
    assert_eq!(container_ids("\n\n"), Vec::<String>::new());
    // a carriage return at the very end without a line feed stays, as with `str::lines`
    assert_eq!(container_ids("x\r"), vec!["x\r".to_string()]);
    assert_eq!(container_ids("a\rb\n"), vec!["a\rb".to_string()]);
}

#[test]
fn inspect_output_is_read() {
    let out = br#"[
      {"Name": "/svc-api", "Config": {"Labels": {
          "devcontainer.config_file": "/ws/.devcontainer/devcontainer.json",
          "devcontainer.local_folder": "\\\\wsl.localhost\\Ubuntu\\ws"}}},
      {"Name": "/plain", "Config": {"Labels": {"other": "x"}}},
      {"Name": 3, "Config": {"Labels": {"devcontainer.config_file": "/a/b.json",
          "devcontainer.local_folder": 7}}},
      {"Config": null}
    ]"#;
    let cs = containers_from_inspect(out).ok().unwrap();
    assert_eq!(cs.len(), 2);
    assert_eq!(cs[0].name, "svc-api");
    assert_eq!(cs[0].config_file, "/ws/.devcontainer/devcontainer.json");
    assert_eq!(cs[0].local_folder.as_deref(), Some("\\\\wsl.localhost\\Ubuntu\\ws"));
    assert_eq!(cs[1].name, "");
    assert_eq!(cs[1].config_file, "/a/b.json");
    assert_eq!(cs[1].local_folder, None);
}

#[test]
fn inspect_output_not_an_array_gives_nothing() {
    assert_eq!(containers_from_inspect(b"{\"a\": 1}").ok().unwrap().len(), 0);
    assert_eq!(containers_from_inspect(b"[]").ok().unwrap().len(), 0);
}

#[test]
fn inspect_output_that_is_no_json_is_an_error() {
    match containers_from_inspect(b"[{") {
        Err(DevContainerExError::DockerParse(text)) => {
            let expected = serde_json::from_slice::<serde_json::Value>(b"[{")
                .unwrap_err()
                .to_string();
            assert_eq!(text, expected);
            assert!(!text.is_empty());
        }
        _ => panic!("expected DockerParse"),
    }
}

#[test]
fn json_document_is_read() {
    let doc = Json::Array(vec![Json::Object(vec![
        ("Name".to_string(), Json::Str("//n".to_string())),
        (
            "Config".to_string(),
            Json::Object(vec![(
                "Labels".to_string(),
                Json::Object(vec![
                    ("devcontainer.config_file".to_string(), Json::Str("/c".to_string())),
                    ("devcontainer.local_folder".to_string(), Json::Str("L".to_string())),
                ]),
            )]),
        ),
    ])]);
    let cs = containers_from_json(&doc);
    assert_eq!(cs.len(), 1);
    assert_eq!(cs[0].name, "n");
    assert_eq!(cs[0].config_file, "/c");
    assert_eq!(cs[0].local_folder.as_deref(), Some("L"));
    assert_eq!(containers_from_json(&Json::Null).len(), 0);
}
