use rsc_quickstart::manifest::{
    is_section_key, rewrite_document, rewrite_manifest, rewrite_manifests, Document, Entry,
    ManifestError, Member,
};

const PREFIX: &str = "@redwoodjs/";
const CANARY: &str = "9.0.0-canary.1";

fn value(text: &str) -> serde_json::Value {
    serde_json::from_str(text).unwrap()
}

#[test]
fn prefixed_entries_get_the_version() {
    let input = r#"{"name":"app","dependencies":{"@redwoodjs/core":"7.0.0","react":"18.2.0"},"devDependencies":{"@redwoodjs/cli":"^7"}}"#;
    let out = rewrite_manifest(input, PREFIX, CANARY).unwrap();
    let expected = "{\n  \"name\": \"app\",\n  \"dependencies\": {\n    \"@redwoodjs/core\": \"9.0.0-canary.1\",\n    \"react\": \"18.2.0\"\n  },\n  \"devDependencies\": {\n    \"@redwoodjs/cli\": \"9.0.0-canary.1\"\n  }\n}\n";
    assert_eq!(out, expected);
}

#[test]
fn rewriting_twice_equals_rewriting_once() {
    let input = r#"{"dependencies":{"@redwoodjs/web":"1","@redwoodjs/router":"2","x":"3"},"devDependencies":{}}"#;
    let once = rewrite_manifest(input, PREFIX, CANARY).unwrap();
    let twice = rewrite_manifest(&once, PREFIX, CANARY).unwrap();
    assert_eq!(once, twice);
}

#[test]
fn unrelated_content_is_preserved() {
    let input = r#"{"zeta":{"nested":[1,2.5,{"k":null}]},"private":true,"workspaces":{"packages":["api","web"]},"dependencies":{"@redwoodjs/api":"1.0.0","@other/redwoodjs/x":"2","lodash":{"weird":1}},"alpha":"b"}"#;
    let out = rewrite_manifest(input, PREFIX, CANARY).unwrap();
    let expected = value(r#"{"zeta":{"nested":[1,2.5,{"k":null}]},"private":true,"workspaces":{"packages":["api","web"]},"dependencies":{"@redwoodjs/api":"9.0.0-canary.1","@other/redwoodjs/x":"2","lodash":{"weird":1}},"alpha":"b"}"#);
    assert_eq!(value(&out), expected);
    let keys: Vec<String> = value(&out).as_object().unwrap().keys().cloned().collect();
    assert_eq!(keys, vec!["zeta", "private", "workspaces", "dependencies", "alpha"]);
}

#[test]
fn absent_dev_dependencies_is_fine() {
    let input = r#"{"dependencies":{"@redwoodjs/core":"1"}}"#;
    let out = rewrite_manifest(input, PREFIX, CANARY).unwrap();
    let v = value(&out);
    assert_eq!(v["dependencies"]["@redwoodjs/core"], CANARY);
    assert!(v.get("devDependencies").is_none());
}

#[test]
fn no_sub_mappings_at_all() {
    let input = r#"{"name":"empty"}"#;
    assert_eq!(rewrite_manifest(input, PREFIX, CANARY).unwrap(), "{\n  \"name\": \"empty\"\n}\n");
}

#[test]
fn malformed_text_is_parse_error() {
    assert_eq!(rewrite_manifest("{\"dependencies\": ", PREFIX, CANARY), Err(ManifestError::ParseError));
}

#[test]
fn non_object_sub_mapping_is_rejected() {
    let input = r#"{"dependencies":["@redwoodjs/core"]}"#;
    assert_eq!(rewrite_manifest(input, PREFIX, CANARY), Err(ManifestError::InvalidSection));
    let input = r#"{"dependencies":{},"devDependencies":"none"}"#;
    assert_eq!(rewrite_manifest(input, PREFIX, CANARY), Err(ManifestError::InvalidSection));
}

#[test]
fn non_object_document_is_unchanged() {
    assert_eq!(rewrite_manifest("[1, 2]", PREFIX, CANARY).unwrap(), "[\n  1,\n  2\n]\n");
}

#[test]
fn empty_manifest_set_gives_zero() {
    let out = rewrite_manifests(&vec![], PREFIX, CANARY).unwrap();
    assert_eq!(out.len(), 0);
}

#[test]
fn manifest_set_is_rewritten_in_order() {
    let texts = vec![
        r#"{"dependencies":{"@redwoodjs/a":"1"}}"#.to_string(),
        r#"{"devDependencies":{"@redwoodjs/b":"2"}}"#.to_string(),
    ];
    let out = rewrite_manifests(&texts, PREFIX, CANARY).unwrap();
    assert_eq!(out.len(), 2);
    assert_eq!(value(&out[0])["dependencies"]["@redwoodjs/a"], CANARY);
    assert_eq!(value(&out[1])["devDependencies"]["@redwoodjs/b"], CANARY);
}

#[test]
fn manifest_set_stops_at_first_failure() {
    let texts = vec![r#"{}"#.to_string(), "nope".to_string()];
    assert_eq!(rewrite_manifests(&texts, PREFIX, CANARY), Err(ManifestError::ParseError));
}

#[test]
fn document_rewrite_on_the_model() {
    let doc = Document::Mapping(vec![
        (
            "devDependencies".to_string(),
            Member::Mapping(vec![
                ("@redwoodjs/cli".to_string(), Entry::Text("1".to_string())),
                ("jest".to_string(), Entry::Text("29".to_string())),
            ]),
        ),
        ("dependencies2".to_string(), Member::Mapping(vec![(
            "@redwoodjs/x".to_string(),
            Entry::Text("1".to_string()),
        )])),
    ]);
    let Ok(Document::Mapping(ms)) = rewrite_document(doc, PREFIX, CANARY) else {
        panic!("rewrite failed");
    };
    let Member::Mapping(es) = &ms[0].1 else { panic!("not a mapping") };
    assert!(matches!(&es[0].1, Entry::Text(s) if s == CANARY));
    assert!(matches!(&es[1].1, Entry::Text(s) if s == "29"));
    let Member::Mapping(es) = &ms[1].1 else { panic!("not a mapping") };
    assert!(matches!(&es[0].1, Entry::Text(s) if s == "1"));
}

#[test]
fn section_names() {
    assert!(is_section_key("dependencies"));
    assert!(is_section_key("devDependencies"));
    assert!(!is_section_key("peerDependencies"));
    assert!(!is_section_key("dependencies "));
}

#[test]
fn manifest_set_reports_the_first_failure() {
    let texts = vec![
        r#"{"dependencies":{"@redwoodjs/a":"1"}}"#.to_string(),
        r#"{"devDependencies":[]}"#.to_string(),
        "nope".to_string(),
    ];
    assert_eq!(rewrite_manifests(&texts, PREFIX, CANARY), Err(ManifestError::InvalidSection));
    let texts = vec![
        r#"{}"#.to_string(),
        "{".to_string(),
        r#"{"dependencies":1}"#.to_string(),
    ];
    assert_eq!(rewrite_manifests(&texts, PREFIX, CANARY), Err(ManifestError::ParseError));
}
