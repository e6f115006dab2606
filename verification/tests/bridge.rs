use buildkit::bridge::{
    build_multi_platform_return, error_return_request, extract_solve_result, read_file_request,
    platforms_payload, single_return_request, solve_result_ref, solve_result_refs, success_return_request,
    BridgeError,
    ErrorCode, FileRange, Output, Ref, RefMap, RefResult, SolveResponse,
};
use buildkit::frontend::{FrontendOutput, FrontendOutputInner, MultiPlatformEntry, OutputRef};
use buildkit::map::TextMap;
use buildkit::oci::{Architecture, ImageSpecification, OperatingSystem};
use buildkit::platform;

fn minimal_spec() -> ImageSpecification {
    ImageSpecification {
        created: None,
        author: None,
        architecture: Architecture::Amd64,
        os: OperatingSystem::Linux,
        os_version: None,
        os_features: None,
        variant: None,
        config: None,
        rootfs: None,
        history: None,
    }
}

#[test]
fn multi_platform_metadata_shape() {
    let entries = vec![
        MultiPlatformEntry::new(platform::linux_amd64(), OutputRef("amd64-id".into())),
        MultiPlatformEntry::new(platform::linux_arm_v7(), OutputRef("arm-id".into())),
    ];

    let request = build_multi_platform_return(&entries, &vec![None, None]).unwrap();
    let result = request.result.unwrap();

    match result.result.unwrap() {
        RefResult::Refs(RefMap { refs }) => {
            assert_eq!(refs.len(), 2);
            assert_eq!(refs.get("linux/amd64").unwrap().id, "amd64-id");
            assert_eq!(refs.get("linux/arm/v7").unwrap().id, "arm-id");
        }
        other => panic!("expected RefResult::Refs, got {:?}", other),
    }

    let platforms_blob = result.metadata.get("refs.platforms").unwrap();
    let parsed: serde_json::Value = serde_json::from_slice(platforms_blob).unwrap();
    let arr = parsed["platforms"].as_array().unwrap();
    assert_eq!(arr.len(), 2);

    let amd = arr.iter().find(|e| e["ID"] == "linux/amd64").unwrap();
    assert_eq!(amd["platform"]["architecture"], "amd64");
    assert_eq!(amd["platform"]["os"], "linux");
    assert!(amd["platform"].get("variant").is_none());

    let arm = arr.iter().find(|e| e["ID"] == "linux/arm/v7").unwrap();
    assert_eq!(arm["platform"]["architecture"], "arm");
    assert_eq!(arm["platform"]["os"], "linux");
    assert_eq!(arm["platform"]["variant"], "v7");

    // No image_spec was attached, so no per-platform config keys.
    for i in 0..result.metadata.len() {
        let (key, _) = result.metadata.entry(i);
        assert!(!key.starts_with(&format!("{}/", "containerimage.config")));
    }
}

#[test]
fn multi_platform_rejects_duplicate_id() {
    let entries = vec![
        MultiPlatformEntry::new(platform::linux_amd64(), OutputRef("a".into())),
        MultiPlatformEntry::new(platform::linux_amd64(), OutputRef("b".into())),
    ];

    let err = build_multi_platform_return(&entries, &vec![None, None]).unwrap_err();
    assert!(err.message().contains("duplicate platform id"));
}

#[test]
fn multi_platform_rejects_empty() {
    let err = build_multi_platform_return(&Vec::new(), &Vec::new()).unwrap_err();
    assert!(err.message().contains("at least one entry"));
}

#[test]
fn multi_platform_reports_first_repeated_id() {
    let entries = vec![
        MultiPlatformEntry::new(platform::linux_amd64(), OutputRef("a".into())),
        MultiPlatformEntry::new(platform::linux_arm64(), OutputRef("b".into())),
        MultiPlatformEntry::new(platform::linux_arm64(), OutputRef("c".into())),
        MultiPlatformEntry::new(platform::linux_amd64(), OutputRef("d".into())),
    ];
    let err = build_multi_platform_return(&entries, &vec![None, None, None, None]).unwrap_err();
    assert_eq!(err, BridgeError::DuplicatePlatformId("linux/arm64".to_string()));
    assert_eq!(err.message(), "duplicate platform id in multi-platform output: linux/arm64");
}

#[test]
fn multi_platform_config_keys_per_entry() {
    let entries = vec![
        MultiPlatformEntry::new(platform::linux_amd64(), OutputRef("a".into())).with_spec(minimal_spec()),
        MultiPlatformEntry::new(platform::linux_arm64(), OutputRef("b".into())),
        MultiPlatformEntry::new(platform::linux_arm_v7(), OutputRef("c".into()))
            .with_id("arm")
            .with_spec(minimal_spec()),
    ];
    let payloads = vec![Some(b"{\"a\":1}".to_vec()), None, Some(b"{\"c\":3}".to_vec())];
    let request = build_multi_platform_return(&entries, &payloads).unwrap();
    assert!(request.error.is_none());
    let out = request.result.unwrap();
    assert_eq!(out.metadata.len(), 3);
    assert_eq!(out.metadata.entry(0).0, "containerimage.config/linux/amd64");
    assert_eq!(out.metadata.entry(0).1, &b"{\"a\":1}".to_vec());
    assert_eq!(out.metadata.entry(1).0, "containerimage.config/arm");
    assert_eq!(out.metadata.entry(1).1, &b"{\"c\":3}".to_vec());
    assert_eq!(out.metadata.entry(2).0, "refs.platforms");
    assert_eq!(
        String::from_utf8(out.metadata.entry(2).1.clone()).unwrap(),
        [
            r#"{"platforms":[{"ID":"linux/amd64","platform":{"architecture":"amd64","os":"linux"}},"#,
            r#"{"ID":"linux/arm64","platform":{"architecture":"arm64","os":"linux"}},"#,
            r#"{"ID":"arm","platform":{"architecture":"arm","os":"linux","variant":"v7"}}]}"#,
        ]
        .concat()
    );
    match out.result.unwrap() {
        RefResult::Refs(m) => {
            assert_eq!(m.refs.len(), 3);
            assert_eq!(m.refs.entry(2).0, "arm");
            assert_eq!(m.refs.entry(2).1.id, "c");
        }
        other => panic!("expected refs, got {:?}", other),
    }
}

#[test]
fn single_return_carries_config() {
    let request = single_return_request(OutputRef("ref-1".into()), Some(b"{}".to_vec()));
    assert!(request.error.is_none());
    let out = request.result.unwrap();
    assert_eq!(out.metadata.len(), 1);
    assert_eq!(out.metadata.get("containerimage.config"), Some(&b"{}".to_vec()));
    match out.result.unwrap() {
        RefResult::Ref(r) => assert_eq!(r, Ref { id: "ref-1".into() }),
        other => panic!("expected a ref, got {:?}", other),
    }

    let request = single_return_request(OutputRef("ref-2".into()), None);
    assert_eq!(request.result.unwrap().metadata.len(), 0);
}

#[test]
fn success_request_dispatches_on_output() {
    let single = FrontendOutput::with_spec_and_ref(minimal_spec(), OutputRef("x".into()));
    match &single.inner {
        FrontendOutputInner::Single { output, image_spec } => {
            assert_eq!(output, &OutputRef("x".into()));
            assert!(image_spec.is_some());
        }
        _ => panic!("expected a single output"),
    }
    let request = success_return_request(single, vec![Some(b"{}".to_vec())]).unwrap();
    assert!(request.result.unwrap().metadata.contains_key("containerimage.config"));

    let plain = FrontendOutput::with_ref(OutputRef("y".into()));
    let request = success_return_request(plain, vec![None]).unwrap();
    assert_eq!(request.result.unwrap().metadata.len(), 0);

    let empty = FrontendOutput::with_multi_platform(Vec::new());
    let err = success_return_request(empty, Vec::new()).unwrap_err();
    assert_eq!(err, BridgeError::EmptyMultiPlatform);
}

#[test]
fn error_request_has_code_and_message() {
    let request = error_return_request(ErrorCode::Unknown, "boom".to_string());
    assert!(request.result.is_none());
    let status = request.error.unwrap();
    assert_eq!(status.code, 2);
    assert_eq!(status.message, "boom");
    assert_eq!(ErrorCode::Success.number(), 0);
    assert_eq!(ErrorCode::Unauthenticated.number(), 16);
    assert_eq!(ErrorCode::NotFound.number(), 5);
}

#[test]
fn solve_results_are_interpreted() {
    assert_eq!(solve_result_ref(RefResult::Ref(Ref { id: "r".into() })), Ok(OutputRef("r".into())));
    let err = solve_result_ref(RefResult::RefDeprecated("r".into())).unwrap_err();
    assert_eq!(err, BridgeError::UnexpectedSolveResponse(RefResult::RefDeprecated("r".into())));
    assert_eq!(err.message(), "Unexpected solve response: RefDeprecated(\"r\")");

    let mut refs = TextMap::new();
    refs.insert("linux/amd64".to_string(), Ref { id: "a".into() });
    refs.insert("linux/arm64".to_string(), Ref { id: "b".into() });
    let map = solve_result_refs(RefResult::Refs(RefMap { refs })).unwrap();
    assert_eq!(map.len(), 2);
    assert_eq!(map.get("linux/arm64"), Some(&OutputRef("b".into())));

    let single = solve_result_refs(RefResult::Ref(Ref { id: "only".into() })).unwrap();
    assert_eq!(single.len(), 1);
    assert_eq!(single.get(""), Some(&OutputRef("only".into())));

    assert_eq!(
        solve_result_refs(RefResult::RefsDeprecated(TextMap::new())).unwrap_err(),
        BridgeError::UnexpectedSolveResponse(RefResult::RefsDeprecated(TextMap::new()))
    );
}

#[test]
fn solve_response_without_result_is_an_error() {
    assert_eq!(
        extract_solve_result(SolveResponse { result: None }).unwrap_err(),
        BridgeError::MissingSolveResult
    );
    let empty = Output { result: None, metadata: TextMap::new() };
    assert_eq!(
        extract_solve_result(SolveResponse { result: Some(empty) }).unwrap_err().message(),
        "Unable to extract solve result"
    );
    let full = Output { result: Some(RefResult::Ref(Ref { id: "z".into() })), metadata: TextMap::new() };
    match extract_solve_result(SolveResponse { result: Some(full) }).unwrap() {
        RefResult::Ref(r) => assert_eq!(r.id, "z"),
        other => panic!("unexpected {:?}", other),
    }
}

#[test]
fn read_file_request_fields() {
    let req = read_file_request(&OutputRef("layer".into()), "/etc/os-release".into(), Some(FileRange { offset: 4, length: 8 }));
    assert_eq!(req.reference, "layer");
    assert_eq!(req.file_path, "/etc/os-release");
    assert_eq!(req.range, Some(FileRange { offset: 4, length: 8 }));
}

#[test]
fn entry_builders() {
    let e = MultiPlatformEntry::new(platform::linux_arm_v7(), OutputRef("o".into()));
    assert_eq!(e.id, "linux/arm/v7");
    assert!(e.image_spec.is_none());
    let e = e.with_id(String::from("custom"));
    assert_eq!(e.id, "custom");
    assert_eq!(e.platform, platform::linux_arm_v7());
}

#[test]
fn multi_platform_duplicate_is_not_the_empty_error() {
    let entries = vec![
        MultiPlatformEntry::new(platform::linux_amd64(), OutputRef("a".into())),
        MultiPlatformEntry::new(platform::linux_amd64(), OutputRef("b".into())),
    ];
    let err = build_multi_platform_return(&entries, &vec![None, None]).unwrap_err();
    assert_eq!(err, BridgeError::DuplicatePlatformId("linux/amd64".to_string()));
    let output = FrontendOutput::with_multi_platform(entries);
    let err = success_return_request(output, vec![None, None]).unwrap_err();
    assert_eq!(err, BridgeError::DuplicatePlatformId("linux/amd64".to_string()));
}

#[test]
fn platforms_payload_writes_optional_fields_and_escapes() {
    let mut p = platform::linux_arm_v7();
    p.os_version = "10.0.17763".to_string();
    p.os_features = vec!["win32k".to_string(), "a\"b".to_string()];
    let entries = vec![
        MultiPlatformEntry::new(p, OutputRef("o".into())).with_id(String::from("id\twith\\odd\u{1}chars")),
    ];
    let bytes = platforms_payload(&entries);
    assert_eq!(
        String::from_utf8(bytes.clone()).unwrap(),
        [
            r#"{"platforms":[{"ID":"id\twith\\odd\u0001chars","platform":{"architecture":"arm","os":"linux","#,
            r#""variant":"v7","os.version":"10.0.17763","os.features":["win32k","a\"b"]}}]}"#,
        ]
        .concat()
    );
    let parsed: serde_json::Value = serde_json::from_slice(&bytes).unwrap();
    assert_eq!(parsed["platforms"][0]["ID"], "id\twith\\odd\u{1}chars");
    assert_eq!(parsed["platforms"][0]["platform"]["os.features"][1], "a\"b");
    assert_eq!(String::from_utf8(platforms_payload(&Vec::new())).unwrap(), r#"{"platforms":[]}"#);
}
