use buildkit::context::Context;
use buildkit::copy::CopyOperation;
use buildkit::merge::MergeOperation;
use buildkit::mkdir::MakeDirOperation;
use buildkit::mount::{is_root_dir, Mount};
use buildkit::path::LayerPath;
use buildkit::pb::{self, ChownOpt, FileActionKind, Meta, OpKind, UserOpt, UserOptUser};
use buildkit::sequence::FileOperationItem;
use buildkit::utils::{OperationOutput, OutputIdx, OwnOutputIdx};

fn other(digest: &str, idx: u32) -> OperationOutput {
    OperationOutput::new(digest.to_string(), OutputIdx(idx))
}

fn owner() -> ChownOpt {
    ChownOpt {
        user: Some(UserOpt { user: Some(UserOptUser::ById(1000)) }),
        group: None,
    }
}

#[test]
fn copy_defaults() {
    let op = CopyOperation::new()
        .from(LayerPath::Scratch("/src"))
        .to(OutputIdx(0), LayerPath::Scratch("/dst"));
    let action = op.serialize_action(0, 0);
    assert_eq!(action.input, -1);
    assert_eq!(action.secondary_input, -1);
    assert_eq!(action.output, 0);
    match action.action.unwrap() {
        FileActionKind::Copy(c) => {
            assert_eq!(c.src, "/src");
            assert_eq!(c.dest, "/dst");
            assert!(!c.follow_symlink && !c.dir_copy_contents && !c.create_dest_path && !c.allow_wildcard);
            assert_eq!(c.mode, -1);
            assert_eq!(c.mode_str, "");
            assert!(c.owner.is_none());
            assert!(c.include_patterns.is_empty() && c.exclude_patterns.is_empty());
            assert!(!c.attempt_unpack_docker_compatibility);
            assert_eq!(c.timestamp, -1);
            assert!(!c.allow_empty_wildcard && !c.always_replace_existing_dest_paths);
        }
        other => panic!("expected a copy, got {:?}", other),
    }
    assert!(op.serialize_inputs().is_empty());
}

#[test]
fn copy_options_survive_from_and_to() {
    let op = CopyOperation::new()
        .follow_symlinks(true)
        .recursive(true)
        .create_path(true)
        .wildcard(true)
        .chmod(0o755)
        .chmod_str("u+x")
        .chown(owner())
        .include_patterns(vec!["*.rs", "Cargo.toml"])
        .exclude_patterns(vec![String::from("target")])
        .unpack(true)
        .from(LayerPath::Other(other("sha256:src", 1), "/app"))
        .to(OutputIdx(2), LayerPath::Other(other("sha256:dst", 0), "/out"));
    let inputs = op.serialize_inputs();
    assert_eq!(inputs.len(), 2);
    assert_eq!(inputs[0], pb::Input { digest: "sha256:src".into(), index: 1 });
    assert_eq!(inputs[1], pb::Input { digest: "sha256:dst".into(), index: 0 });

    let action = op.serialize_action(5, 3);
    assert_eq!(action.secondary_input, 3);
    assert_eq!(action.input, 4);
    assert_eq!(action.output, 2);
    match action.action.unwrap() {
        FileActionKind::Copy(c) => {
            assert_eq!(c.src, "/app");
            assert_eq!(c.dest, "/out");
            assert!(c.follow_symlink && c.dir_copy_contents && c.create_dest_path && c.allow_wildcard);
            assert_eq!(c.mode, 0o755);
            assert_eq!(c.mode_str, "u+x");
            assert_eq!(c.owner, Some(owner()));
            assert_eq!(c.include_patterns, vec!["*.rs".to_string(), "Cargo.toml".to_string()]);
            assert_eq!(c.exclude_patterns, vec!["target".to_string()]);
            assert!(c.attempt_unpack_docker_compatibility);
        }
        other => panic!("expected a copy, got {:?}", other),
    }
}

#[test]
fn copy_indices_for_own_outputs() {
    let op = CopyOperation::new()
        .from(LayerPath::Own(OwnOutputIdx(1), "/a"))
        .to(OutputIdx(3), LayerPath::Own(OwnOutputIdx(2), "/b"));
    let action = op.serialize_action(4, 7);
    assert_eq!(action.secondary_input, 5);
    assert_eq!(action.input, 6);
    assert_eq!(action.output, 3);
    assert_eq!(op.output(), 3);

    // A destination read from another operation after a scratch source
    // takes the action's first input slot.
    let op = CopyOperation::new()
        .from(LayerPath::Scratch("/a"))
        .to(OutputIdx(0), LayerPath::Other(other("d", 0), "/b"));
    let action = op.serialize_action(2, 1);
    assert_eq!(action.secondary_input, -1);
    assert_eq!(action.input, 1);
    assert_eq!(op.serialize_inputs().len(), 1);

    // With a scratch source the destination's slot may be the last index
    // that protobuf's 32-bit field holds.
    let last = i32::MAX as usize;
    let action = op.serialize_action(last, last);
    assert_eq!(action.input, i32::MAX as i64);
}

#[test]
fn copy_into_operation_is_one_step() {
    let seq = CopyOperation::new()
        .from(LayerPath::Scratch("/a"))
        .to(OutputIdx(0), LayerPath::Scratch("/b"))
        .into_operation();
    assert_eq!(seq.len(), 1);
    assert!(matches!(seq.item(0), FileOperationItem::Copy(_)));
}

#[test]
fn mkdir_defaults_and_options() {
    let op = MakeDirOperation::new(OutputIdx(1), LayerPath::Other(other("sha256:base", 2), "/var/lib"));
    let inputs = op.serialize_inputs();
    assert_eq!(inputs, vec![pb::Input { digest: "sha256:base".into(), index: 2 }]);
    let action = op.serialize_action(3, 2);
    assert_eq!(action.input, 2);
    assert_eq!(action.secondary_input, -1);
    assert_eq!(action.output, 1);
    match action.action.unwrap() {
        FileActionKind::Mkdir(m) => {
            assert_eq!(m.path, "/var/lib");
            assert!(!m.make_parents);
            assert_eq!(m.mode, -1);
            assert!(m.owner.is_none());
            assert_eq!(m.timestamp, -1);
        }
        other => panic!("expected mkdir, got {:?}", other),
    }

    let op = MakeDirOperation::new(OutputIdx(0), LayerPath::Own(OwnOutputIdx(1), String::from("/x")))
        .make_parents(true)
        .chmod(0o700)
        .chown(owner());
    assert!(op.serialize_inputs().is_empty());
    let action = op.serialize_action(2, 0);
    assert_eq!(action.input, 3);
    match action.action.unwrap() {
        FileActionKind::Mkdir(m) => {
            assert!(m.make_parents);
            assert_eq!(m.mode, 0o700);
            assert_eq!(m.owner, Some(owner()));
        }
        other => panic!("expected mkdir, got {:?}", other),
    }

    let scratch = MakeDirOperation::new(OutputIdx(0), LayerPath::Scratch("/tmp"));
    assert_eq!(scratch.serialize_action(9, 9).input, -1);
    let seq = scratch.into_operation();
    assert_eq!(seq.len(), 1);
    assert!(matches!(seq.item(0), FileOperationItem::MakeDir(_)));
}

#[test]
fn merge_serializes_inputs_in_order() {
    let op = MergeOperation::new(vec![other("sha256:a", 0), other("sha256:b", 3)])
        .custom_name("merge layers")
        .ignore_cache(true);
    let node = op.serialize();
    assert_eq!(
        node.head.inputs,
        vec![
            pb::Input { digest: "sha256:a".into(), index: 0 },
            pb::Input { digest: "sha256:b".into(), index: 3 },
        ]
    );
    match node.head.op.unwrap() {
        OpKind::Merge(m) => {
            assert_eq!(m.inputs, vec![pb::MergeInput { input: 0 }, pb::MergeInput { input: 1 }]);
        }
        other => panic!("expected merge, got {:?}", other),
    }
    assert!(node.head.platform.is_none());
    assert!(node.metadata.ignore_cache);
    assert_eq!(node.metadata.description.get("llb.customname"), Some(&"merge layers".to_string()));
    assert_eq!(node.metadata.caps.get("mergeop"), Some(&true));
    assert_eq!(node.metadata.caps.len(), 1);

    let plain = MergeOperation::new(Vec::new()).serialize();
    assert!(plain.head.inputs.is_empty());
    assert!(!plain.metadata.ignore_cache);
    assert_eq!(plain.metadata.description.len(), 0);
}

#[test]
fn merge_custom_name_replaces() {
    let node = MergeOperation::new(Vec::new())
        .custom_name("first")
        .custom_name(String::from("second"))
        .serialize();
    assert_eq!(node.metadata.description.len(), 1);
    assert_eq!(node.metadata.description.get("llb.customname"), Some(&"second".to_string()));
}

#[test]
fn context_defaults_and_meta() {
    let cx = Context::new("sh");
    assert_eq!(cx.name, "sh");
    assert_eq!(cx.cwd, "/");
    assert_eq!(cx.user, "root");
    assert!(cx.args.is_empty() && cx.env.is_empty());

    let mut cx = Context::new(String::from("/bin/echo"));
    cx.args = vec!["hello".into(), "world".into()];
    cx.env = vec!["A=1".into()];
    cx.cwd = "/work".into();
    let meta = Meta::from_context(cx);
    assert_eq!(meta.args, vec!["/bin/echo".to_string(), "hello".into(), "world".into()]);
    assert_eq!(meta.env, vec!["A=1".to_string()]);
    assert_eq!(meta.cwd, "/work");
    assert_eq!(meta.user, "root");
    assert_eq!(meta.hostname, "");
}

#[test]
fn mount_root_detection() {
    assert!(is_root_dir("/"));
    assert!(is_root_dir("//"));
    assert!(is_root_dir("/./"));
    assert!(is_root_dir("/."));
    assert!(!is_root_dir("/.."));
    assert!(!is_root_dir("/a"));
    assert!(!is_root_dir(""));
    assert!(!is_root_dir("."));
    assert!(!is_root_dir("/.a"));

    assert!(Mount::Scratch(OutputIdx(0), "/").is_root());
    assert!(Mount::ReadOnlyLayer(other("d", 0), "/").is_root());
    assert!(!Mount::SharedCache("/cache").is_root());
    assert!(Mount::Tmpfs("/", pb::TmpfsOpt { size: 1 }).is_root());
    let secret = pb::SecretOpt { id: "s".into(), uid: 0, gid: 0, mode: 0o400, optional: false };
    assert!(!Mount::Secret("/", secret).is_root());
    assert!(!Mount::OptionalSshAgent("/").is_root());
}

#[test]
fn mount_into_owned_keeps_content() {
    let m = Mount::ReadOnlySelector(other("d", 1), "/mnt", "/sub").into_owned();
    match m {
        Mount::ReadOnlySelector(op, path, selector) => {
            assert_eq!(op.digest, "d");
            assert_eq!(op.output(), OutputIdx(1));
            assert_eq!(path, "/mnt");
            assert_eq!(selector, "/sub");
        }
        other => panic!("unexpected {:?}", other),
    }
    let cache = pb::CacheOpt { id: "c".into(), sharing: 1 };
    match Mount::Cache("/cache", cache.clone(), true).into_owned() {
        Mount::Cache(path, opt, ro) => {
            assert_eq!(path, "/cache");
            assert_eq!(opt, cache);
            assert!(ro);
        }
        other => panic!("unexpected {:?}", other),
    }
}

#[test]
fn output_indices_convert() {
    assert_eq!(OutputIdx(7).as_i64(), 7);
    assert_eq!(OutputIdx(7).as_i32(), 7);
    assert_eq!(OwnOutputIdx(3).as_i64(), 3);
    assert_eq!(OwnOutputIdx(3).as_i32(), 3);
}
