use buildkit::pb::Platform;
use buildkit::platform::{
    darwin_amd64, darwin_arm64, linux_386, linux_amd64, linux_arm64, linux_arm_v6, linux_arm_v7,
    linux_ppc64le, linux_riscv64, linux_s390x, platform_id, windows_amd64,
};

#[test]
fn ids() {
    assert_eq!(platform_id(&linux_amd64()), "linux/amd64");
    assert_eq!(platform_id(&linux_arm64()), "linux/arm64");
    assert_eq!(platform_id(&linux_arm_v7()), "linux/arm/v7");
    assert_eq!(platform_id(&linux_arm_v6()), "linux/arm/v6");
    assert_eq!(platform_id(&windows_amd64()), "windows/amd64");
    assert_eq!(platform_id(&darwin_arm64()), "darwin/arm64");
}

#[test]
fn helper_platform_fields() {
    let p = linux_arm_v7();
    assert_eq!(p.os, "linux");
    assert_eq!(p.architecture, "arm");
    assert_eq!(p.variant, "v7");
    assert_eq!(p.os_version, "");
    assert!(p.os_features.is_empty());
    assert_eq!(platform_id(&linux_386()), "linux/386");
    assert_eq!(platform_id(&linux_ppc64le()), "linux/ppc64le");
    assert_eq!(platform_id(&linux_s390x()), "linux/s390x");
    assert_eq!(platform_id(&linux_riscv64()), "linux/riscv64");
    assert_eq!(platform_id(&darwin_amd64()), "darwin/amd64");
}

#[test]
fn parse_fills_defaults() {
    let p = Platform::parse("windows");
    assert_eq!(p.os, "windows");
    assert_eq!(p.architecture, "amd64");
    assert_eq!(p.variant, "");

    let p = Platform::parse("linux/arm64");
    assert_eq!((p.os.as_str(), p.architecture.as_str(), p.variant.as_str()), ("linux", "arm64", ""));

    let p = Platform::parse("linux/arm/v7/extra");
    assert_eq!((p.os.as_str(), p.architecture.as_str(), p.variant.as_str()), ("linux", "arm", "v7/extra"));

    let p = Platform::parse("");
    assert_eq!((p.os.as_str(), p.architecture.as_str(), p.variant.as_str()), ("", "amd64", ""));
}

#[test]
fn from_str_matches_parse() {
    let p: Platform = "darwin/arm64".parse().unwrap();
    assert_eq!(p, darwin_arm64());
}

#[test]
fn parse_of_id_roundtrip() {
    for p in [linux_amd64(), linux_arm_v7(), linux_arm_v6(), windows_amd64(), darwin_arm64()] {
        assert_eq!(Platform::parse(&platform_id(&p)), p);
    }
}

#[test]
fn id_of_parse_roundtrip() {
    for s in ["linux/amd64", "linux/arm/v7", "freebsd/riscv64/v1/x"] {
        assert_eq!(platform_id(&Platform::parse(s)), s);
        assert_eq!(Platform::parse(s).to_string(), s);
    }
    // An empty variant is not written back.
    assert_eq!(platform_id(&Platform::parse("linux/arm/")), "linux/arm");
}
