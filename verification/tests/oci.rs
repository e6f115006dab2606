use buildkit::keyset::{PortSet, VolumeSet};
use buildkit::map::{SortedTextMap, TextMap};
use buildkit::unixpath::{path_place, PathPlace};
use buildkit::oci::{ExposedPort, Healthcheck, ImageConfig, PortParseError, RawImageConfig, Signal};
use std::time::Duration;

fn env_map(pairs: &[(&str, &str)]) -> SortedTextMap {
    let mut m = SortedTextMap::new();
    for (k, v) in pairs {
        m.insert(k.to_string(), v.to_string());
    }
    m
}

fn env_pairs(m: &SortedTextMap) -> Vec<(String, String)> {
    (0..m.len()).map(|i| { let (k, v) = m.entry(i); (k.clone(), v.clone()) }).collect()
}

fn raw_with_env(lines: Vec<&str>) -> RawImageConfig {
    RawImageConfig {
        user: None,
        exposed_ports: None,
        env: Some(lines.into_iter().map(String::from).collect()),
        entrypoint: None,
        cmd: None,
        volumes: None,
        working_dir: None,
        labels: None,
        stop_signal: None,
        healthcheck: None,
        shell: None,
        args_escaped: None,
    }
}

#[test]
fn exposed_port_parse() {
    assert_eq!(ExposedPort::try_from("8080/tcp".to_string()), Ok(ExposedPort::Tcp(8080)));
    assert_eq!(ExposedPort::try_from("8081/udp".to_string()), Ok(ExposedPort::Udp(8081)));
    assert_eq!(ExposedPort::try_from("8080".to_string()), Ok(ExposedPort::Tcp(8080)));
    assert_eq!(ExposedPort::try_from("+443/tcp".to_string()), Ok(ExposedPort::Tcp(443)));
    assert_eq!(ExposedPort::try_from("65535/udp".to_string()), Ok(ExposedPort::Udp(65535)));
}

#[test]
fn exposed_port_parse_errors() {
    assert_eq!(ExposedPort::try_from("/tcp".to_string()), Err(PortParseError::Empty));
    assert_eq!(ExposedPort::try_from("+/tcp".to_string()), Err(PortParseError::InvalidDigit));
    assert_eq!(ExposedPort::try_from("80/sctp".to_string()), Err(PortParseError::InvalidDigit));
    assert_eq!(ExposedPort::try_from("-80/tcp".to_string()), Err(PortParseError::InvalidDigit));
    assert_eq!(ExposedPort::try_from("65536/tcp".to_string()), Err(PortParseError::PosOverflow));
    assert_eq!(ExposedPort::try_from("99999x/tcp".to_string()), Err(PortParseError::PosOverflow));
    assert_eq!(PortParseError::Empty.message(), "cannot parse integer from empty string");
    assert_eq!(PortParseError::InvalidDigit.message(), "invalid digit found in string");
    assert_eq!(PortParseError::PosOverflow.message(), "number too large to fit in target type");
}

#[test]
fn exposed_port_format_and_roundtrip() {
    assert_eq!(ExposedPort::Tcp(8080).into_string(), "8080/tcp");
    assert_eq!(ExposedPort::Udp(53).into_string(), "53/udp");
    assert_eq!(ExposedPort::Tcp(0).into_string(), "0/tcp");
    for p in [ExposedPort::Tcp(0), ExposedPort::Udp(9), ExposedPort::Tcp(10), ExposedPort::Udp(65535)] {
        assert_eq!(ExposedPort::try_from(p.into_string()), Ok(p));
    }
}

#[test]
fn exposed_port_order() {
    assert!(ExposedPort::Tcp(9000) < ExposedPort::Udp(1));
    assert!(ExposedPort::Tcp(1) < ExposedPort::Tcp(2));
}

#[test]
fn image_config_from_raw_env() {
    let config = ImageConfig::from_raw(raw_with_env(vec![
        "PATH=/usr/bin:/bin",
        "A=x=y",
        "NOVALUE",
        "B=",
        "A=second",
    ]));
    let env = config.env.as_ref().unwrap();
    assert_eq!(
        env_pairs(env),
        vec![
            ("A".to_string(), "second".to_string()),
            ("B".to_string(), "".to_string()),
            ("NOVALUE".to_string(), "".to_string()),
            ("PATH".to_string(), "/usr/bin:/bin".to_string()),
        ]
    );
    assert_eq!(env.get("PATH"), Some(&"/usr/bin:/bin".to_string()));
}

#[test]
fn image_config_into_raw_env_lines() {
    let mut config = ImageConfig::default();
    config.env = Some(env_map(&[("PATH", "/bin"), ("HOME", "/root"), ("EMPTY", "")]));
    config.user = Some("alice".into());
    config.stop_signal = Some(Signal::SIGKILL);
    config.exposed_ports = Some(vec![ExposedPort::Tcp(8080), ExposedPort::Udp(8081)]);
    let raw = config.clone().into_raw();
    assert_eq!(
        raw.env,
        Some(vec!["EMPTY=".to_string(), "HOME=/root".to_string(), "PATH=/bin".to_string()])
    );
    assert_eq!(raw.user, Some("alice".to_string()));
    assert_eq!(raw.stop_signal, Some(Signal::SIGKILL));
    assert_eq!(
        raw.exposed_ports.clone().unwrap().into_vec(),
        vec![ExposedPort::Tcp(8080), ExposedPort::Udp(8081)]
    );
    assert_eq!(ImageConfig::from_raw(raw), config);
}

#[test]
fn image_config_roundtrip_keeps_healthcheck_and_shell() {
    let mut config = ImageConfig::default();
    config.cmd = Some(vec!["nginx".into(), "-g".into(), "daemon off;".into()]);
    config.healthcheck = Some(Healthcheck {
        test: Some(vec!["CMD-SHELL".into(), "curl -f http://localhost/ || exit 1".into()]),
        interval: Some(Duration::from_secs(30)),
        timeout: Some(Duration::from_secs(5)),
        start_period: Some(Duration::from_secs(60)),
        start_interval: Some(Duration::from_secs(1)),
        retries: Some(3),
    });
    config.shell = Some(vec!["/bin/bash".into(), "-c".into()]);
    config.args_escaped = Some(true);
    config.labels = Some(env_map(&[("com.example.project.git.url", "https://example.com/project.git")]));
    config.volumes = Some(vec!["/var/job-result-data".into(), "/var/log/my-app-logs".into()]);
    config.working_dir = Some("/home/alice".into());
    assert_eq!(ImageConfig::from_raw(config.clone().into_raw()), config);
}

#[test]
fn image_config_default_is_empty() {
    let cfg = ImageConfig::default();
    assert_eq!(cfg, ImageConfig::empty());
    assert!(cfg.user.is_none() && cfg.env.is_none() && cfg.labels.is_none() && cfg.healthcheck.is_none());
    let raw = cfg.into_raw();
    // Every field of the JSON form is absent, so the JSON object has no member.
    assert_eq!(
        raw,
        RawImageConfig {
            user: None,
            exposed_ports: None,
            env: None,
            entrypoint: None,
            cmd: None,
            volumes: None,
            working_dir: None,
            labels: None,
            stop_signal: None,
            healthcheck: None,
            shell: None,
            args_escaped: None,
        }
    );
}

#[test]
fn into_raw_collapses_and_orders_ports() {
    let mut config = ImageConfig::default();
    config.exposed_ports = Some(vec![
        ExposedPort::Udp(1),
        ExposedPort::Tcp(9000),
        ExposedPort::Tcp(80),
        ExposedPort::Udp(1),
        ExposedPort::Tcp(80),
    ]);
    let raw = config.into_raw();
    let ports = raw.exposed_ports.clone().unwrap();
    assert_eq!(ports.len(), 3);
    assert_eq!(ports.into_vec(), vec![ExposedPort::Tcp(80), ExposedPort::Tcp(9000), ExposedPort::Udp(1)]);
    let back = ImageConfig::from_raw(raw);
    assert_eq!(back.exposed_ports, Some(vec![ExposedPort::Tcp(80), ExposedPort::Tcp(9000), ExposedPort::Udp(1)]));
}

#[test]
fn into_raw_collapses_and_orders_volumes() {
    let mut config = ImageConfig::default();
    config.volumes = Some(
        ["/var/log", "/data", "/var/log/", "/a-b", "/a/b", "x/../y", "./x", "/var//log"]
            .iter()
            .map(|s| s.to_string())
            .collect(),
    );
    let raw = config.into_raw();
    let volumes = raw.volumes.clone().unwrap();
    assert_eq!(volumes.get(0), "/a/b");
    assert_eq!(
        volumes.into_vec(),
        vec!["/a/b", "/a-b", "/data", "/var//log", "./x", "x/../y"]
    );
    let back = ImageConfig::from_raw(raw);
    assert_eq!(back.volumes.unwrap(), vec!["/a/b", "/a-b", "/data", "/var//log", "./x", "x/../y"]);
}

#[test]
fn sets_keep_one_item_per_key() {
    let mut ports = PortSet::new();
    ports.insert(ExposedPort::Udp(53));
    ports.insert(ExposedPort::Tcp(53));
    ports.insert(ExposedPort::Udp(53));
    assert_eq!(ports.len(), 2);
    assert_eq!(ports.get(0), ExposedPort::Tcp(53));
    assert_eq!(PortSet::from_list(&vec![ExposedPort::Tcp(2), ExposedPort::Tcp(1)]).into_vec(), vec![ExposedPort::Tcp(1), ExposedPort::Tcp(2)]);

    let mut volumes = VolumeSet::new();
    volumes.insert("/srv/data/".to_string());
    volumes.insert("/srv/./data".to_string());
    volumes.insert("/srv".to_string());
    assert_eq!(volumes.len(), 2);
    // Of texts naming one path, the last added stays.
    assert_eq!(volumes.get(1), "/srv/./data");
    assert_eq!(VolumeSet::from_list(&vec!["b".to_string(), "a".to_string()]).into_vec(), vec!["a", "b"]);
}

#[test]
fn unix_path_order() {
    assert_eq!(path_place("/a/b", "/a-b"), PathPlace::Before);
    assert_eq!(path_place("/a-b", "/a/b"), PathPlace::After);
    assert_eq!(path_place("a//b/./", "a/b"), PathPlace::Same);
    assert_eq!(path_place("./a", "a"), PathPlace::Before);
    assert_eq!(path_place("..", "a"), PathPlace::Before);
    assert_eq!(path_place("/", "."), PathPlace::Before);
    assert_eq!(path_place("", "."), PathPlace::Before);
    assert_eq!(path_place("/x", "/x/y"), PathPlace::Before);
}

#[test]
fn sorted_map_orders_and_replaces() {
    let m = env_map(&[("b", "2"), ("a", "1"), ("c", "3"), ("b", "20"), ("ab", "x")]);
    assert_eq!(
        env_pairs(&m),
        vec![
            ("a".to_string(), "1".to_string()),
            ("ab".to_string(), "x".to_string()),
            ("b".to_string(), "20".to_string()),
            ("c".to_string(), "3".to_string()),
        ]
    );
    assert_eq!(m.get("zz"), None);
    assert_eq!(m.clone(), m);
}

#[test]
fn text_map_insert_then_get() {
    let mut m: TextMap<u32> = TextMap::new();
    m.insert("x".to_string(), 1);
    m.insert("y".to_string(), 2);
    m.insert("x".to_string(), 3);
    assert_eq!(m.len(), 2);
    assert_eq!(m.get("x"), Some(&3));
    assert_eq!(m.get("y"), Some(&2));
    assert_eq!(m.get("z"), None);
    assert_eq!(m.entry(0).0, "x");
    assert_eq!(m.position("y"), Some(1));
    assert!(!m.contains_key("z"));
}
