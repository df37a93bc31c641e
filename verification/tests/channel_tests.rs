use lunik::channel::{Channel, ChannelKind, Host, ParseError};

#[test]
fn test_roundtrip() {
    let current_host = Host::new("linux".to_string(), "x86_64".to_string());
    let host_text = current_host.to_string();

    let ch = Channel::parse("latest", &current_host).unwrap();
    assert_eq!(ch.to_string(), format!("latest-{}", host_text));

    let ch = Channel::parse("bleeding", &current_host).unwrap();
    assert_eq!(ch.to_string(), format!("bleeding-{}", host_text));

    let ch = Channel::parse("1.0.0", &current_host).unwrap();
    assert_eq!(ch.to_string(), format!("1.0.0-{}", host_text));

    let ch = Channel::parse("latest-linux-x86_64", &current_host).unwrap();
    assert_eq!(ch.to_string(), "latest-linux-x86_64");

    let ch = Channel::parse("bleeding-linux-x86_64", &current_host).unwrap();
    assert_eq!(ch.to_string(), "bleeding-linux-x86_64");

    let ch = Channel::parse("1.0.0-linux-x86_64", &current_host).unwrap();
    assert_eq!(ch.to_string(), "1.0.0-linux-x86_64");
}

#[test]
fn test_malformed() {
    let host = Host::new("linux".to_string(), "x86_64".to_string());
    assert!(Channel::parse("", &host).is_err());
    assert!(Channel::parse("latest-", &host).is_err());
    assert!(Channel::parse("latest-linux", &host).is_err());
}

#[test]
fn parse_kinds() {
    let host = Host::new("darwin".to_string(), "aarch64".to_string());

    let ch = Channel::parse("latest", &host).unwrap();
    assert!(matches!(ch.channel, ChannelKind::Latest));

    let ch = Channel::parse("bleeding", &host).unwrap();
    assert!(matches!(ch.channel, ChannelKind::Bleeding));

    let ch = Channel::parse("0.9.9", &host).unwrap();
    match &ch.channel {
        ChannelKind::Version(v) => assert_eq!(v, "0.9.9"),
        _ => panic!("expected a literal version"),
    }
}

#[test]
fn parse_uses_default_host() {
    let host = Host::new("darwin".to_string(), "aarch64".to_string());
    let ch = Channel::parse("latest", &host).unwrap();
    assert_eq!(ch.host.to_string(), "darwin-aarch64");
    assert_eq!(ch.to_string(), "latest-darwin-aarch64");
}

#[test]
fn parse_error_variants() {
    let host = Host::new("linux".to_string(), "x86_64".to_string());
    assert_eq!(Channel::parse("", &host).unwrap_err(), ParseError::EmptyRelease);
    assert_eq!(
        Channel::parse("-linux-x86_64", &host).unwrap_err(),
        ParseError::EmptyRelease
    );
    assert_eq!(Channel::parse("latest-", &host).unwrap_err(), ParseError::MissingArch);
    assert_eq!(
        Channel::parse("latest-linux", &host).unwrap_err(),
        ParseError::MissingArch
    );
    assert_eq!(
        Channel::parse("latest-linux-x86_64-gnu", &host).unwrap_err(),
        ParseError::ExtraHostComponent
    );
}

#[test]
fn host_parse_and_render() {
    let host = Host::parse("linux-x86_64").unwrap();
    assert_eq!(host.to_string(), "linux-x86_64");
    assert_eq!(Host::parse("linux").unwrap_err(), ParseError::MissingArch);
    assert_eq!(
        Host::parse("linux-x86_64-gnu").unwrap_err(),
        ParseError::ExtraHostComponent
    );
}

#[test]
fn kind_render() {
    assert_eq!(ChannelKind::Latest.to_string(), "latest");
    assert_eq!(ChannelKind::Bleeding.to_string(), "bleeding");
    assert_eq!(ChannelKind::Version("2.3.4".to_string()).to_string(), "2.3.4");
    assert!(matches!(ChannelKind::parse("latest"), ChannelKind::Latest));
    assert!(matches!(ChannelKind::parse("weekly"), ChannelKind::Version(_)));
}
