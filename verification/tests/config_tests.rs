use porcelain::config::{
    parse_gpg_format, Commit, Config, ConfigError, Gpg, GpgConfig, GpgFormat, Push, User,
};
use porcelain::signer::{SignerError, SshSigner};

fn config(key: Option<&str>, format: Option<GpgFormat>, programs: Vec<(&str, Option<&str>)>) -> Config {
    Config {
        commit: Commit { gpg_sign: true },
        gpg: Gpg {
            format,
            config: programs
                .into_iter()
                .map(|(name, program)| {
                    (name.to_string(), GpgConfig { program: program.map(|p| p.to_string()) })
                })
                .collect(),
        },
        user: User {
            name: Some("A".to_string()),
            signing_key: key.map(|k| k.to_string()),
            email: "a@b".to_string(),
        },
        push: Push { auto_setup_remote: false },
    }
}

#[test]
fn gpg_format() {
    assert!(matches!(parse_gpg_format(None), Ok(None)));
    assert!(matches!(parse_gpg_format(Some("ssh")), Ok(Some(GpgFormat::Ssh))));
    match parse_gpg_format(Some("x509")) {
        Err(ConfigError::InvalidGpgFormat(bad)) => assert_eq!(bad, "x509"),
        _ => panic!("expected an error"),
    }
    assert!(GpgConfig::default().program.is_none());
}

#[test]
fn signer_new() {
    let s = SshSigner::new("key", Some("prog"));
    assert_eq!(s.signing_key, "key");
    assert_eq!(s.program, Some("prog"));
    assert_eq!(s.program_or_default(), "prog");
    assert_eq!(SshSigner::new("key", None).program_or_default(), "ssh");
}

#[test]
fn signer_from_config() {
    let c = config(Some("key"), Some(GpgFormat::Ssh), vec![("x", Some("no")), ("ssh", Some("signer"))]);
    let s = SshSigner::from_config(&c).unwrap();
    assert_eq!(s.signing_key, "key");
    assert_eq!(s.program, Some("signer"));
    let c = config(Some("key"), None, vec![("ssh", Some("signer"))]);
    assert_eq!(SshSigner::from_config(&c).unwrap().program, None);
    let c = config(Some("key"), Some(GpgFormat::Ssh), vec![("ssh", None)]);
    assert_eq!(SshSigner::from_config(&c).unwrap().program, None);
    let c = config(Some("key"), Some(GpgFormat::Ssh), vec![]);
    assert_eq!(SshSigner::from_config(&c).unwrap().program, None);
    let c = config(None, Some(GpgFormat::Ssh), vec![]);
    assert_eq!(SshSigner::from_config(&c).err(), Some(SignerError::MissingSigningKey));
    let c = config(Some("k"), Some(GpgFormat::Ssh), vec![("ssh", Some("a")), ("ssh", Some("b"))]);
    assert_eq!(c.gpg.get("ssh").unwrap().program.as_deref(), Some("a"));
    assert!(c.gpg.get("gpg").is_none());
}

fn entries(list: Vec<(&str, Option<&str>)>) -> Vec<(String, Option<String>)> {
    list.into_iter().map(|(n, v)| (n.to_string(), v.map(|v| v.to_string()))).collect()
}

#[test]
fn gpg_sections_from_entries() {
    let found = porcelain::config::parse_gpg_config(&entries(vec![
        ("gpg.format", Some("ssh")),
        ("gpg.ssh.program", Some("signer")),
        ("gpg.x509.other", Some("value")),
        ("gpg.ssh.allowedsignersfile", Some("file")),
        ("gpg.a.b.c", Some("deep")),
        ("gpg.x509.program", None),
        ("gpg.ssh.program", Some("later")),
    ]));
    let seen: Vec<(String, Option<String>)> =
        found.into_iter().map(|(name, c)| (name, c.program)).collect();
    assert_eq!(
        seen,
        vec![("ssh".to_string(), Some("later".to_string())), ("x509".to_string(), None)]
    );
    assert!(porcelain::config::parse_gpg_config(&vec![]).is_empty());
    let again = porcelain::config::parse_gpg_config(&entries(vec![
        ("gpg.ssh.a", None),
        ("gpg.x.b", None),
        ("gpg.ssh.c", None),
        ("gpg.x.program", Some("p")),
    ]));
    let names: Vec<&str> = again.iter().map(|(name, _)| name.as_str()).collect();
    assert_eq!(names, vec!["ssh", "x"]);
}

#[test]
fn config_from_values() {
    let c = Config::from_values(
        Some("ssh"),
        &entries(vec![("gpg.ssh.program", Some("p"))]),
        Some(true),
        None,
        "a@b".to_string(),
        Some("key".to_string()),
        None,
    )
    .unwrap();
    assert_eq!(c.gpg.format, Some(GpgFormat::Ssh));
    assert!(c.commit.gpg_sign);
    assert!(!c.push.auto_setup_remote);
    assert_eq!(c.user.email, "a@b");
    assert_eq!(c.user.name, None);
    assert_eq!(SshSigner::from_config(&c).unwrap().program, Some("p"));
    let bad = Config::from_values(
        Some("openpgp"),
        &vec![],
        None,
        None,
        String::new(),
        None,
        Some(true),
    );
    assert!(matches!(bad, Err(ConfigError::InvalidGpgFormat(f)) if f == "openpgp"));
    let c = Config::from_values(None, &vec![], Some(false), None, String::new(), None, Some(true))
        .unwrap();
    assert_eq!(c.gpg.format, None);
    assert!(!c.commit.gpg_sign);
    assert!(c.push.auto_setup_remote);
}
