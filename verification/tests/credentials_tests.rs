use porcelain::credentials::{plan_credentials, Credentials, HostParams};

fn params(user: Option<&str>, files: Option<Vec<&str>>, agent: Option<&str>) -> HostParams {
    HostParams {
        user: user.map(|u| u.to_string()),
        identity_file: files.map(|f| f.into_iter().map(|p| p.to_string()).collect()),
        identity_agent: agent.map(|a| a.to_string()),
    }
}

#[test]
fn identity_file_wins() {
    let p = params(Some("me"), Some(vec!["~/.ssh/id", "other"]), Some("/sock"));
    let plan = plan_credentials(Some("git"), Some(&p), true);
    match plan.credentials {
        Credentials::SshKey { username, key } => {
            assert_eq!(username, "me");
            assert_eq!(key, "~/.ssh/id");
        }
        _ => panic!("expected a key"),
    }
    assert_eq!(plan.agent_socket, None);
}

#[test]
fn agent_of_the_configuration() {
    let p = params(None, None, Some("/sock"));
    let plan = plan_credentials(Some("git"), Some(&p), false);
    assert!(matches!(plan.credentials, Credentials::Agent { username } if username == "git"));
    assert_eq!(plan.agent_socket.as_deref(), Some("/sock"));
}

#[test]
fn agent_that_is_known() {
    let plan = plan_credentials(None, None, true);
    assert!(matches!(plan.credentials, Credentials::Agent { username } if username.is_empty()));
    assert_eq!(plan.agent_socket, None);
    let p = params(Some("me"), None, None);
    let plan = plan_credentials(Some("git"), Some(&p), true);
    assert!(matches!(plan.credentials, Credentials::Agent { username } if username == "me"));
}

#[test]
fn nothing_to_go_by() {
    let plan = plan_credentials(Some("git"), None, false);
    assert!(matches!(plan.credentials, Credentials::Default));
    let p = params(Some("me"), None, None);
    let plan = plan_credentials(Some("git"), Some(&p), false);
    assert!(matches!(plan.credentials, Credentials::Default));
    assert_eq!(plan.agent_socket, None);
}
