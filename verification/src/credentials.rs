//! How the user is identified to a remote.

use vstd::prelude::*;

verus! {

/// What the SSH configuration says of a host.
#[derive(Debug)]
pub struct HostParams {
    pub user: Option<String>,
    pub identity_file: Option<Vec<String>>,
    pub identity_agent: Option<String>,
}

/// With what the user is identified.
#[derive(Debug)]
pub enum Credentials {
    /// With the key in this file.
    SshKey { username: String, key: String },
    /// With a key of the agent.
    Agent { username: String },
    /// With what the store falls back to.
    Default,
}

/// What is decided for a connection: the credentials, and the socket of
/// the agent where the configuration names one that is yet to be made
/// known.
#[derive(Debug)]
pub struct Plan {
    pub credentials: Credentials,
    pub agent_socket: Option<String>,
}

/// The name to log in with: the user of the configuration, else the name
/// that the remote asks for, else none.
pub open spec fn spec_username(username: Option<Seq<char>>, params: Option<HostParams>) -> Seq<char> {
    match params {
        Some(p) => match p.user {
            Some(user) => user@,
            None => match username {
                Some(name) => name,
                None => Seq::empty(),
            },
        },
        None => match username {
            Some(name) => name,
            None => Seq::empty(),
        },
    }
}

/// Decides how the user is identified. The first identity file of the
/// configuration is used where there is one. Else the agent is used, where
/// the configuration names its socket or the socket is known already.
/// Else the store decides.
pub fn plan_credentials(username: Option<&str>, params: Option<&HostParams>, agent_known: bool) -> (plan:
    Plan)
    requires
        params matches Some(p) ==> (p.identity_file matches Some(files) ==> files@.len() > 0),
    ensures
        match plan.credentials {
            Credentials::SshKey { username: name, key } => {
                &&& params matches Some(p) && p.identity_file matches Some(files) && key@
                    == files@[0]@
                &&& name@ == spec_username(
                    match username {
                        Some(u) => Some(u@),
                        None => None,
                    },
                    Some(*params->0),
                )
                &&& plan.agent_socket is None
            },
            Credentials::Agent { username: name } => {
                &&& !(params matches Some(p) && p.identity_file is Some)
                &&& agent_known || (params matches Some(p) && p.identity_agent is Some)
                &&& name@ == spec_username(
                    match username {
                        Some(u) => Some(u@),
                        None => None,
                    },
                    match params {
                        Some(p) => Some(*p),
                        None => None,
                    },
                )
                &&& match plan.agent_socket {
                    Some(socket) => params matches Some(p) && p.identity_agent matches Some(a)
                        && socket@ == a@,
                    None => !(params matches Some(p) && p.identity_agent is Some),
                }
            },
            Credentials::Default => {
                &&& !agent_known
                &&& params matches Some(p) ==> p.identity_file is None && p.identity_agent is None
                &&& plan.agent_socket is None
            },
        },
{
    let mut name = match username {
        Some(u) => u.to_string(),
        None => String::new(),
    };
    let mut socket: Option<String> = None;
    match params {
        Some(p) => {
            match &p.user {
                Some(user) => {
                    name = user.clone();
                },
                None => {},
            }
            match &p.identity_file {
                Some(files) => {
                    return Plan {
                        credentials: Credentials::SshKey { username: name, key: files[0].clone() },
                        agent_socket: None,
                    };
                },
                None => {},
            }
            match &p.identity_agent {
                Some(agent) => {
                    socket = Some(agent.clone());
                },
                None => {},
            }
        },
        None => {},
    }
    if agent_known || socket.is_some() {
        Plan { credentials: Credentials::Agent { username: name }, agent_socket: socket }
    } else {
        Plan { credentials: Credentials::Default, agent_socket: None }
    }
}

} // verus!
