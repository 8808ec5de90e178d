//! Who signs a commit, and with what.

use vstd::prelude::*;
use crate::config::{position_of, Config, GpgFormat};

verus! {

#[derive(Clone, Copy, Debug, PartialEq, Eq, Structural)]
pub enum SignerError {
    MissingSigningKey,
}

/// Signs with an SSH key.
#[derive(Debug)]
pub struct SshSigner<'c> {
    pub signing_key: &'c str,
    /// The program that signs; the default one where none is set.
    pub program: Option<&'c str>,
}

/// The program that the settings name for signing with SSH: the one stored
/// under `ssh`, where the format is SSH.
pub open spec fn spec_program(config: Config) -> Option<Seq<char>> {
    match config.gpg.format {
        Some(GpgFormat::Ssh) => match position_of(config.gpg.config@, "ssh"@, 0) {
            Some(i) => match config.gpg.config@[i].1.program {
                Some(program) => Some(program@),
                None => None,
            },
            None => None,
        },
        None => None,
    }
}

impl<'c> SshSigner<'c> {
    pub fn new(signing_key: &'c str, program: Option<&'c str>) -> (s: Self)
        ensures
            s.signing_key@ == signing_key@,
            s.program == program,
    {
        Self { signing_key, program }
    }

    /// The signer that the settings describe. Without a signing key there
    /// is none.
    pub fn from_config(config: &'c Config) -> (r: Result<Self, SignerError>)
        ensures
            r is Ok <==> config.user.signing_key is Some,
            r matches Ok(s) ==> {
                &&& s.signing_key@ == config.user.signing_key->0@
                &&& match s.program {
                    Some(p) => spec_program(*config) == Some(p@),
                    None => spec_program(*config) is None,
                }
            },
    {
        let signing_key = match &config.user.signing_key {
            Some(key) => key.as_str(),
            None => {
                return Err(SignerError::MissingSigningKey);
            },
        };
        let program = match config.gpg.format {
            Some(GpgFormat::Ssh) => match config.gpg.get("ssh") {
                Some(found) => match &found.program {
                    Some(program) => Some(program.as_str()),
                    None => None,
                },
                None => None,
            },
            None => None,
        };
        Ok(Self::new(signing_key, program))
    }

    /// The program that is run to sign.
    pub fn program_or_default(&self) -> (p: &str)
        ensures
            p@ == match self.program {
                Some(program) => program@,
                None => "ssh"@,
            },
    {
        match self.program {
            Some(program) => program,
            None => "ssh",
        }
    }
}

} // verus!
