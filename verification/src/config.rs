//! The settings that the commands read.

use vstd::prelude::*;
use crate::text::{chars_of, find_char, index_of, range_is, string_of};

verus! {

#[derive(Clone, Copy, Debug, PartialEq, Eq, Structural)]
pub enum GpgFormat {
    Ssh,
}

#[derive(Debug)]
pub enum ConfigError {
    /// The setting `gpg.format` names a format that is not known.
    InvalidGpgFormat(String),
}

#[derive(Clone, Copy, Debug, PartialEq, Eq, Structural)]
pub struct Commit {
    pub gpg_sign: bool,
}

/// The settings of one signing format.
#[derive(Debug)]
pub struct GpgConfig {
    pub program: Option<String>,
}

/// The signing format and the settings of each format, by its name. The
/// settings are kept in the order in which the formats were first named;
/// `wf` says that no name occurs twice.
#[derive(Debug)]
pub struct Gpg {
    pub format: Option<GpgFormat>,
    pub config: Vec<(String, GpgConfig)>,
}

#[derive(Debug)]
pub struct User {
    pub name: Option<String>,
    pub signing_key: Option<String>,
    pub email: String,
}

#[derive(Clone, Copy, Debug, PartialEq, Eq, Structural)]
pub struct Push {
    pub auto_setup_remote: bool,
}

#[derive(Debug)]
pub struct Config {
    pub commit: Commit,
    pub gpg: Gpg,
    pub user: User,
    pub push: Push,
}

impl Default for GpgConfig {
    fn default() -> (c: GpgConfig)
        ensures
            c.program is None,
    {
        GpgConfig { program: None }
    }
}

/// The signing format that a value of `gpg.format` names.
pub open spec fn spec_gpg_format(value: Seq<char>) -> Option<GpgFormat> {
    if value == "ssh"@ {
        Some(GpgFormat::Ssh)
    } else {
        None
    }
}

/// Reads the setting `gpg.format`. No value gives no format; a value that
/// names no known format is an error that carries the value.
pub fn parse_gpg_format(value: Option<&str>) -> (r: Result<Option<GpgFormat>, ConfigError>)
    ensures
        match value {
            None => r matches Ok(None),
            Some(v) => match r {
                Ok(format) => format is Some && format == spec_gpg_format(v@),
                Err(ConfigError::InvalidGpgFormat(bad)) => spec_gpg_format(v@) is None && bad@ == v@,
            },
        },
{
    match value {
        None => Ok(None),
        Some(v) => {
            let word = chars_of(v);
            assert(word@.subrange(0, word@.len() as int) =~= v@);
            if range_is(&word, 0, word.len(), "ssh") {
                Ok(Some(GpgFormat::Ssh))
            } else {
                Err(ConfigError::InvalidGpgFormat(v.to_string()))
            }
        },
    }
}

/// Position of the first settings stored under `name`.
pub open spec fn position_of(config: Seq<(String, GpgConfig)>, name: Seq<char>, from: int) -> Option<
    int,
>
    decreases config.len() - from,
{
    if from < 0 || from >= config.len() {
        None
    } else if config[from].0@ == name {
        Some(from)
    } else {
        position_of(config, name, from + 1)
    }
}

/// The settings of the formats as plain values: the name of each format
/// with its program.
pub open spec fn sections(config: Seq<(String, GpgConfig)>) -> Seq<(Seq<char>, Option<Seq<char>>)> {
    config.map_values(
        |pair: (String, GpgConfig)|
            (
                pair.0@,
                match pair.1.program {
                    Some(p) => Some(p@),
                    None => None,
                },
            ),
    )
}

/// No name occurs twice.
pub open spec fn distinct_names(config: Seq<(Seq<char>, Option<Seq<char>>)>) -> bool {
    forall|i: int, j: int|
        #![trigger config[i], config[j]]
        0 <= i < j < config.len() ==> config[i].0 != config[j].0
}

/// Position of the first settings of the format `name`, from `from` on.
pub open spec fn section_at(
    config: Seq<(Seq<char>, Option<Seq<char>>)>,
    name: Seq<char>,
    from: int,
) -> Option<int>
    decreases config.len() - from,
{
    if from < 0 || from >= config.len() {
        None
    } else if config[from].0 == name {
        Some(from)
    } else {
        section_at(config, name, from + 1)
    }
}

/// The settings after one more entry of the configuration is read. Only a
/// name of three parts, `gpg`, a format and a key, counts. Its format gets
/// settings where it has none, and the key `program` sets its program to
/// the value of the entry.
pub open spec fn with_entry(
    config: Seq<(Seq<char>, Option<Seq<char>>)>,
    name: Seq<char>,
    value: Option<Seq<char>>,
) -> Seq<(Seq<char>, Option<Seq<char>>)> {
    let d1 = index_of(name, '.', 0);
    let d2 = index_of(name, '.', d1 + 1);
    if d1 < name.len() && d2 < name.len() && index_of(name, '.', d2 + 1) >= name.len() {
        let section = name.subrange(d1 + 1, d2);
        let key = name.subrange(d2 + 1, name.len() as int);
        let known = if section_at(config, section, 0) is Some {
            config
        } else {
            config.push((section, None))
        };
        if key == "program"@ {
            match section_at(known, section, 0) {
                Some(i) => known.update(i, (section, value)),
                None => known,
            }
        } else {
            known
        }
    } else {
        config
    }
}

/// The settings that the first `n` entries give, read in order.
pub open spec fn gpg_sections(entries: Seq<(String, Option<String>)>, n: nat) -> Seq<
    (Seq<char>, Option<Seq<char>>),
>
    decreases n,
{
    if n == 0 {
        Seq::empty()
    } else {
        with_entry(
            gpg_sections(entries, (n - 1) as nat),
            entries[n - 1].0@,
            match entries[n - 1].1 {
                Some(v) => Some(v@),
                None => None,
            },
        )
    }
}

fn find_section(config: &Vec<(String, GpgConfig)>, name: &String) -> (r: Option<usize>)
    ensures
        match r {
            Some(i) => i < config@.len() && section_at(sections(config@), name@, 0) == Some(
                i as int,
            ) && sections(config@)[i as int].0 == name@,
            None => section_at(sections(config@), name@, 0) is None && forall|j: int|
                0 <= j < config@.len() ==> (#[trigger] sections(config@)[j]).0 != name@,
        },
{
    let mut i: usize = 0;
    while i < config.len()
        invariant
            i <= config@.len(),
            section_at(sections(config@), name@, 0) == section_at(
                sections(config@),
                name@,
                i as int,
            ),
            forall|j: int| 0 <= j < i ==> (#[trigger] sections(config@)[j]).0 != name@,
        decreases config@.len() - i,
    {
        assert(sections(config@)[i as int].0 == config@[i as int].0@);
        if config[i].0 == *name {
            return Some(i);
        }
        i += 1;
    }
    None
}

/// Collects the settings of the signing formats from the entries of the
/// configuration under `gpg`, each a name and its value.
pub fn parse_gpg_config(entries: &Vec<(String, Option<String>)>) -> (config: Vec<
    (String, GpgConfig),
>)
    ensures
        sections(config@) == gpg_sections(entries@, entries@.len()),
        distinct_names(sections(config@)),
{
    let mut config: Vec<(String, GpgConfig)> = Vec::new();
    let mut n: usize = 0;
    assert(sections(config@) =~= gpg_sections(entries@, 0));
    while n < entries.len()
        invariant
            n <= entries@.len(),
            sections(config@) == gpg_sections(entries@, n as nat),
            distinct_names(sections(config@)),
        decreases entries@.len() - n,
    {
        let ghost before = sections(config@);
        let name = chars_of(entries[n].0.as_str());
        let len = name.len();
        let d1 = find_char(&name, '.', 0);
        if d1 < len {
            let d2 = find_char(&name, '.', d1 + 1);
            if d2 < len && find_char(&name, '.', d2 + 1) >= len {
                let section = string_of(&name, d1 + 1, d2);
                if find_section(&config, &section).is_none() {
                    config.push((section.clone(), GpgConfig { program: None }));
                    assert(sections(config@) =~= before.push((section@, None)));
                    assert(distinct_names(sections(config@))) by {
                        let after = sections(config@);
                        assert forall|i: int, j: int|
                            #![trigger after[i], after[j]]
                            0 <= i < j < after.len() implies after[i].0 != after[j].0 by {
                            assert(after[i] == before[i]);
                            if j < before.len() {
                                assert(after[j] == before[j]);
                            }
                        }
                    }
                }
                let ghost known = sections(config@);
                if range_is(&name, d2 + 1, len, "program") {
                    match find_section(&config, &section) {
                        Some(i) => {
                            let program = match &entries[n].1 {
                                Some(v) => Some(v.clone()),
                                None => None,
                            };
                            config.set(i, (section.clone(), GpgConfig { program }));
                            assert(distinct_names(sections(config@))) by {
                                let after = sections(config@);
                                assert forall|a: int, b: int|
                                    #![trigger after[a], after[b]]
                                    0 <= a < b < after.len() implies after[a].0 != after[b].0 by {
                                    assert(after[a].0 == known[a].0);
                                    assert(after[b].0 == known[b].0);
                                }
                            }
                            assert(sections(config@) =~= known.update(
                                i as int,
                                (
                                    section@,
                                    match entries@[n as int].1 {
                                        Some(v) => Some(v@),
                                        None => None,
                                    },
                                ),
                            ));
                        },
                        None => {},
                    }
                }
            }
        }
        n += 1;
    }
    config
}

impl Config {
    /// The settings, from the values of the configuration. A switch that
    /// is not set is off. A format of signing that is not known is an
    /// error.
    pub fn from_values(
        gpg_format: Option<&str>,
        gpg_entries: &Vec<(String, Option<String>)>,
        gpg_sign: Option<bool>,
        name: Option<String>,
        email: String,
        signing_key: Option<String>,
        auto_setup_remote: Option<bool>,
    ) -> (r: Result<Config, ConfigError>)
        ensures
            r is Ok <==> (gpg_format matches Some(f) ==> spec_gpg_format(f@) is Some),
            r matches Ok(c) ==> {
                &&& c.gpg.wf()
                &&& c.gpg.format == match gpg_format {
                    Some(f) => spec_gpg_format(f@),
                    None => None,
                }
                &&& sections(c.gpg.config@) == gpg_sections(gpg_entries@, gpg_entries@.len())
                &&& c.commit.gpg_sign == (gpg_sign == Some(true))
                &&& c.push.auto_setup_remote == (auto_setup_remote == Some(true))
                &&& c.user.name == name
                &&& c.user.email == email
                &&& c.user.signing_key == signing_key
            },
            r matches Err(ConfigError::InvalidGpgFormat(bad)) ==> gpg_format matches Some(f) && bad@
                == f@,
    {
        let format = match parse_gpg_format(gpg_format) {
            Ok(format) => format,
            Err(e) => {
                return Err(e);
            },
        };
        let config = parse_gpg_config(gpg_entries);
        Ok(
            Config {
                gpg: Gpg { format, config },
                commit: Commit {
                    gpg_sign: match gpg_sign {
                        Some(b) => b,
                        None => false,
                    },
                },
                user: User { name, email, signing_key },
                push: Push {
                    auto_setup_remote: match auto_setup_remote {
                        Some(b) => b,
                        None => false,
                    },
                },
            },
        )
    }
}

impl Gpg {
    /// No format has its settings twice.
    pub open spec fn wf(&self) -> bool {
        distinct_names(sections(self.config@))
    }

    /// The settings stored under `name`.
    pub fn get(&self, name: &str) -> (r: Option<&GpgConfig>)
        ensures
            match r {
                Some(found) => position_of(self.config@, name@, 0) matches Some(i) && *found
                    == self.config@[i].1,
                None => position_of(self.config@, name@, 0) is None,
            },
    {
        let mut i: usize = 0;
        while i < self.config.len()
            invariant
                i <= self.config@.len(),
                position_of(self.config@, name@, 0) == position_of(self.config@, name@, i as int),
            decreases self.config@.len() - i,
        {
            let word = chars_of(self.config[i].0.as_str());
            assert(word@.subrange(0, word@.len() as int) =~= self.config@[i as int].0@);
            if range_is(&word, 0, word.len(), name) {
                return Some(&self.config[i].1);
            }
            i += 1;
        }
        None
    }
}

} // verus!
