//! The settings of the tool, and where they are kept.

use crate::error::PulseError;
use crate::hooks::{home_dir, join_path, joined};
use crate::http::text_of;
use crate::text::{trim, trim_end_slashes, trim_of, without_trailing_slashes};
use std::path::PathBuf;
use vstd::prelude::*;

verus! {

/// The settings of the tool.
#[derive(Debug, Clone, PartialEq)]
pub struct PulseConfig {
    pub api_url: String,
    pub api_key: String,
    pub project_id: String,
    pub local_email: Option<String>,
    pub local_password: Option<String>,
}

impl PulseConfig {
    /// The settings without stray characters: the address without the
    /// slashes at its end, and address, key and project without whitespace
    /// around them.
    pub fn sanitized(self) -> (clean: PulseConfig)
        ensures
            clean.api_url@ == trim_of(without_trailing_slashes(self.api_url@)),
            clean.api_key@ == trim_of(self.api_key@),
            clean.project_id@ == trim_of(self.project_id@),
            text_of(clean.local_email) == text_of(self.local_email),
            text_of(clean.local_password) == text_of(self.local_password),
    {
        let api_url = trim(trim_end_slashes(self.api_url.as_str())).to_owned();
        let api_key = trim(self.api_key.as_str()).to_owned();
        let project_id = trim(self.project_id.as_str()).to_owned();
        PulseConfig {
            api_url,
            api_key,
            project_id,
            local_email: self.local_email,
            local_password: self.local_password,
        }
    }
}

/// Where the settings are kept.
#[derive(Debug)]
pub struct ConfigStore;

impl ConfigStore {
    /// The directory of the settings below the home directory `home`, or
    /// the error `HomeDirNotFound` where there is none.
    pub fn config_dir_in(home: Option<PathBuf>) -> (outcome: Result<PathBuf, PulseError>)
        ensures
            match home {
                Some(base) => outcome matches Ok(dir) && dir == joined(base, ".pulse"@),
                None => outcome matches Err(error) && error is HomeDirNotFound,
            },
    {
        match home {
            Some(base) => Ok(join_path(&base, ".pulse")),
            None => Err(PulseError::HomeDirNotFound),
        }
    }

    /// The file of the settings below the home directory `home`, or the
    /// error `HomeDirNotFound` where there is none.
    pub fn config_path_in(home: Option<PathBuf>) -> (outcome: Result<PathBuf, PulseError>)
        ensures
            match home {
                Some(base) => outcome matches Ok(file) && file == joined(
                    joined(base, ".pulse"@),
                    "config.toml"@,
                ),
                None => outcome matches Err(error) && error is HomeDirNotFound,
            },
    {
        match ConfigStore::config_dir_in(home) {
            Ok(dir) => Ok(join_path(&dir, "config.toml")),
            Err(error) => Err(error),
        }
    }

    /// The directory of the current user's settings: the directory `.pulse`
    /// below the user's home directory, whichever that turns out to be, or
    /// the error `HomeDirNotFound` where the user has none.
    pub fn config_dir() -> (outcome: Result<PathBuf, PulseError>)
        ensures
            match outcome {
                Ok(dir) => exists|home: PathBuf| dir == #[trigger] joined(home, ".pulse"@),
                Err(error) => error is HomeDirNotFound,
            },
    {
        let home = home_dir();
        let ghost found = home;
        let outcome = ConfigStore::config_dir_in(home);
        proof {
            if let Some(base) = found {
                assert(outcome->Ok_0 == joined(base, ".pulse"@));
            }
        }
        outcome
    }

    /// The file of the current user's settings: the file `config.toml` in
    /// the directory `.pulse` below the user's home directory, whichever that
    /// turns out to be, or the error `HomeDirNotFound` where the user has none.
    pub fn config_path() -> (outcome: Result<PathBuf, PulseError>)
        ensures
            match outcome {
                Ok(file) => exists|home: PathBuf|
                    file == joined(#[trigger] joined(home, ".pulse"@), "config.toml"@),
                Err(error) => error is HomeDirNotFound,
            },
    {
        let home = home_dir();
        let ghost found = home;
        let outcome = ConfigStore::config_path_in(home);
        proof {
            if let Some(base) = found {
                assert(outcome->Ok_0 == joined(joined(base, ".pulse"@), "config.toml"@));
            }
        }
        outcome
    }
}

} // verus!
