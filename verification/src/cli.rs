//! The two commands of the application, as the command line hands them over.

use vstd::prelude::*;
use crate::config::Config;
use crate::direction::Direction;
use crate::migrate::{
    DbTarget,
    DbTargetView,
    split_db_url,
    spec_target,
    url_path,
    url_serialization,
};

verus! {

/// The `run` command: relay in one direction.
#[derive(Clone, Debug)]
pub struct RunCmd {
    /// The name of the direction.
    pub direction: String,
    /// The path of the configuration file.
    pub config_file: String,
}

impl RunCmd {
    /// The direction that the command names, if it names one.
    pub fn selected(&self) -> (r: Option<Direction>)
        ensures
            r is Some ==> self.direction@ == r->0.spec_key(),
            r is None ==> forall|d: Direction| self.direction@ != d.spec_key(),
    {
        Direction::parse(self.direction.as_str())
    }
}

/// The `migrate` command: prepare the database, named either by its URL or
/// by a configuration file that holds the URL.
#[derive(Clone, Debug)]
pub struct MigrateCmd {
    /// The URL of the database.
    pub db_url: Option<String>,
    /// The path of the configuration file.
    pub config_file: Option<String>,
}

/// The database that an optional URL names.
pub open spec fn spec_named(db_url: Option<String>) -> Option<DbTargetView> {
    match db_url {
        Some(url) => match url_serialization(url@) {
            Some(text) => Some(spec_target(text, url_path(url@))),
            None => None,
        },
        None => None,
    }
}

impl MigrateCmd {
    /// The database that the command's own URL names. There is none where
    /// the command has no URL, or where what it has is no URL.
    pub fn target(&self) -> (r: Option<DbTarget>)
        ensures
            r is Some <==> spec_named(self.db_url) is Some,
            r is Some ==> r->0@ == spec_named(self.db_url)->0,
    {
        match &self.db_url {
            Some(url) => split_db_url(url.as_str()),
            None => None,
        }
    }

    /// The database that the configuration names, if its URL is one.
    pub fn target_in(config: &Config) -> (r: Option<DbTarget>)
        ensures
            r is Some <==> spec_named(Some(config.database.db_url)) is Some,
            r is Some ==> r->0@ == spec_named(Some(config.database.db_url))->0,
    {
        split_db_url(config.database.db_url.as_str())
    }
}

} // verus!
