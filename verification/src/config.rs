//! The persisted configuration record: which modifications and which hash
//! algorithms a run should use. Reading and writing the file is left to the
//! caller; this module holds the record, its default, and the errors.

use vstd::prelude::*;

verus! {

/// The version that a default configuration carries.
pub const VERSION: &'static str = "0.1.0";

/// The mathematical model of a [`Config`].
pub struct ConfigView {
    pub version: Seq<char>,
    pub mod_names: Seq<Seq<char>>,
    pub hash_names: Seq<Seq<char>>,
}

/// The texts that the strings of a vector hold.
pub open spec fn texts(names: Seq<String>) -> Seq<Seq<char>> {
    names.map_values(|name: String| name@)
}

/// A configuration: a version, the names of the modifications to apply, and
/// the names of the hash algorithms to run.
#[derive(Debug)]
pub struct Config {
    version: String,
    mod_names: Vec<String>,
    hash_names: Vec<String>,
}

impl View for Config {
    type V = ConfigView;

    closed spec fn view(&self) -> ConfigView {
        ConfigView {
            version: self.version@,
            mod_names: texts(self.mod_names@),
            hash_names: texts(self.hash_names@),
        }
    }
}

/// The default configuration: the current version and no names.
pub open spec fn default_view() -> ConfigView {
    ConfigView { version: VERSION@, mod_names: Seq::empty(), hash_names: Seq::empty() }
}

impl Default for Config {
    fn default() -> (config: Config)
        ensures
            config@ == default_view(),
    {
        let config = Config {
            version: String::from_str(VERSION),
            mod_names: Vec::new(),
            hash_names: Vec::new(),
        };
        assert(texts(config.mod_names@) =~= Seq::empty());
        assert(texts(config.hash_names@) =~= Seq::empty());
        config
    }
}

impl Config {
    /// The default configuration.
    pub fn new() -> (config: Config)
        ensures
            config@ == default_view(),
    {
        Config::default()
    }

    /// A configuration with the given fields.
    pub fn from_parts(version: String, mod_names: Vec<String>, hash_names: Vec<String>) -> (config:
        Config)
        ensures
            config@ == (ConfigView {
                version: version@,
                mod_names: texts(mod_names@),
                hash_names: texts(hash_names@),
            }),
    {
        Config { version, mod_names, hash_names }
    }

    /// The version.
    pub fn version(&self) -> (version: &String)
        ensures
            version@ == self@.version,
    {
        &self.version
    }

    /// The names of the modifications to apply.
    pub fn mod_names(&self) -> (names: &Vec<String>)
        ensures
            texts(names@) == self@.mod_names,
    {
        &self.mod_names
    }

    /// The names of the hash algorithms to run. The record keeps them for
    /// the caller; nothing here acts on them.
    pub fn hash_names(&self) -> (names: &Vec<String>)
        ensures
            texts(names@) == self@.hash_names,
    {
        &self.hash_names
    }

    /// Decides what creating a default configuration file comes to, given
    /// whether a file is already at the path and how the path is shown to the
    /// user: the default configuration to write, or the refusal to overwrite.
    pub fn create_default(path_exists: bool, shown_path: &str) -> (r: Result<Config, ConfigError>)
        ensures
            !path_exists ==> (r matches Ok(config) && config@ == default_view()),
            path_exists ==> (r matches Err(ConfigError::ConfigExists(why)) && why@ == "File "@
                + shown_path@ + " already exists"@),
    {
        if path_exists {
            let why = String::from_str("File ").concat(shown_path).concat(" already exists");
            Err(ConfigError::ConfigExists(why))
        } else {
            Ok(Config::default())
        }
    }
}

/// Why a configuration could not be read or written.
#[derive(Debug)]
pub enum ConfigError {
    /// Reading, parsing, rendering or writing failed; the text says how.
    ConfigError(String),
    /// A file is already where the default configuration was to be written.
    ConfigExists(String),
}

impl ConfigError {
    /// One line for the user: the kind of failure, then its details.
    pub fn message(&self) -> (text: String)
        ensures
            self matches ConfigError::ConfigError(why) ==> text@ == "Config error: "@ + why@,
            self matches ConfigError::ConfigExists(why) ==> text@
                == "Config error, config already exists: "@ + why@,
    {
        match self {
            ConfigError::ConfigError(why) => String::from_str("Config error: ").concat(why.as_str()),
            ConfigError::ConfigExists(why) => String::from_str(
                "Config error, config already exists: ",
            ).concat(why.as_str()),
        }
    }
}

} // verus!
