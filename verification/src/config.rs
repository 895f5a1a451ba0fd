//! The configuration: where the data lives, which directories are watched,
//! which marker brackets a note in a file, and how long the sampler sleeps.

use crate::text::views;
use vstd::prelude::*;

verus! {

/// What the configuration file holds. Every field may be missing.
#[derive(Debug)]
pub struct ConfigFile {
    pub data_path: Option<String>,
    pub watcher_paths: Option<Vec<String>>,
    pub comment_identifier: Option<String>,
    /// In milliseconds.
    pub sleep_duration: Option<u64>,
}

/// The configuration in use.
#[derive(Debug)]
pub struct Config {
    pub data_path: String,
    pub watcher_paths: Vec<String>,
    pub comment_identifier: String,
    /// In milliseconds.
    pub sleep_duration: u64,
}

pub struct ConfigView {
    pub data_path: Seq<char>,
    pub watcher_paths: Seq<Seq<char>>,
    pub comment_identifier: Seq<char>,
    pub sleep_duration: int,
}

impl View for Config {
    type V = ConfigView;

    open spec fn view(&self) -> ConfigView {
        ConfigView {
            data_path: self.data_path@,
            watcher_paths: views(self.watcher_paths@),
            comment_identifier: self.comment_identifier@,
            sleep_duration: self.sleep_duration as int,
        }
    }
}

/// The marker that brackets a note where the file names none.
pub open spec fn default_comment_identifier() -> Seq<char> {
    seq!['@', '#', '$']
}

/// The sleep of the sampler between two passes, in milliseconds, where the
/// file names none: one second.
pub open spec fn default_sleep_duration() -> int {
    1000
}

/// The data directory: the one given on the command line, or else the one
/// that the file names, or else the one that the platform gives to this
/// program.
pub open spec fn chosen_data_path(
    argument: Option<String>,
    from_file: Option<String>,
    platform: String,
) -> Seq<char> {
    match argument {
        Some(path) => path@,
        None => match from_file {
            Some(path) => path@,
            None => platform@,
        },
    }
}

impl Config {
    /// The configuration for a data directory given on the command line, if
    /// one was given, the data directory of the platform, and what the
    /// configuration file holds, if it could be read.
    pub fn new(argument: Option<String>, platform: String, file: Option<ConfigFile>) -> (r: Config)
        ensures
            r@.data_path == chosen_data_path(
                argument,
                match file {
                    Some(f) => f.data_path,
                    None => None,
                },
                platform,
            ),
            r@.watcher_paths == match file {
                Some(ConfigFile { watcher_paths: Some(paths), .. }) => views(paths@),
                _ => Seq::<Seq<char>>::empty(),
            },
            r@.comment_identifier == match file {
                Some(ConfigFile { comment_identifier: Some(marker), .. }) => marker@,
                _ => default_comment_identifier(),
            },
            r@.sleep_duration == match file {
                Some(ConfigFile { sleep_duration: Some(millis), .. }) => millis as int,
                _ => default_sleep_duration(),
            },
    {
        let file = match file {
            Some(file) => file,
            None => ConfigFile {
                data_path: None,
                watcher_paths: None,
                comment_identifier: None,
                sleep_duration: None,
            },
        };
        let data_path = match argument {
            Some(path) => path,
            None => match file.data_path {
                Some(path) => path,
                None => platform,
            },
        };
        let watcher_paths = match file.watcher_paths {
            Some(paths) => paths,
            None => {
                let paths: Vec<String> = Vec::new();
                proof {
                    assert(views(paths@) =~= Seq::<Seq<char>>::empty());
                }
                paths
            },
        };
        let comment_identifier = match file.comment_identifier {
            Some(marker) => marker,
            None => {
                let mut marker = String::new();
                marker.push('@');
                marker.push('#');
                marker.push('$');
                proof {
                    assert(marker@ =~= default_comment_identifier());
                }
                marker
            },
        };
        let sleep_duration = match file.sleep_duration {
            Some(millis) => millis,
            None => 1000,
        };
        Config { data_path, watcher_paths, comment_identifier, sleep_duration }
    }
}

} // verus!
