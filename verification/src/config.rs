//! Server configuration: the resolved settings and their precedence merge.
//!
//! Where each setting comes from (a file, the environment, the command
//! line) is the surrounding program's business; this module owns the
//! defaults and the rule that combines the sources.

use vstd::prelude::*;
use crate::logger::LogLevel;

verus! {

/// Which source a configuration was read from.
#[derive(Debug, Clone, Copy, PartialEq, Eq, Structural)]
pub enum ConfigSource {
    Default,
    File,
    Env,
    Args,
}

/// The resolved settings: bind address, document root, advisory worker
/// count and log level.
#[derive(Debug, Clone)]
pub struct Config {
    pub display_help: bool,
    pub source: ConfigSource,
    pub host: String,
    pub port: u16,
    pub document_root: String,
    pub worker: i32,
    pub log_level: LogLevel,
}

/// The built-in defaults.
pub struct DefaultConfig;

impl DefaultConfig {
    /// The default configuration: bind everywhere on port 8080, serve
    /// `public`, four advisory workers, log at INFO.
    pub fn as_config() -> (r: Config)
        ensures
            r.host@ == "0.0.0.0"@,
            r.port == 8080,
            r.document_root@ == "public"@,
            r.worker == 4,
            r.log_level == LogLevel::INFO,
            r.source == ConfigSource::Default,
            !r.display_help,
    {
        Config {
            display_help: false,
            source: ConfigSource::Default,
            host: "0.0.0.0".to_owned(),
            port: 8080,
            document_root: "public".to_owned(),
            worker: 4,
            log_level: LogLevel::INFO,
        }
    }
}

impl Default for Config {
    /// The default configuration; see [`DefaultConfig::as_config`].
    fn default() -> (r: Config)
        ensures
            r.host@ == "0.0.0.0"@,
            r.port == 8080,
            r.document_root@ == "public"@,
            r.worker == 4,
            r.log_level == LogLevel::INFO,
            r.source == ConfigSource::Default,
            !r.display_help,
    {
        DefaultConfig::as_config()
    }
}

/// A string setting overridden by a later source: the later value wins
/// unless it is empty.
pub open spec fn spec_override_str(acc: Seq<char>, cur: Seq<char>) -> Seq<char> {
    if cur.len() == 0 {
        acc
    } else {
        cur
    }
}

impl Config {
    /// Fold one source over an accumulated configuration.
    fn fold_source(self, cur: Config) -> (r: Config)
        ensures
            r.display_help == (self.display_help || cur.display_help),
            r.source == cur.source,
            r.host@ == spec_override_str(self.host@, cur.host@),
            r.port == if cur.port == 0 {
                self.port
            } else {
                cur.port
            },
            r.document_root@ == spec_override_str(self.document_root@, cur.document_root@),
            r.worker == if cur.worker <= 0 {
                self.worker
            } else {
                cur.worker
            },
            r.log_level == cur.log_level,
    {
        Config {
            display_help: self.display_help || cur.display_help,
            source: cur.source,
            host: if cur.host.as_str().is_empty() {
                self.host
            } else {
                cur.host
            },
            port: if cur.port == 0 {
                self.port
            } else {
                cur.port
            },
            document_root: if cur.document_root.as_str().is_empty() {
                self.document_root
            } else {
                cur.document_root
            },
            worker: if cur.worker <= 0 {
                self.worker
            } else {
                cur.worker
            },
            log_level: cur.log_level,
        }
    }

    /// Combine the three configuration sources over the defaults, in
    /// priority order: defaults, then the file, then the environment, then
    /// the arguments. Each later source overrides where it speaks; the log
    /// level of the last source always wins.
    pub fn load(file: Config, env: Config, args: Config) -> (r: Config)
        ensures
            r.host@ == spec_override_str(
                spec_override_str(spec_override_str("0.0.0.0"@, file.host@), env.host@),
                args.host@,
            ),
            r.port == {
                let p1: u16 = if file.port == 0 {
                    8080
                } else {
                    file.port
                };
                let p2: u16 = if env.port == 0 {
                    p1
                } else {
                    env.port
                };
                if args.port == 0 {
                    p2
                } else {
                    args.port
                }
            },
            r.document_root@ == spec_override_str(
                spec_override_str(
                    spec_override_str("public"@, file.document_root@),
                    env.document_root@,
                ),
                args.document_root@,
            ),
            r.worker == {
                let w1: i32 = if file.worker <= 0 {
                    4
                } else {
                    file.worker
                };
                let w2: i32 = if env.worker <= 0 {
                    w1
                } else {
                    env.worker
                };
                if args.worker <= 0 {
                    w2
                } else {
                    args.worker
                }
            },
            r.log_level == args.log_level,
            r.source == args.source,
    {
        let acc = DefaultConfig::as_config();
        let acc = acc.fold_source(file);
        let acc = acc.fold_source(env);
        acc.fold_source(args)
    }
}

} // verus!
