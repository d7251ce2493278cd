//! The configuration of the store, and the check of its data directory.

use vstd::prelude::*;
use crate::error::ConfigFault;
use crate::error::StoreError;
use crate::error::StoreErrorView;

verus! {

/// How much is logged.
#[derive(Clone, Copy, Debug, PartialEq, Eq, Structural)]
pub enum LogLevel {
    Off,
    Error,
    Warn,
    Info,
    Debug,
    Trace,
}

/// Where the data lies.
#[derive(Clone, Debug, PartialEq, Eq)]
pub struct DataConfig {
    /// The data directory.
    pub path: String,
}

/// How the store logs.
#[derive(Clone, Debug, PartialEq, Eq)]
pub struct LogConfig {
    /// The most verbose level that is logged.
    pub level: LogLevel,
}

/// The configuration of the store.
#[derive(Clone, Debug, PartialEq, Eq)]
pub struct Config {
    pub data: DataConfig,
    pub log: LogConfig,
}

/// What the file system says about the data directory.
#[derive(Clone, Copy, Debug, PartialEq, Eq, Structural)]
pub enum PathProbe {
    /// Nothing could be learnt about the path.
    Missing,
    /// Something lies at the path.
    Found { is_dir: bool, readonly: bool },
}

/// Why a data directory with this probe is refused, if it is: it must
/// exist, be a directory, and be writable.
pub open spec fn config_fault(probe: PathProbe) -> Option<ConfigFault> {
    match probe {
        PathProbe::Missing => Some(ConfigFault::Missing),
        PathProbe::Found { is_dir, readonly } => if !is_dir {
            Some(ConfigFault::NotADirectory)
        } else if readonly {
            Some(ConfigFault::ReadOnly)
        } else {
            None
        },
    }
}

/// Accepts a configuration whose data directory can be used, and refuses
/// every other with the reason.
pub fn parse_config(conf: Config, probe: PathProbe) -> (out: Result<Config, StoreError>)
    ensures
        config_fault(probe) is None ==> out == Ok::<Config, StoreError>(conf),
        config_fault(probe) is Some ==> out is Err && out->Err_0@ == (StoreErrorView::ConfigInvalid {
            fault: config_fault(probe)->Some_0,
        }),
{
    match probe {
        PathProbe::Missing => Err(StoreError::ConfigInvalid { fault: ConfigFault::Missing }),
        PathProbe::Found { is_dir, readonly } => {
            if !is_dir {
                Err(StoreError::ConfigInvalid { fault: ConfigFault::NotADirectory })
            } else if readonly {
                Err(StoreError::ConfigInvalid { fault: ConfigFault::ReadOnly })
            } else {
                Ok(conf)
            }
        },
    }
}

} // verus!
