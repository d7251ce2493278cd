use dirkv::config::parse_config;
use dirkv::config::Config;
use dirkv::config::DataConfig;
use dirkv::config::LogConfig;
use dirkv::config::LogLevel;
use dirkv::config::PathProbe;
use dirkv::error::ConfigFault;
use dirkv::error::StoreError;

fn config() -> Config {
    Config {
        data: DataConfig { path: "/data".to_string() },
        log: LogConfig { level: LogLevel::Info },
    }
}

#[test]
fn writable_directory_is_accepted() {
    let probe = PathProbe::Found { is_dir: true, readonly: false };
    assert_eq!(parse_config(config(), probe), Ok(config()));
}

#[test]
fn missing_path_is_refused() {
    assert_eq!(
        parse_config(config(), PathProbe::Missing),
        Err(StoreError::ConfigInvalid { fault: ConfigFault::Missing })
    );
}

#[test]
fn file_is_refused() {
    let probe = PathProbe::Found { is_dir: false, readonly: false };
    assert_eq!(
        parse_config(config(), probe),
        Err(StoreError::ConfigInvalid { fault: ConfigFault::NotADirectory })
    );
    let both = PathProbe::Found { is_dir: false, readonly: true };
    assert_eq!(
        parse_config(config(), both),
        Err(StoreError::ConfigInvalid { fault: ConfigFault::NotADirectory })
    );
}

#[test]
fn read_only_directory_is_refused() {
    let probe = PathProbe::Found { is_dir: true, readonly: true };
    assert_eq!(
        parse_config(config(), probe),
        Err(StoreError::ConfigInvalid { fault: ConfigFault::ReadOnly })
    );
}
