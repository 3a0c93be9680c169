//! The configuration descriptor and where it is looked for.
use vstd::prelude::*;
use vstd::string::StringExecFns;
use crate::error::Error;

verus! {

/// The first place where the configuration file is looked for.
pub const ETC_CONFIG_PATH: &'static str = "/etc/cubostratusc.toml";

/// The second place where the configuration file is looked for.
pub const VAR_LIB_CONFIG_PATH: &'static str = "/var/lib/cubostratusc/cubostratusc.toml";

/// The environment variable that names the configuration file where none
/// of the well-known places holds one.
pub const CONFIG_PATH_VAR: &'static str = "CUBOSTRATUSC_CONFIG";

/// Message-bus settings.
pub struct KafkaConfig {
    pub hosts: Vec<String>,
    pub ack_timeout: u64,
    pub topic: String,
}

/// The configuration descriptor.
pub struct Config {
    /// kafka broker related configuration
    pub kafka: KafkaConfig,
}

/// Chooses the configuration file, the first existing one winning: the
/// well-known places in order (`etc_exists`, `var_lib_exists` say whether
/// they hold a file), then the path that the environment variable names
/// where `env_exists` says that file exists; none where no file is found.
pub fn resolve_config_path(
    etc_exists: bool,
    var_lib_exists: bool,
    env_path: Option<String>,
    env_exists: bool,
) -> (r: Result<String, Error>)
    ensures
        etc_exists ==> (r matches Ok(p) && p@ == ETC_CONFIG_PATH@),
        !etc_exists && var_lib_exists ==> (r matches Ok(p) && p@ == VAR_LIB_CONFIG_PATH@),
        !etc_exists && !var_lib_exists && env_exists ==> match env_path {
            Some(e) => (r matches Ok(p) && p@ == e@),
            None => r matches Err(Error::UnknownConfigPathError),
        },
        !etc_exists && !var_lib_exists && !env_exists ==> r matches Err(Error::UnknownConfigPathError),
{
    if etc_exists {
        Ok(String::from_str(ETC_CONFIG_PATH))
    } else if var_lib_exists {
        Ok(String::from_str(VAR_LIB_CONFIG_PATH))
    } else {
        match env_path {
            Some(e) => if env_exists {
                Ok(e)
            } else {
                Err(Error::UnknownConfigPathError)
            },
            None => Err(Error::UnknownConfigPathError),
        }
    }
}

} // verus!
