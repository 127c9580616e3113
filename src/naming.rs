//! A package's declared name must be the name of the directory holding its
//! manifest.
use vstd::prelude::*;
use crate::error::ConfigError;
use crate::paths::{file_name_of, path_file_name};

verus! {

/// Accepts exactly when the directory has a name and it equals `declared`.
pub fn check_package_name(declared: &str, directory_name: Option<String>) -> (r: Result<
    (),
    ConfigError,
>)
    ensures
        match directory_name {
            None => r matches Err(ConfigError::NoDirectoryName),
            Some(d) => {
                &&& (r is Ok <==> d@ == declared@)
                &&& (r is Err ==> (r matches Err(ConfigError::NameMismatch { declared: a, directory: b })
                    && a@ == declared@ && b@ == d@))
            },
        },
{
    match directory_name {
        None => Err(ConfigError::NoDirectoryName),
        Some(d) => {
            let a = declared.to_owned();
            if a == d {
                Ok(())
            } else {
                Err(ConfigError::NameMismatch { declared: a, directory: d })
            }
        },
    }
}

/// Checks the declared package name against the final component of the path
/// of the manifest's directory.
pub fn validate_package_name(package_name: &str, toml_dir: &str) -> (r: Result<(), ConfigError>)
    ensures
        match path_file_name(toml_dir@) {
            None => r matches Err(ConfigError::NoDirectoryName),
            Some(d) => {
                &&& (r is Ok <==> d == package_name@)
                &&& (r is Err ==> (r matches Err(ConfigError::NameMismatch { declared: a, directory: b })
                    && a@ == package_name@ && b@ == d))
            },
        },
        r is Ok ==> package_name@.len() > 0,
{
    check_package_name(package_name, file_name_of(toml_dir))
}

} // verus!
