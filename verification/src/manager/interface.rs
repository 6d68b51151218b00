//! The capability interfaces of the external collaborators: package
//! installation, service control, command execution and raw filesystem
//! access. The embedding application implements them with real side
//! effects; the library's own types stage the same operations in memory.

use vstd::prelude::*;

use crate::error::ValetError;

verus! {

/// Installs and queries system packages.
pub trait PackageManager {
    fn installed(&self, package: &str) -> bool;

    fn ensure_installed(&mut self, package: &str);

    fn install_or_fail(&mut self, package: &str) -> Result<(), ValetError>;

    fn is_available(&self) -> bool;

    fn get_php_fpm_name(&self, version: &str) -> String;

    fn get_php_extension_prefix(&self, version: &str) -> String;

    fn package_name(&self, name: &str) -> Option<String>;
}

/// Starts, stops and enables system services.
pub trait ServiceManager {
    fn start(&mut self, services: Vec<&str>);

    fn stop(&mut self, services: Vec<&str>);

    fn restart(&mut self, services: Vec<&str>);

    fn disabled(&self, service: &str) -> bool;

    fn disable(&mut self, service: &str);

    fn enable(&mut self, service: &str);

    fn is_available(&self) -> bool;

    fn is_systemd(&self) -> bool;

    fn remove_valet_dns(&mut self);
}

/// Runs shell commands.
pub trait CommandLine {
    fn quietly(&mut self, command: &str);

    fn quietly_as_user(&mut self, command: &str);

    fn passthru(&mut self, command: &str);

    fn run(&mut self, command: &str);

    fn run_as_user(&mut self, command: &str);
}

/// Reads and writes files, directories and symlinks.
pub trait Filesystem {
    fn remove(&mut self, path: &str);

    fn is_dir(&self, path: &str) -> bool;

    fn mkdir(&mut self, path: &str, mode: u32);

    fn ensure_dir_exists(&mut self, path: &str, owner: &str, mode: u32);

    fn touch(&mut self, path: &str);

    fn path_exists(&self, path: &str) -> bool;

    fn get(&self, path: &str) -> Result<String, ValetError>;

    fn put(&mut self, path: &str, contents: &str);

    fn copy(&mut self, from: &str, to: &str) -> Result<(), ValetError>;

    fn backup(&mut self, file: &str);

    fn restore(&mut self, file: &str);

    fn symlink(&mut self, target: &str, link: &str);

    fn unlink(&mut self, path: &str);

    fn is_link(&self, path: &str) -> bool;

    fn scandir(&self, path: &str) -> Result<Vec<String>, ValetError>;
}

} // verus!
