//! Miscellaneous configuration options.

use std::path::PathBuf;
use vstd::prelude::*;

verus! {

/// `std::path::PathBuf`, carried through the configuration without being inspected.
#[verifier::external_type_specification]
#[verifier::external_body]
pub struct ExPathBuf(PathBuf);

/// Custom post-process shader paths, chained in order.
#[derive(Clone, Debug)]
pub struct CustomShaderPaths(pub Vec<PathBuf>);

impl CustomShaderPaths {
    /// Whether no shader is configured.
    pub fn is_empty(&self) -> (r: bool)
        ensures
            r == (self.0@.len() == 0),
    {
        self.0.len() == 0
    }
}

impl Default for CustomShaderPaths {
    fn default() -> (r: Self)
        ensures
            r.0@.len() == 0,
    {
        CustomShaderPaths(Vec::new())
    }
}

/// General config section.
///
/// This section is for fields which can not be easily categorized,
/// to avoid common TOML issues with root-level fields.
#[derive(Clone, Debug)]
pub struct General {
    /// Configuration file imports.
    pub import: Vec<String>,
    /// Shell startup directory.
    pub working_directory: Option<PathBuf>,
    /// Live config reload.
    pub live_config_reload: bool,
    /// Offer IPC through a unix socket.
    pub ipc_socket: bool,
    /// Custom post-process shaders (chained in order).
    pub custom_shader: CustomShaderPaths,
}

impl Default for General {
    fn default() -> (r: Self)
        ensures
            r.import@.len() == 0,
            r.working_directory.is_none(),
            r.live_config_reload,
            r.ipc_socket,
            r.custom_shader.0@.len() == 0,
    {
        General {
            live_config_reload: true,
            ipc_socket: true,
            working_directory: None,
            import: Vec::new(),
            custom_shader: CustomShaderPaths::default(),
        }
    }
}

} // verus!
