use vstd::prelude::*;

verus! {

/// A hard failure of a compilation phase.
#[derive(Clone, Debug)]
pub enum CompilationError {
    /// A file could not be read.
    Io { path: String, msg: String },
    /// A source file could not be parsed.
    Parse { resolved_path: String, msg: String },
    /// A manifest file was found but is malformed.
    LoadPackageJson { package_json_path: String, err_message: String },
    /// No manifest file was found in the start directory or any ancestor.
    PackageJsonNotFound { package_json_path: String, err_message: String },
}

/// What one plugin answers to one hook call: it fails, it declines the input,
/// or it handles it with a value.
#[derive(Debug)]
pub enum HookResult<T> {
    Failed(CompilationError),
    NotApplicable,
    Handled(T),
}

} // verus!
