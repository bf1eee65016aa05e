//! Configuration of a model and of a run.

pub mod output;

pub use output::OutputConfig;
pub use output::OutputType;

use vstd::prelude::*;

verus! {

/// Model configuration settings.
#[derive(Debug, Clone)]
pub struct ModelConfig {
    /// Output configuration for the model.
    pub output: Option<OutputConfig>,
}

impl Default for ModelConfig {
    fn default() -> (r: Self)
        ensures
            r.output is None,
    {
        ModelConfig { output: None }
    }
}

impl ModelConfig {
    /// A copy of this configuration.
    pub fn duplicate(&self) -> (r: Self)
        ensures
            r == *self,
    {
        ModelConfig {
            output: match &self.output {
                Some(output) => Some(output.duplicate()),
                None => None,
            },
        }
    }
}

/// The settings of one run, as the command line gives them.
#[derive(Debug, Clone)]
pub struct CliArgs {
    /// Path to the database file.
    pub database_path: String,
    /// Path to the SQL folder.
    pub sql_folder: String,
    /// Schema name in the database.
    pub schema: String,
    /// Default output type.
    pub output_type: OutputType,
    /// Default output location for file outputs.
    pub output_location: Option<String>,
    /// Whether to overwrite an existing database during restore.
    pub overwrite: bool,
}

} // verus!
