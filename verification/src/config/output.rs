//! How the result of a model is materialised.

use vstd::prelude::*;
use crate::text::{join, lowercase, replace_all, substitute, text_eq, to_lowercase};

verus! {

/// Output type for the model.
#[derive(Debug, Clone, Copy, PartialEq, Eq, Structural)]
pub enum OutputType {
    /// Create a table.
    Table,
    /// Create a view.
    View,
    /// Export to a Parquet file.
    Parquet,
    /// Export to a CSV file.
    Csv,
    /// Export to a JSON file.
    Json,
}

/// The lower-case name of an output type.
pub open spec fn output_type_name(output_type: OutputType) -> Seq<char> {
    match output_type {
        OutputType::Table => "table"@,
        OutputType::View => "view"@,
        OutputType::Parquet => "parquet"@,
        OutputType::Csv => "csv"@,
        OutputType::Json => "json"@,
    }
}

/// The output type that a lower-case name stands for, if any.
pub open spec fn output_type_named(name: Seq<char>) -> Option<OutputType> {
    if name == "table"@ {
        Some(OutputType::Table)
    } else if name == "view"@ {
        Some(OutputType::View)
    } else if name == "parquet"@ {
        Some(OutputType::Parquet)
    } else if name == "csv"@ {
        Some(OutputType::Csv)
    } else if name == "json"@ {
        Some(OutputType::Json)
    } else {
        None
    }
}

impl Default for OutputType {
    fn default() -> (r: Self)
        ensures
            r == OutputType::Table,
    {
        OutputType::Table
    }
}

impl OutputType {
    /// The lower-case name of the output type.
    pub fn to_string(&self) -> (r: String)
        ensures
            r@ == output_type_name(*self),
    {
        match self {
            OutputType::Table => "table".to_owned(),
            OutputType::View => "view".to_owned(),
            OutputType::Parquet => "parquet".to_owned(),
            OutputType::Csv => "csv".to_owned(),
            OutputType::Json => "json".to_owned(),
        }
    }

    /// Reads an output type from its name, in any case. Any other text is
    /// answered with a message that quotes it.
    pub fn parse(s: &str) -> (r: Result<OutputType, String>)
        ensures
            match r {
                Ok(output_type) => output_type_named(lowercase(s@)) == Some(output_type),
                Err(message) => output_type_named(lowercase(s@)) is None && message@
                    == "Unknown output type: "@ + s@,
            },
    {
        let lower = to_lowercase(s);
        if text_eq(lower.as_str(), "table") {
            Ok(OutputType::Table)
        } else if text_eq(lower.as_str(), "view") {
            Ok(OutputType::View)
        } else if text_eq(lower.as_str(), "parquet") {
            Ok(OutputType::Parquet)
        } else if text_eq(lower.as_str(), "csv") {
            Ok(OutputType::Csv)
        } else if text_eq(lower.as_str(), "json") {
            Ok(OutputType::Json)
        } else {
            Err(join("Unknown output type: ", s))
        }
    }
}

impl std::str::FromStr for OutputType {
    type Err = String;

    fn from_str(s: &str) -> (r: Result<Self, Self::Err>)
        ensures
            match r {
                Ok(output_type) => output_type_named(lowercase(s@)) == Some(output_type),
                Err(message) => output_type_named(lowercase(s@)) is None && message@
                    == "Unknown output type: "@ + s@,
            },
    {
        OutputType::parse(s)
    }
}

/// Output configuration for a model.
#[derive(Debug, Clone)]
pub struct OutputConfig {
    /// Type of output (table, view, parquet, csv, json).
    pub output_type: OutputType,
    /// Location for file outputs (parquet, csv, json).
    pub location: Option<String>,
    /// Whether to keep temporary tables for file outputs.
    pub keep_table: bool,
}

/// The output configuration where none is given: a table, without a
/// location, that is not kept beside a file.
pub open spec fn default_output_config() -> OutputConfig {
    OutputConfig { output_type: OutputType::Table, location: None, keep_table: false }
}

impl Default for OutputConfig {
    fn default() -> (r: Self)
        ensures
            r == default_output_config(),
    {
        OutputConfig { output_type: OutputType::Table, location: None, keep_table: false }
    }
}

/// The text of the placeholder that stands for the table name in a
/// location.
pub open spec fn table_name_placeholder() -> Seq<char> {
    "{table_name}"@
}

/// Where a file output goes when no location is configured. Tables and
/// views have no file, so theirs is empty.
pub open spec fn default_location_of(output_type: OutputType, table_name: Seq<char>) -> Seq<char> {
    match output_type {
        OutputType::Parquet => "./output/"@ + table_name + ".parquet"@,
        OutputType::Csv => "./output/"@ + table_name + ".csv"@,
        OutputType::Json => "./output/"@ + table_name + ".json"@,
        _ => Seq::empty(),
    }
}

impl OutputConfig {
    /// A copy of this configuration.
    pub fn duplicate(&self) -> (r: Self)
        ensures
            r == *self,
    {
        OutputConfig {
            output_type: self.output_type,
            location: match &self.location {
                Some(location) => Some(location.clone()),
                None => None,
            },
            keep_table: self.keep_table,
        }
    }

    /// Create a new output configuration.
    pub fn new(output_type: OutputType, location: Option<String>, keep_table: bool) -> (r: Self)
        ensures
            r.output_type == output_type,
            r.location == location,
            r.keep_table == keep_table,
    {
        OutputConfig { output_type, location, keep_table }
    }

    /// Update this config from another one. The location changes only if
    /// the other one has one.
    pub fn update_from(&mut self, other: &OutputConfig)
        ensures
            final(self).output_type == other.output_type,
            final(self).keep_table == other.keep_table,
            final(self).location == if other.location is Some {
                other.location
            } else {
                old(self).location
            },
    {
        self.output_type = other.output_type;
        match &other.location {
            Some(location) => {
                self.location = Some(location.clone());
            },
            None => {},
        }
        self.keep_table = other.keep_table;
    }

    /// Get the location, with the table name in the place of each
    /// `{table_name}` placeholder.
    pub fn get_location(&self, table_name: &str) -> (r: Option<String>)
        ensures
            match self.location {
                Some(location) => r matches Some(text) && text@ == substitute(
                    location@,
                    table_name_placeholder(),
                    table_name@,
                ),
                None => r is None,
            },
    {
        match &self.location {
            Some(location) => Some(replace_all(location.as_str(), "{table_name}", table_name)),
            None => None,
        }
    }

    /// Get the default location for this output type and a table name.
    pub fn default_location(&self, table_name: &str) -> (r: String)
        ensures
            r@ == default_location_of(self.output_type, table_name@),
    {
        match self.output_type {
            OutputType::Parquet => join("./output/", table_name).concat(".parquet"),
            OutputType::Csv => join("./output/", table_name).concat(".csv"),
            OutputType::Json => join("./output/", table_name).concat(".json"),
            _ => String::new(),
        }
    }
}

} // verus!
