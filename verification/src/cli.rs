//! The options of the command line, as plain values.

use vstd::prelude::*;

verus! {

/// Options of the dataset listing.
pub struct ListArgs {
    pub instrument_type: String,
    pub region: String,
    pub universe: String,
    pub delay: i32,
}

/// Options of the data-field listing.
pub struct DatafieldsArgs {
    pub instrument_type: String,
    pub region: String,
    pub universe: String,
    pub delay: i32,
    pub dataset_id: Option<String>,
    pub search: Option<String>,
}

/// Where the hunt takes its fields from.
#[derive(Debug, Clone, Copy, PartialEq, Eq, Structural)]
pub enum FieldSource {
    Dataset,
    File,
}

/// Options of the hunt: only the dataset is required.
pub struct HuntArgs {
    pub dataset_id: String,
    pub region: String,
    pub universe: String,
    pub delay: i32,
    pub decay: i32,
    pub neutralization: String,
    pub concurrency: usize,
    pub field_source: FieldSource,
    pub fields_file: Option<String>,
}

/// Whom the submission check is for; consultants also gate on production
/// correlation.
#[derive(Debug, Clone, Copy, PartialEq, Eq, Structural)]
pub enum CheckMode {
    User,
    Consultant,
}

/// Options of the submission: explicit ids and a CSV file of ids.
pub struct SubmitArgs {
    pub ids: Vec<String>,
    pub from_csv: Option<String>,
}

/// The subcommands of the tool.
#[derive(Debug, Clone, Copy, PartialEq, Eq, Structural)]
pub enum CommandKind {
    Hunt,
    Refine,
    Check,
    Submit,
    Datasets,
    Datafields,
}

/// The name of a subcommand, as it is typed and logged.
pub open spec fn command_name(kind: CommandKind) -> Seq<char> {
    match kind {
        CommandKind::Hunt => "hunt"@,
        CommandKind::Refine => "refine"@,
        CommandKind::Check => "check"@,
        CommandKind::Submit => "submit"@,
        CommandKind::Datasets => "datasets"@,
        CommandKind::Datafields => "datafields"@,
    }
}

impl CommandKind {
    /// The name of this subcommand.
    pub fn name(&self) -> (r: &'static str)
        ensures
            r@ == command_name(*self),
    {
        proof {
            reveal_strlit("hunt");
            reveal_strlit("refine");
            reveal_strlit("check");
            reveal_strlit("submit");
            reveal_strlit("datasets");
            reveal_strlit("datafields");
        }
        match self {
            CommandKind::Hunt => "hunt",
            CommandKind::Refine => "refine",
            CommandKind::Check => "check",
            CommandKind::Submit => "submit",
            CommandKind::Datasets => "datasets",
            CommandKind::Datafields => "datafields",
        }
    }
}

} // verus!
