pub mod git;
pub mod plain;
