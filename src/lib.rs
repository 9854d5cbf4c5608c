//! Release tooling for Jira: extraction of issue tokens from commit subjects, the
//! program's parameters, and the decisions of its Jira REST client.
pub mod jira;
pub mod matcher;
pub mod parameters;
pub mod text;
pub mod token_lemmas;
pub mod token_parser;
