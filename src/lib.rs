//! Package-operation engine of the application center: progress extraction
//! from package-manager output, operation command lines, the supervisor's
//! decisions over one running operation, and parsing of search and update
//! listings.

pub mod operation;
pub mod progress;
pub mod search;
pub mod supervisor;
pub mod text;
pub mod updates;
