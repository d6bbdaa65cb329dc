//! Verified core of a pipeline that imports a local music library into a
//! playlist on a remote catalog service.
//!
//! The pipeline has three stages: building a search query from each file's
//! tag metadata, resolving each query to a catalog track identifier through
//! the service's search endpoint, and populating a freshly created playlist
//! with the resolved identifiers in batches.
//!
//! The remote calls themselves (authentication, search, playlist creation
//! and population) are network I/O and live outside this crate; the crate
//! holds every decision the pipeline makes, stated in contracts: which
//! records yield a query and what its text is, how each search outcome is
//! recorded, how the resolved list is cut into batches, and how the import
//! advances or aborts on each response.

pub mod query;
pub mod resolve;
pub mod import;
