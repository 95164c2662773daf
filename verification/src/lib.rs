//! A static-asset resolver for an application-internal URL scheme.
//!
//! A request URI is mapped to bytes on disk or in an in-memory bundle. Paths
//! that try to leave the static root are turned away before anything is
//! joined onto the root, and unmatched paths may fall back to the root
//! document so that client-side routing can take over.
//!
//! The modules, leaves first:
//!
//! - `text`: searching and cutting character sequences;
//! - `path`: path components, normalisation, file extensions;
//! - `content_type`: the table from extension to `Content-Type`;
//! - `request`: the pathname of a URI and the `Accept` header;
//! - `resolve`: from a URL path to a file path below the static root;
//! - `response`: status, headers and body of a response;
//! - `bundle`: lookups in the embedded bundle;
//! - `static_root`: the choice of the static root at startup;
//! - `serve`: the responder, which asks the host about the disk;
//! - `resolution`: the resolution order over a model of the disk, and the
//!   proof that the responder follows it.

pub mod bundle;
pub mod content_type;
pub mod path;
pub mod request;
pub mod resolution;
pub mod resolve;
pub mod response;
pub mod serve;
pub mod static_root;
pub mod text;
