//! A benchmark-tracking service core: it authenticates continuous-integration
//! webhook notifications, decides which verified notifications dispatch a
//! benchmark run and where that run stores its result, and aggregates the
//! file-backed result store into a time-ordered JSON history.
//!
//! The modules:
//! - [`notify`] gates every write-side effect behind RSA-SHA1 signature
//!   verification of the raw payload under the provider's public key.
//! - [`dispatch`] decides, for a verified notification, whether a run is due
//!   and computes the commit and the result path.
//! - [`measure`] parses the two measurement file formats, keeping every
//!   number verbatim as text so no precision is lost.
//! - [`bench`] rebuilds the benchmark -> branch -> time-ordered-results
//!   aggregate from scanned store entries.
//! - [`jsonout`] renders the aggregate as the JSON document the read
//!   endpoint serves, and the store's estimate document format.
//! - [`strutil`] holds the string orders and renderings the rest relies on.

pub mod bench;
pub mod dispatch;
pub mod jsonout;
pub mod measure;
pub mod notify;
pub mod strutil;
