//! Verified core of an NFSv4 server statistics exporter.
//!
//! The kernel exposes NFSv4 server state as small line-oriented text files
//! (`/proc/net/rpc/nfsd`, `/proc/fs/nfsd/clients/<id>/{info,states}`,
//! `/var/lib/nfs/etab`). This library holds the parsing of those formats and
//! the assembly of one point-in-time snapshot per scrape. It works on plain
//! string values handed in by the caller; reading the files, serving the
//! metrics over HTTP and all other process plumbing live outside the library.

pub mod error;
pub mod nfs_generic;
pub mod nfsv4;
pub mod snapshot;
pub mod text;
