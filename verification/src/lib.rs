//! A sandbox backend that runs guests inside Unikraft micro-VMs: the decisions behind it.
//!
//! - [`backend`]: what to boot, and the life of the resident guest.
//! - [`tools`]: the host tools that a guest can call (`call_tool`, `read_file`, `write_file`,
//!   `fetch`).
//! - [`exchange`]: one outbound HTTP exchange, from request to response.
//! - [`headers`]: forbidden request headers, and the limits on response headers.
//! - [`session`]: a sandbox as a scripting host drives it, built on its first run.
//! - [`table`] and [`text`]: what the others share.
//! - [`laws`]: what the operations above are for, stated of what goes into them and comes out.
//! - [`outside`]: what is taken on trust of other crates and of `std`.
//!
//! Nothing here talks to a network, a disk or a hypervisor. Where such work is due, a function
//! says so, and takes back what came of it.

pub mod backend;
pub mod exchange;
pub mod headers;
pub mod laws;
pub mod outside;
pub mod session;
pub mod table;
pub mod text;
pub mod tools;
