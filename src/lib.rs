//! Runtime primitives of a binding layer between a host object runtime and
//! guest code: marshaling of opaque cells, the class hierarchy, typed object
//! handles over host objects, and the plugin's initialization layers.

pub mod class;
pub mod init;
pub mod marshal;
pub mod object;

