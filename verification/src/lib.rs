//! Script-facing logic of the `dv` command line tool: the launch plan derived
//! from the command line, the values scripts hand over (objects, app lists,
//! package tables), the registry of users and devices, the operating-system
//! names scripts compare, and the run-once protocol.

pub mod assoc;
pub mod path;
pub mod cli;
pub mod value;
pub mod dotconfig;
pub mod registry;
pub mod packages;
pub mod os;
pub mod once;
