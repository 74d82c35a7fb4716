//! Fleet-wide updates: the decisions of a run that updates many remote hosts at
//! once and then, optionally, the local system. The caller runs the commands;
//! this library plans the run, collects the outcomes in whatever order the
//! hosts finish, steps the local update, names the log files, and summarises.
use vstd::prelude::*;

pub mod fan_in;
pub mod local;
pub mod plan;
pub mod summary;

verus! {

} // verus!
