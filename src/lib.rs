//! Resolution of a game version descriptor into a platform-correct launch
//! invocation: rule evaluation, descriptor merging, dependency
//! classification, path resolution and argument building.

pub mod rules;
pub mod descriptor;
pub mod arguments;
pub mod substitution;
pub mod paths;
pub mod classify;
pub mod identity;
pub mod game_version;
pub mod system;
pub mod extraction;
