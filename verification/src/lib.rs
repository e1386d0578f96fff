//! Build management for a multi-platform embedded kernel project.
//!
//! The crate resolves layered build settings for a project, platform and
//! architecture, validates the dependencies between options, and models the
//! workspace and build contexts that record the outcome. What it decides is
//! stated on plain values; reading and writing files and running the tools
//! is left to the program around it.

pub mod cmake;
pub mod config;
pub mod easy;
pub mod error;
pub mod ordered;
pub mod pattern;
pub mod platform;
pub mod project;
pub mod text;
pub mod tools;
pub mod util;
pub mod workspace;

pub use cmake::{Flag, FlagId, Requirement, Setting, Value};
pub use config::{Config, Defaults, Merge, MergeId, NameRef, Named, NamedMap};
pub use easy::{easy_setting, easy_settings, identifier};
pub use error::Error;
pub use ordered::{Identifier, StrMap, StrSet};
pub use platform::Architecture::{Arm, RiscV, X86};
pub use platform::Sel4Architecture::{AArch32, AArch64, Ia32, RiscV32, RiscV64, X86_64};
pub use platform::{
    Architecture, Platform, PlatformChoice, PlatformId, Sel4Architecture, Variation, VariationId,
};
pub use project::{HostPaths, Project, ProjectId, Repository};
pub use tools::{app_candidates, find_app_path, tmp_app_path, tmp_app_path_for, Apps, Docker, DockerImpl, System};
pub use util::{child_path, join_path, push_path, relative_path};
pub use workspace::{
    create_build, find_context, Build, BuildContext, Context, Found, Item, Probe, TargetState, Workspace,
    WorkspaceContext, CACHE_SUBDIR,
};
