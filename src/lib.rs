//! Lock-file export core of a multi-ecosystem package manager.
//!
//! Leaves first: package identity (`pypi_name`, `version_spec`, `git_rev`),
//! the lock representation (`lock`), the lock policy decision
//! (`lock_update`), work-item selection (`selection`), dependency ordering
//! (`topo_sort`), and the explicit spec format and export (`explicit_spec`,
//! `export`).

pub mod text;

pub mod git_rev;
pub mod pypi_name;
pub mod version_spec;

pub mod lock;
pub mod lock_update;
pub mod selection;
pub mod topo_sort;

pub mod explicit_spec;
pub mod export;
