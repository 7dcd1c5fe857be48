//! Ordo: project orchestration logic for C and C++ builds.
pub mod text;
pub mod strmap;
pub mod cli;
pub mod manifest;
pub mod features;
pub mod workspace;
pub mod dag;
pub mod config;
pub mod compiler;
pub mod build_graph;
pub mod faber;
pub mod sandbox;
pub mod providers;
pub mod paths;
pub mod arsenal;
pub mod testing;
pub mod resolver;
pub mod style;
pub mod source_tools;
pub mod adding;
pub mod scaffold;
pub mod dep_tree;
pub mod build_plan;
