//! A name-keyed cache of shared mesh handles, with an arena that owns the meshes.
//!
//! `store` owns the meshes and hands out handles to them; `manager` binds names to
//! handles and turns parsed geometry files into stored meshes; `laws` states what
//! holds across calls of the two.

pub mod laws;
pub mod manager;
pub mod store;
