pub mod id;
pub mod storage;

pub use id::Id;
pub use storage::{DenseEntry, Entry, OccupiedEntry, SparseMap, SparseSet, VacantEntry};
pub mod gltf;
pub mod geometry;
pub mod sphere;
pub mod cylinder;
pub mod material;
pub mod resource;
pub mod animation;
pub mod vertex;
pub mod scene_graph;
pub mod layout;
