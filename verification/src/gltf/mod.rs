pub mod accessor;
pub mod buffer;
pub mod glb;
pub mod image;
pub mod scene;
pub mod texture;
