//! The scene: camera, lights, objects, and the primitives themselves.

pub mod camera;
pub mod cylinder;
pub mod light;
pub mod ray;
pub mod scene;
pub mod sphere;
pub mod texture;
pub mod triangle;

pub use ray::Ray;
pub use scene::Object;
pub use scene::Scene;
pub use camera::Camera;
pub use cylinder::Cylinder;
pub use sphere::Sphere;
pub use triangle::Triangle;
