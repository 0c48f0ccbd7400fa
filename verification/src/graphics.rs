pub mod camera;
pub mod color;
pub mod draw_region;
pub mod graphics_state;
pub mod bounds;
pub mod shapes;
pub mod filled;
