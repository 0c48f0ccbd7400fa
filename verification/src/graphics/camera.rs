use vstd::prelude::*;

verus! {

/// The camera of a process' drawing: a position subtracted from every coordinate drawn.
pub struct Camera {
    pub x: i32,
    pub y: i32,
}

/// Where the camera puts the point `(x, y)`: the point minus the camera position, wrapping
/// on overflow.
pub open spec fn translate_spec(camera: Camera, x: i32, y: i32) -> (i32, i32) {
    (vstd::wrapping::i32_specs::wrapping_sub(x, camera.x), vstd::wrapping::i32_specs::wrapping_sub(y, camera.y))
}

impl Camera {
    pub fn new(x: i32, y: i32) -> (camera: Self)
        ensures
            camera.x == x,
            camera.y == y,
    {
        Self { x, y }
    }

    pub fn set_position(&mut self, x: i32, y: i32)
        ensures
            final(self).x == x,
            final(self).y == y,
    {
        self.x = x;
        self.y = y;
    }

    /// Translates a point from world coordinates to screen coordinates.
    pub fn translate(&self, x: i32, y: i32) -> (r: (i32, i32))
        ensures
            r == translate_spec(*self, x, y),
    {
        (x.wrapping_sub(self.x), y.wrapping_sub(self.y))
    }
}

} // verus!
