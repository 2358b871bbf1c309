use vstd::prelude::*;

verus! {

/// The shape a signed-distance material draws.
#[derive(Debug, Clone, Copy, PartialEq, Eq, Hash, Structural)]
pub enum Shape {
    Rectangle,
    Circle,
}

impl Default for Shape {
    fn default() -> (res: Shape)
        ensures
            res == Shape::Rectangle,
    {
        Shape::Rectangle
    }
}

impl Shape {
    /// The shader definition that selects the shape: its name in capitals.
    pub fn def(&self) -> (res: String)
        ensures
            res@ == match *self {
                Shape::Rectangle => "RECTANGLE"@,
                Shape::Circle => "CIRCLE"@,
            },
    {
        match self {
            Shape::Rectangle => "RECTANGLE".to_string(),
            Shape::Circle => "CIRCLE".to_string(),
        }
    }
}

/// What the render pipeline of a shape material is specialised by: the
/// shape alone.
#[derive(Debug, Clone, Copy, PartialEq, Eq, Hash, Structural)]
pub struct CustomMaterialKey {
    pub shape: Shape,
}

impl CustomMaterialKey {
    /// The key of a material drawing `shape`.
    pub fn from(shape: Shape) -> (res: CustomMaterialKey)
        ensures
            res.shape == shape,
    {
        CustomMaterialKey { shape }
    }
}

} // verus!
