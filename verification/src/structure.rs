//! Records, tuples with a name, and rectangles.

use vstd::prelude::*;

verus! {

/// An account.
#[derive(Debug, PartialEq, Eq)]
pub struct User {
    pub active: bool,
    pub username: String,
    pub email: String,
    pub sign_in_count: u64,
}

/// A new account: active, and signed in once.
pub fn build_user(email: String, username: String) -> (user: User)
    ensures
        user.email == email,
        user.username == username,
        user.active,
        user.sign_in_count == 1,
{
    User { email, username, active: true, sign_in_count: 1 }
}

/// A colour by its red, green and blue parts.
#[derive(Debug, Clone, Copy, PartialEq, Eq, Structural)]
pub struct Color(pub i32, pub i32, pub i32);

/// A point in space.
#[derive(Debug, Clone, Copy, PartialEq, Eq, Structural)]
pub struct Point(pub i32, pub i32, pub i32);

/// The area of a rectangle, given its sides.
pub fn area(width: u32, height: u32) -> (area: u32)
    requires
        width * height <= u32::MAX,
    ensures
        area == width * height,
{
    width * height
}

/// The area of a rectangle, given its sides as a pair.
pub fn area_dimensions(dimensions: (u32, u32)) -> (area: u32)
    requires
        dimensions.0 * dimensions.1 <= u32::MAX,
    ensures
        area == dimensions.0 * dimensions.1,
{
    dimensions.0 * dimensions.1
}

/// A rectangle with sides along the axes.
#[derive(Debug, Clone, Copy, PartialEq, Eq, Structural)]
pub struct Rectangle {
    pub width: u32,
    pub height: u32,
}

/// The area of a rectangle.
pub fn area_rectangle(rect: &Rectangle) -> (area: u32)
    requires
        rect.spec_area() <= u32::MAX,
    ensures
        area == rect.spec_area(),
{
    rect.width * rect.height
}

impl Rectangle {
    /// The area of the rectangle.
    pub open spec fn spec_area(&self) -> int {
        self.width * self.height
    }

    /// Whether the rectangle is wider and higher than `rect`.
    pub open spec fn spec_hold(&self, rect: &Rectangle) -> bool {
        self.width > rect.width && self.height > rect.height
    }

    /// The area of the rectangle.
    pub fn area(&self) -> (area: u32)
        requires
            self.spec_area() <= u32::MAX,
        ensures
            area == self.spec_area(),
    {
        self.width * self.height
    }

    /// Whether `rect` fits inside the rectangle with room to spare on
    /// every side: whether this one is both wider and higher.
    pub fn hold(&self, rect: &Rectangle) -> (fits: bool)
        ensures
            fits == self.spec_hold(rect),
    {
        self.width > rect.width && self.height > rect.height
    }

    /// The rectangle with the given sides.
    pub fn from(width: u32, height: u32) -> (rect: Rectangle)
        ensures
            rect == (Rectangle { width, height }),
    {
        Rectangle { width, height }
    }
}

} // verus!
