//! A small ray tracer over fixed-point numbers.
//!
//! A scene holds spheres, planes and lights.  For every pixel a camera ray
//! is cast; what it strikes first is shaded by the light of every source
//! that reaches the point, and by the mirror image of the scene in it.
//!
//! Every scalar is a [`fixed::Fixed`]: a signed number with 32 fractional
//! bits.  Its arithmetic rounds toward zero and saturates at the ends of its
//! range, and the largest number stands in for an unbounded quantity.  Each
//! function states its result over the integer model of its arguments, so
//! the image that a scene renders to is fixed bit for bit.
//!
//! - [`fixed`]: the scalars and the integer square root.
//! - [`vector`], [`coordinate`], [`color`]: triples of scalars and their
//!   model.
//! - [`objects`]: rays, spheres and planes, and where a ray strikes them.
//! - [`light`]: directional and point lights.
//! - [`scene`]: the scene, the camera and the nearest strike of a ray.
//! - [`shading`]: the colour of a strike, of a pixel and of the image.

pub mod fixed;
pub mod vector;
pub mod coordinate;
pub mod color;
pub mod objects;
pub mod light;
pub mod scene;
pub mod shading;
