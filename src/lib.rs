//! Backend-independent core of a display-server compositor: window placement,
//! buffer readiness, damage tracking and the decisions of the render loop.
pub mod compositor;
pub mod damage;
pub mod focus;
pub mod geometry;
pub mod import;
pub mod order;
pub mod space;
