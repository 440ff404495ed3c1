//! A small interactive "collect the targets" session.
//!
//! A session holds a field of 2D targets, a pointer position, a growth
//! radius and an outcome flag. Two independent rules drive it: a decay
//! rule removes one randomly chosen target once per period, and a
//! collection rule consumes every target within the (live, growing)
//! radius of the pointer. The session ends Won when collection empties
//! the field, and Lost when decay does.

mod sample;
pub mod scene;
pub mod session;
