//! The simulation core of a small top-down arcade shooter.
//!
//! A player square walks over the screen and fires bullets towards the
//! cursor; enemy squares appear outside the screen and home in on the
//! player. Everything here works on whole pixels and whole nanoseconds: the
//! fractional arithmetic of a frame (unit vectors, distance travelled) is
//! supplied by the caller through [`motion::Motion`], and the windowing,
//! input and drawing back end is the caller's as well.

pub mod geometry;
pub mod motion;
pub mod bullet;
pub mod player;
pub mod enemy;
pub mod game;
pub mod scene;
pub mod laws;
