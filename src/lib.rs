//! Combat locomotion core of a top-down action game: movement facing,
//! weapon barrel aiming, firing cooldowns and projectile flight, all on
//! exact fixed-point integer geometry.
pub mod geometry;
pub mod locomotion;
pub mod aim;
pub mod bullets;
pub mod weapon;
pub mod debug;
pub mod inventory;
pub mod tick;
