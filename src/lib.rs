//! Kinematic locomotion and collision resolution for game characters, on
//! fixed-point integers.
pub mod fixed;
pub mod isqrt;
pub mod slope;
pub mod contact;
pub mod body;
pub mod intent;
pub mod contact_laws;
pub mod grounded;
pub mod knockback;
pub mod attack;
pub mod enemy;
