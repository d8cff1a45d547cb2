//! The simulation core of a top-down vehicle combat game.
//!
//! One tick moves the vehicles, runs their logic, lets them fire, steers the
//! guided missile, flies the projectiles and expires those whose time is up.
//! The entities live in a `legion::World`; everything else that changes from
//! frame to frame lives in a `GameState`. All numbers are fixed-point, so
//! that the same inputs give the same game on every machine. What needs
//! floating point (the table of directions, the shares that linear friction
//! leaves over a frame, normal deviates) the host computes and hands over as
//! fixed-point numbers.
pub mod components;
pub mod cvars;
pub mod fixed;
pub mod game_state;
pub mod kinematics;
pub mod map;
pub mod store;
pub mod systems;
pub mod trig;
pub mod vec2;
pub mod view;
