//! The steps of one simulation tick, in the order in which the host runs
//! them: self destruction, vehicle movement, vehicle logic, shooting, guided
//! missile steering, projectile motion, projectile timeout.
//!
//! Every step walks a snapshot of the entities it concerns and changes the
//! store only through single writes; entities are added and removed only
//! after the walk.
pub mod guided;
pub mod projectiles;
pub mod removal;
pub mod self_destruct;
pub mod shooting;
pub mod timeout;
pub mod vehicle_logic;
pub mod vehicle_movement;

pub use guided::gm_turning;
pub use projectiles::projectiles;
pub use removal::remove_projectile;
pub use self_destruct::self_destruct;
pub use shooting::shooting;
pub use timeout::projectiles_timeout;
pub use vehicle_logic::vehicle_logic;
pub use vehicle_movement::vehicle_movement;
