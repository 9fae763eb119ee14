//! Witness search for multi-criteria contraction hierarchies.
//!
//! Costs and preferences are fixed-point numbers: one unit is `SCALE` ticks,
//! and equality is tested up to `ACCURACY` ticks.
pub mod contraction;
pub mod costs;
pub mod edge;
pub mod search;
pub mod solver;

pub use costs::{
    add_edge_costs, costs_by_alpha, equal_weights, is_dominated, normalize_constraint,
    same_array, ACCURACY, SCALE,
};
pub use contraction::Contraction;
pub use edge::{Edge, Shortcut};
pub use search::{ShortcutSearch, Step};
