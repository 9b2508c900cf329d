//! Runtime path finding over a 2-D binary space partition.
//!
//! The library builds a BSP tree whose splitting planes are the input walls,
//! derives portals (the open doorways between neighbouring leaf regions) and
//! answers point-to-point path queries with an A* search over the portal
//! graph.  All coordinate arithmetic is delegated to `glam` through the
//! trusted layer in [`geom`]; everything above that layer is verified.

pub mod astar;
pub mod geom;
pub mod heuristics;
pub mod navigation_context;
pub mod shape;
pub mod tree;
pub mod util;

pub use astar::{Path, SearchInfo, WayPoint};
pub use navigation_context::NavigationContext;
pub use shape::{Face, Shape, Side};
pub use tree::{BSPNode, BSPTree, ClippedFace, NodeIndex, NodePayload, Portal, PortalRef, Portals};
