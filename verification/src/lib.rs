//! Geometry data of a rendered DSLCAD model and the mesh processing that
//! prepares it for export to STL and 3MF.
use vstd::prelude::*;

pub mod angles;
pub mod editor;
pub mod error;
pub mod export;
pub mod menu;
pub mod project;
pub mod protocol;
pub mod settings;
pub mod stl;
pub mod text;
pub mod threemf;
pub mod weld;

verus! {

} // verus!
