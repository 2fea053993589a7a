//! Pages of the application: the start page and the nodes of the thought graph.

pub mod node;

use vstd::prelude::*;

verus! {

/// The start page, which offers the other pages.
#[derive(Default)]
pub struct HomePage;

} // verus!
