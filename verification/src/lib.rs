//! Verified core of the Cooklang bindings: the plain data model handed to
//! foreign-language callers, the rules that turn a parsed recipe into that
//! model, the ingredient-quantity grouping rules, diagnostic filtering and the
//! extension switches.
use vstd::prelude::*;

pub mod component;
pub mod diagnostics;
pub mod extensions;
pub mod ingredient_list;
pub mod metadata;
pub mod quantity;
pub mod recipe;
pub mod reference;
pub mod relation;

verus! {

} // verus!
