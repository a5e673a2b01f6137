pub mod xml;
pub mod lookup;
pub mod constructors;
pub mod classes;
pub mod selection;
pub mod laws;
pub mod composition;
