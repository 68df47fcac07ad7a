//! Operators of the TypeScript language family for library learning over
//! e-graphs: how an operator is named, read back from its name, sized and
//! how it binds de Bruijn variables.
pub mod decimal;
pub mod lang;
mod text;
