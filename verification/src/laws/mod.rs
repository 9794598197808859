//! What the library promises, said of what goes in and what comes out.
//!
//! The contracts of the other modules speak through spec functions. The laws here say
//! what those amount to in the plainest terms there are: characters, bytes, members of
//! objects, items of lists, and how the results of related inputs relate.

pub mod answers;
pub mod calls;
pub mod paths;
pub mod records;
pub mod resources;
pub mod specs;
pub mod texts;
pub mod values;
pub mod watches;
