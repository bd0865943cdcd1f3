//! Heap-management core of a managed-language runtime: a generational, moving
//! garbage collector together with the per-object header protocol it depends
//! on, and the small semantic front end of the language the runtime executes.
//!
//! The heap is modelled explicitly: spaces hand out byte addresses, objects
//! carry a header word pair (class pointer / forwarding slot and a mark bit
//! packed beside a relocation address), and a full collection runs the
//! mark -> evacuate -> sweep/compact -> repair pipeline over that model.

pub mod ast;
pub mod card;
pub mod class;
pub mod collector;
pub mod crossing;
pub mod error;
pub mod heap;
pub mod lexer;
pub mod mem;
pub mod object;
pub mod parser;
pub mod semck;
pub mod space;
