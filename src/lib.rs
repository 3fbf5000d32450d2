//! The three atomic terms of the RDF data model: named nodes (IRIs), blank
//! nodes and literals, with their construction rules, total order, hashing and
//! canonical text form.
pub mod blank_node;
pub mod literal;
pub mod named_node;
pub mod order;
pub mod term;
