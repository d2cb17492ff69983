//! A table-driven expression parser.
//!
//! An operator table declares prefix, postfix, infix and multi-token
//! operators as plain data; a recursive binding-power engine turns a
//! character buffer into a uniform expression tree, resolving precedence
//! and associativity from the declared binding powers alone.

pub mod cursor;
pub mod engine;
pub mod expr;
pub mod laws;
pub mod model;
pub mod table;

pub use cursor::Cursor;
pub use cursor::chars_of;
pub use engine::parse_atom;
pub use engine::parse_expr;
pub use expr::ExprView;
pub use expr::Expression;
pub use model::ParseError;
pub use table::FollowingKind;
pub use table::FollowingOp;
pub use table::Language;
pub use table::LeadingKind;
pub use table::LeadingOp;
pub use table::infix;
pub use table::paren;
pub use table::postfix;
pub use table::prefix;
