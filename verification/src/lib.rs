//! A line-oriented interface-definition language: a schema parser with
//! semantic validation, a deterministic code generator, and the binary wire
//! codec that generated definitions use to serialize and deserialize values.

pub mod api;
pub mod call;
pub mod deserialize;
pub mod example;
pub mod function;
pub mod generate;
pub mod hash;
pub mod identify;
pub mod output;
pub mod parser;
pub mod read;
pub mod reader;
pub mod serialize;
pub mod text;
pub mod values;

pub use call::Call;
pub use deserialize::Deserialize;
pub use example::get_users;
pub use function::Function;
pub use generate::generate;
pub use parser::parse_schema;
pub use read::Read;
pub use serialize::Serialize;
pub use values::{Float64, Time};
