//! Reading ROS 2 dynamic messages field by field, as a deserializer walks them.
use vstd::prelude::*;

pub mod error;
pub mod laws;
pub mod memory;
pub mod reader;
pub mod render;
pub mod structure;
pub mod text;
pub mod value;
pub mod value_laws;

pub use error::DynamicMessageError;
pub use reader::{DynReader, DynamicMessageView, MsgAccess, Request, SeqAccess};
pub use structure::{BaseType, MessageFieldInfo, MessageStructure, ValueKind};
pub use value::SimpleValue;

verus! {

} // verus!
