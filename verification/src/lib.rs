//! A typed bridge between a host and an interpreter that it embeds: what is
//! written to the interpreter, what is read back from it, and how host types
//! are registered with it.

pub mod lua;
pub mod table;
pub mod text;
pub mod userdata;
pub mod values;

pub use crate::lua::{Lua, LuaSlot, LuaTable, LuaType, LuaValue, TypeIdentity};
pub use crate::text::EncodingError;
pub use crate::userdata::{
    LuaStruct, NewStruct, push_lightuserdata, push_userdata, read_userdata,
};
pub use crate::values::{LuaNumber, LuaPush, LuaRead};
