//! The primitive codec: how integers, doubles, texts, booleans and the unit
//! value are written to a stack slot, and how each is read back from what the
//! interpreter reports of a slot.

use vstd::prelude::*;

use vstd::utf8::{decode_utf8, valid_utf8};

use crate::lua::{
    GlobalView, Lua, LuaObject, LuaSlot, LuaType, LuaValue, LuaView, ObjectView, SlotView,
    ValueView, reports,
};
use crate::text::{
    EncodingError, check_text, lemma_text_round_trip, read_text, text_check, text_read, until_nul,
};

verus! {

/// What a push does to a context, given what the value encodes to: one slot
/// more and the count 1, or the error and no change.
pub open spec fn pushed_as(
    encoding: Result<ValueView, EncodingError>,
    before: LuaView,
    after: LuaView,
    pushed: Result<i32, EncodingError>,
) -> bool {
    match encoding {
        Ok(value) => pushed == Ok::<i32, EncodingError>(1) && after == before.push(
            ObjectView::Value(value),
        ),
        Err(error) => pushed == Err::<i32, EncodingError>(error) && after == before,
    }
}

/// A value that can be written to one stack slot.
pub trait LuaPush: Sized {
    /// What the value is written as, or why it cannot be written.
    spec fn encoding(&self) -> Result<ValueView, EncodingError>;

    /// Writes the value to exactly one slot and returns the number of slots
    /// written, or rejects it and writes nothing.
    fn push_to_lua(self, lua: &mut Lua) -> (pushed: Result<i32, EncodingError>)
        ensures
            pushed_as(self.encoding(), old(lua)@, final(lua)@, pushed),
    ;
}

/// A value that can be read back from what the interpreter reports of a slot.
pub trait LuaRead: Sized {
    /// `value` is what reading `slot` gives.
    spec fn decoding(slot: SlotView, value: Option<Self>) -> bool;

    /// Reads the slot; `None` where it does not hold a value of this kind.
    fn lua_read(slot: &LuaSlot) -> (value: Option<Self>)
        ensures
            Self::decoding(slot@, value),
    ;
}

/// The text that writing `text` gives, or the error.
pub open spec fn text_encoding(text: Seq<char>) -> Result<ValueView, EncodingError> {
    match text_check(text) {
        Ok(_) => Ok(ValueView::Text(text)),
        Err(error) => Err(error),
    }
}

fn push_text(text: &str, lua: &mut Lua) -> (pushed: Result<i32, EncodingError>)
    ensures
        pushed_as(text_encoding(text@), old(lua)@, final(lua)@, pushed),
{
    match check_text(text) {
        Ok(_) => {
            lua.push(LuaObject::Value(LuaValue::Text(text.to_owned())));
            Ok(1)
        },
        Err(error) => Err(error),
    }
}

fn push_integer(value: i64, lua: &mut Lua) -> (pushed: Result<i32, EncodingError>)
    ensures
        pushed_as(Ok(ValueView::Integer(value)), old(lua)@, final(lua)@, pushed),
{
    lua.push(LuaObject::Value(LuaValue::Integer(value)));
    Ok(1)
}

impl LuaPush for i8 {
    open spec fn encoding(&self) -> Result<ValueView, EncodingError> {
        Ok(ValueView::Integer(*self as i64))
    }

    fn push_to_lua(self, lua: &mut Lua) -> (pushed: Result<i32, EncodingError>) {
        push_integer(self as i64, lua)
    }
}

impl LuaRead for i8 {
    open spec fn decoding(slot: SlotView, value: Option<i8>) -> bool {
        value == match slot.integer {
            Some(wide) => Some(wide as i8),
            None => None,
        }
    }

    fn lua_read(slot: &LuaSlot) -> (value: Option<i8>) {
        match slot.integer {
            Some(wide) => Some(#[verifier::truncate] (wide as i8)),
            None => None,
        }
    }
}

impl LuaPush for i16 {
    open spec fn encoding(&self) -> Result<ValueView, EncodingError> {
        Ok(ValueView::Integer(*self as i64))
    }

    fn push_to_lua(self, lua: &mut Lua) -> (pushed: Result<i32, EncodingError>) {
        push_integer(self as i64, lua)
    }
}

impl LuaRead for i16 {
    open spec fn decoding(slot: SlotView, value: Option<i16>) -> bool {
        value == match slot.integer {
            Some(wide) => Some(wide as i16),
            None => None,
        }
    }

    fn lua_read(slot: &LuaSlot) -> (value: Option<i16>) {
        match slot.integer {
            Some(wide) => Some(#[verifier::truncate] (wide as i16)),
            None => None,
        }
    }
}

impl LuaPush for i32 {
    open spec fn encoding(&self) -> Result<ValueView, EncodingError> {
        Ok(ValueView::Integer(*self as i64))
    }

    fn push_to_lua(self, lua: &mut Lua) -> (pushed: Result<i32, EncodingError>) {
        push_integer(self as i64, lua)
    }
}

impl LuaRead for i32 {
    open spec fn decoding(slot: SlotView, value: Option<i32>) -> bool {
        value == match slot.integer {
            Some(wide) => Some(wide as i32),
            None => None,
        }
    }

    fn lua_read(slot: &LuaSlot) -> (value: Option<i32>) {
        match slot.integer {
            Some(wide) => Some(#[verifier::truncate] (wide as i32)),
            None => None,
        }
    }
}

impl LuaPush for u8 {
    open spec fn encoding(&self) -> Result<ValueView, EncodingError> {
        Ok(ValueView::Integer(*self as i64))
    }

    fn push_to_lua(self, lua: &mut Lua) -> (pushed: Result<i32, EncodingError>) {
        push_integer(self as i64, lua)
    }
}

impl LuaRead for u8 {
    open spec fn decoding(slot: SlotView, value: Option<u8>) -> bool {
        value == match slot.integer {
            Some(wide) => Some(wide as u8),
            None => None,
        }
    }

    fn lua_read(slot: &LuaSlot) -> (value: Option<u8>) {
        match slot.integer {
            Some(wide) => Some(#[verifier::truncate] (wide as u8)),
            None => None,
        }
    }
}

impl LuaPush for u16 {
    open spec fn encoding(&self) -> Result<ValueView, EncodingError> {
        Ok(ValueView::Integer(*self as i64))
    }

    fn push_to_lua(self, lua: &mut Lua) -> (pushed: Result<i32, EncodingError>) {
        push_integer(self as i64, lua)
    }
}

impl LuaRead for u16 {
    open spec fn decoding(slot: SlotView, value: Option<u16>) -> bool {
        value == match slot.integer {
            Some(wide) => Some(wide as u16),
            None => None,
        }
    }

    fn lua_read(slot: &LuaSlot) -> (value: Option<u16>) {
        match slot.integer {
            Some(wide) => Some(#[verifier::truncate] (wide as u16)),
            None => None,
        }
    }
}

impl LuaPush for u32 {
    open spec fn encoding(&self) -> Result<ValueView, EncodingError> {
        Ok(ValueView::Integer(*self as i64))
    }

    fn push_to_lua(self, lua: &mut Lua) -> (pushed: Result<i32, EncodingError>) {
        push_integer(self as i64, lua)
    }
}

impl LuaRead for u32 {
    open spec fn decoding(slot: SlotView, value: Option<u32>) -> bool {
        value == match slot.integer {
            Some(wide) => Some(wide as u32),
            None => None,
        }
    }

    fn lua_read(slot: &LuaSlot) -> (value: Option<u32>) {
        match slot.integer {
            Some(wide) => Some(#[verifier::truncate] (wide as u32)),
            None => None,
        }
    }
}

impl LuaPush for usize {
    open spec fn encoding(&self) -> Result<ValueView, EncodingError> {
        Ok(ValueView::Integer(*self as i64))
    }

    fn push_to_lua(self, lua: &mut Lua) -> (pushed: Result<i32, EncodingError>) {
        push_integer(#[verifier::truncate] (self as i64), lua)
    }
}

impl LuaRead for usize {
    open spec fn decoding(slot: SlotView, value: Option<usize>) -> bool {
        value == match slot.integer {
            Some(wide) => Some(wide as usize),
            None => None,
        }
    }

    fn lua_read(slot: &LuaSlot) -> (value: Option<usize>) {
        match slot.integer {
            Some(wide) => Some(#[verifier::truncate] (wide as usize)),
            None => None,
        }
    }
}

/// A double, carried by its bit pattern. The library moves it and never
/// computes with it.
#[derive(Clone, Copy, Debug, PartialEq, Eq, Structural)]
pub struct LuaNumber {
    pub bits: u64,
}

impl LuaPush for LuaNumber {
    open spec fn encoding(&self) -> Result<ValueView, EncodingError> {
        Ok(ValueView::Number(self.bits))
    }

    fn push_to_lua(self, lua: &mut Lua) -> (pushed: Result<i32, EncodingError>) {
        lua.push(LuaObject::Value(LuaValue::Number(self.bits)));
        Ok(1)
    }
}

impl LuaRead for LuaNumber {
    open spec fn decoding(slot: SlotView, value: Option<LuaNumber>) -> bool {
        value == match slot.number {
            Some(bits) => Some(LuaNumber { bits }),
            None => None,
        }
    }

    fn lua_read(slot: &LuaSlot) -> (value: Option<LuaNumber>) {
        match slot.number {
            Some(bits) => Some(LuaNumber { bits }),
            None => None,
        }
    }
}

impl LuaPush for String {
    open spec fn encoding(&self) -> Result<ValueView, EncodingError> {
        text_encoding(self@)
    }

    fn push_to_lua(self, lua: &mut Lua) -> (pushed: Result<i32, EncodingError>) {
        push_text(self.as_str(), lua)
    }
}

impl LuaRead for String {
    open spec fn decoding(slot: SlotView, value: Option<String>) -> bool {
        match slot.text {
            Some(bytes) => {
                &&& value is Some
                &&& value->0@ == text_read(bytes)
                &&& valid_utf8(until_nul(bytes)) ==> value->0@ == decode_utf8(until_nul(bytes))
            },
            None => value is None,
        }
    }

    fn lua_read(slot: &LuaSlot) -> (value: Option<String>) {
        match &slot.text {
            Some(bytes) => Some(read_text(bytes.as_slice())),
            None => None,
        }
    }
}

impl<'s> LuaPush for &'s str {
    open spec fn encoding(&self) -> Result<ValueView, EncodingError> {
        text_encoding(self@)
    }

    fn push_to_lua(self, lua: &mut Lua) -> (pushed: Result<i32, EncodingError>) {
        push_text(self, lua)
    }
}

impl LuaPush for bool {
    open spec fn encoding(&self) -> Result<ValueView, EncodingError> {
        Ok(ValueView::Boolean(*self))
    }

    fn push_to_lua(self, lua: &mut Lua) -> (pushed: Result<i32, EncodingError>) {
        lua.push(LuaObject::Value(LuaValue::Boolean(self)));
        Ok(1)
    }
}

impl LuaRead for bool {
    open spec fn decoding(slot: SlotView, value: Option<bool>) -> bool {
        value == if slot.kind == LuaType::Boolean {
            Some(slot.boolean)
        } else {
            None
        }
    }

    fn lua_read(slot: &LuaSlot) -> (value: Option<bool>) {
        if slot.kind != LuaType::Boolean {
            return None;
        }
        Some(slot.boolean)
    }
}

impl LuaPush for () {
    open spec fn encoding(&self) -> Result<ValueView, EncodingError> {
        Ok(ValueView::Nil)
    }

    fn push_to_lua(self, lua: &mut Lua) -> (pushed: Result<i32, EncodingError>) {
        lua.push(LuaObject::Value(LuaValue::Nil));
        Ok(1)
    }
}

impl LuaRead for () {
    open spec fn decoding(slot: SlotView, value: Option<()>) -> bool {
        value == Some(())
    }

    fn lua_read(slot: &LuaSlot) -> (value: Option<()>) {
        Some(())
    }
}

/// An `i8` that was written reads back as itself.
pub proof fn lemma_round_trip_i8(value: i8, globals: Map<Seq<char>, GlobalView>, slot: SlotView)
    requires
        reports(globals, slot, ObjectView::Value(value.encoding()->Ok_0)),
    ensures
        i8::decoding(slot, Some(value)),
{
    assert((value as i64) as i8 == value) by (bit_vector);
}

/// An `i16` that was written reads back as itself.
pub proof fn lemma_round_trip_i16(value: i16, globals: Map<Seq<char>, GlobalView>, slot: SlotView)
    requires
        reports(globals, slot, ObjectView::Value(value.encoding()->Ok_0)),
    ensures
        i16::decoding(slot, Some(value)),
{
    assert((value as i64) as i16 == value) by (bit_vector);
}

/// An `i32` that was written reads back as itself.
pub proof fn lemma_round_trip_i32(value: i32, globals: Map<Seq<char>, GlobalView>, slot: SlotView)
    requires
        reports(globals, slot, ObjectView::Value(value.encoding()->Ok_0)),
    ensures
        i32::decoding(slot, Some(value)),
{
    assert((value as i64) as i32 == value) by (bit_vector);
}

/// A `u8` that was written reads back as itself.
pub proof fn lemma_round_trip_u8(value: u8, globals: Map<Seq<char>, GlobalView>, slot: SlotView)
    requires
        reports(globals, slot, ObjectView::Value(value.encoding()->Ok_0)),
    ensures
        u8::decoding(slot, Some(value)),
{
    assert((value as i64) as u8 == value) by (bit_vector);
}

/// A `u16` that was written reads back as itself.
pub proof fn lemma_round_trip_u16(value: u16, globals: Map<Seq<char>, GlobalView>, slot: SlotView)
    requires
        reports(globals, slot, ObjectView::Value(value.encoding()->Ok_0)),
    ensures
        u16::decoding(slot, Some(value)),
{
    assert((value as i64) as u16 == value) by (bit_vector);
}

/// A `u32` that was written reads back as itself.
pub proof fn lemma_round_trip_u32(value: u32, globals: Map<Seq<char>, GlobalView>, slot: SlotView)
    requires
        reports(globals, slot, ObjectView::Value(value.encoding()->Ok_0)),
    ensures
        u32::decoding(slot, Some(value)),
{
    assert((value as i64) as u32 == value) by (bit_vector);
}

/// A `usize` that was written reads back as itself, also where it is too
/// large for the interpreter's signed integer and is written as a negative
/// one.
pub proof fn lemma_round_trip_usize(
    value: usize,
    globals: Map<Seq<char>, GlobalView>,
    slot: SlotView,
)
    requires
        reports(globals, slot, ObjectView::Value(value.encoding()->Ok_0)),
    ensures
        usize::decoding(slot, Some(value)),
{
    assert((value as i64) as usize == value) by (bit_vector);
}

/// A double that was written reads back with the same bit pattern.
pub proof fn lemma_round_trip_number(
    value: LuaNumber,
    globals: Map<Seq<char>, GlobalView>,
    slot: SlotView,
)
    requires
        reports(globals, slot, ObjectView::Value(value.encoding()->Ok_0)),
    ensures
        LuaNumber::decoding(slot, Some(value)),
{
}

/// A boolean that was written reads back as itself.
pub proof fn lemma_round_trip_bool(value: bool, globals: Map<Seq<char>, GlobalView>, slot: SlotView)
    requires
        reports(globals, slot, ObjectView::Value(value.encoding()->Ok_0)),
    ensures
        bool::decoding(slot, Some(value)),
{
}

/// The unit value that was written reads back as itself.
pub proof fn lemma_round_trip_unit(globals: Map<Seq<char>, GlobalView>, slot: SlotView)
    requires
        reports(globals, slot, ObjectView::Value(().encoding()->Ok_0)),
    ensures
        <()>::decoding(slot, Some(())),
{
}

/// A text that could be written reads back as itself: whatever reading the
/// slot gives, it is that text.
pub proof fn lemma_round_trip_text(
    text: String,
    globals: Map<Seq<char>, GlobalView>,
    slot: SlotView,
    value: Option<String>,
)
    requires
        text.encoding() is Ok,
        reports(globals, slot, ObjectView::Value(text.encoding()->Ok_0)),
        String::decoding(slot, value),
    ensures
        value is Some,
        value->0@ == text@,
{
    lemma_text_round_trip(text@);
}

} // verus!
