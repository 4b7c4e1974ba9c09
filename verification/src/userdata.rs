//! The opaque value carrier: how a host value is handed to the interpreter
//! as a block with a type tag, how a block is read back only as the type it
//! was tagged with, and how a block is released.

use vstd::prelude::*;

use crate::lua::{
    EntryView, FunctionView, GlobalView, LightUserdataView, Lua, LuaEntry, LuaFunction, LuaGlobal,
    LuaLightUserdata, LuaObject, LuaSlot, LuaTable, LuaUserdata, LuaValue, LuaView, MetatableRef,
    MetatableRefView, ObjectView, SlotView, TableView, TypeIdentity, UserdataView, ValueView,
    reports,
};
use crate::table::Table;
use crate::text::{EncodingError, check_text, text_check};
use crate::values::LuaPush;

verus! {

/// The key under which a metadata map holds the tag of the host type.
pub open spec fn typeid_key() -> Seq<char> {
    "__typeid"@
}

/// The key under which a metadata map holds the hook that releases a block.
pub open spec fn gc_key() -> Seq<char> {
    "__gc"@
}

/// The key under which a descriptor holds its table of fields and methods.
pub open spec fn index_key() -> Seq<char> {
    "__index"@
}

/// The key under which the metadata map of a descriptor holds the hook that
/// builds a value when the descriptor is called.
pub open spec fn call_key() -> Seq<char> {
    "__call"@
}

/// The key of the tag is none of the other keys.
pub proof fn lemma_typeid_key_apart()
    ensures
        typeid_key() != gc_key(),
        typeid_key() != index_key(),
{
    reveal_strlit("__typeid");
    reveal_strlit("__gc");
    reveal_strlit("__index");
    assert(typeid_key().len() == 8);
    assert(gc_key().len() == 4);
    assert(index_key().len() == 7);
}

/// `std::any::TypeId::of`, formatted for debugging. Nothing is claimed of
/// the text: which one a type gets is the compiler's choice.
#[verifier::external_body]
fn type_fingerprint<T: 'static>() -> (fingerprint: String) {
    format!("{:?}", std::any::TypeId::of::<T>())
}

impl TypeIdentity {
    /// The identity with the given fingerprint.
    pub fn new(fingerprint: &str) -> (identity: TypeIdentity)
        ensures
            identity@ == fingerprint@,
    {
        TypeIdentity { fingerprint: fingerprint.to_owned() }
    }

    /// The identity of the host type `T`.
    pub fn of<T: 'static>() -> (identity: TypeIdentity) {
        TypeIdentity { fingerprint: type_fingerprint::<T>() }
    }

    /// Whether the two identities are one.
    pub fn matches(&self, other: &TypeIdentity) -> (same: bool)
        ensures
            same == (self@ == other@),
    {
        self.fingerprint == other.fingerprint
    }

    /// A copy of the identity.
    pub fn duplicate(&self) -> (copy: TypeIdentity)
        ensures
            copy@ == self@,
    {
        TypeIdentity { fingerprint: self.fingerprint.clone() }
    }
}

/// The metadata map that a block held by reference starts with: the tag
/// and nothing else, so that nothing releases what the host still owns.
pub open spec fn reference_metatable(identity: Seq<char>) -> TableView {
    TableView {
        entries: Map::<Seq<char>, EntryView>::empty().insert(
            typeid_key(),
            EntryView::Value(ValueView::Text(identity)),
        ),
        metatable: None,
    }
}

/// The metadata map that an owned block starts with: the tag, and the hook
/// that releases the block.
pub open spec fn owned_metatable(identity: Seq<char>) -> TableView {
    TableView {
        entries: reference_metatable(identity).entries.insert(
            gc_key(),
            EntryView::Value(ValueView::Function(FunctionView::Finalizer(identity))),
        ),
        metatable: None,
    }
}

/// The owned block of `size` bytes, not yet released, whose metadata map is
/// `metatable`.
pub open spec fn owned_block(size: usize, metatable: TableView) -> ObjectView {
    ObjectView::Userdata(
        UserdataView { size, live: true, metatable: MetatableRefView::Own(metatable) },
    )
}

/// What pushing an owned block of `size` bytes tagged `identity` does, when
/// `metatable` is given the starting map to complete: the error and no
/// change where the tag cannot be written; else one slot more, which holds
/// the block with the map that `metatable` returned, and the count 1.
pub open spec fn userdata_pushed<F: FnOnce(LuaTable) -> LuaTable>(
    identity: Seq<char>,
    size: usize,
    metatable: F,
    before: LuaView,
    after: LuaView,
    pushed: Result<i32, EncodingError>,
) -> bool {
    match text_check(identity) {
        Ok(_) => {
            &&& pushed == Ok::<i32, EncodingError>(1)
            &&& exists|start: LuaTable, built: LuaTable|
                {
                    &&& start@ == owned_metatable(identity)
                    &&& call_ensures(metatable, (start,), built)
                    &&& after == before.push(owned_block(size, built@))
                }
        },
        Err(error) => pushed == Err::<i32, EncodingError>(error) && after == before,
    }
}

/// What pushing the address of a host value tagged `identity` does: as
/// for an owned block, but the map starts without a hook to release it.
pub open spec fn lightuserdata_pushed<F: FnOnce(LuaTable) -> LuaTable>(
    identity: Seq<char>,
    address: usize,
    metatable: F,
    before: LuaView,
    after: LuaView,
    pushed: Result<i32, EncodingError>,
) -> bool {
    match text_check(identity) {
        Ok(_) => {
            &&& pushed == Ok::<i32, EncodingError>(1)
            &&& exists|start: LuaTable, built: LuaTable|
                {
                    &&& start@ == reference_metatable(identity)
                    &&& call_ensures(metatable, (start,), built)
                    &&& after == before.push(
                        ObjectView::LightUserdata(
                            LightUserdataView { address, metatable: built@ },
                        ),
                    )
                }
        },
        Err(error) => pushed == Err::<i32, EncodingError>(error) && after == before,
    }
}

fn tagged_table(identity: &TypeIdentity) -> (table: LuaTable)
    ensures
        table@ == reference_metatable(identity@),
{
    let mut table = LuaTable::new();
    table.entries.set("__typeid", LuaEntry::Value(LuaValue::Text(identity.fingerprint.clone())));
    table
}

/// Pushes an owned block of `size` bytes, tagged `identity`. The map of the
/// block starts with the tag and the hook that releases it; `metatable`
/// completes it before it is attached. A block of no bytes is a block too.
pub fn push_tagged_userdata<F: FnOnce(LuaTable) -> LuaTable>(
    identity: &TypeIdentity,
    size: usize,
    lua: &mut Lua,
    metatable: F,
) -> (pushed: Result<i32, EncodingError>)
    requires
        forall|start: LuaTable|
            start@ == owned_metatable(identity@) ==> call_requires(metatable, (start,)),
    ensures
        userdata_pushed(identity@, size, metatable, old(lua)@, final(lua)@, pushed),
{
    match check_text(identity.fingerprint.as_str()) {
        Ok(_) => {},
        Err(error) => {
            return Err(error);
        },
    }
    let mut start = tagged_table(identity);
    start.entries.set(
        "__gc",
        LuaEntry::Value(LuaValue::Function(LuaFunction::Finalizer(identity.duplicate()))),
    );
    assert(start@.entries =~= owned_metatable(identity@).entries);
    let built = metatable(start);
    lua.push(
        LuaObject::Userdata(LuaUserdata { size, live: true, metatable: MetatableRef::Own(built) }),
    );
    Ok(1)
}

/// Pushes the address of a value that the host keeps, tagged `identity`.
/// Its map starts with the tag alone. The host must keep the value for as
/// long as the interpreter may reach the address.
pub fn push_tagged_lightuserdata<F: FnOnce(LuaTable) -> LuaTable>(
    identity: &TypeIdentity,
    address: usize,
    lua: &mut Lua,
    metatable: F,
) -> (pushed: Result<i32, EncodingError>)
    requires
        forall|start: LuaTable|
            start@ == reference_metatable(identity@) ==> call_requires(metatable, (start,)),
    ensures
        lightuserdata_pushed(identity@, address, metatable, old(lua)@, final(lua)@, pushed),
{
    match check_text(identity.fingerprint.as_str()) {
        Ok(_) => {},
        Err(error) => {
            return Err(error);
        },
    }
    let start = tagged_table(identity);
    let built = metatable(start);
    lua.push(LuaObject::LightUserdata(LuaLightUserdata { address, metatable: built }));
    Ok(1)
}

/// Pushes an owned block for `data`, as large as `data` and tagged as `T`.
/// The bytes of `data` are for the caller to move into the block.
pub fn push_userdata<T: 'static, F: FnOnce(LuaTable) -> LuaTable>(
    data: &T,
    lua: &mut Lua,
    metatable: F,
) -> (pushed: Result<i32, EncodingError>)
    requires
        forall|start: LuaTable| call_requires(metatable, (start,)),
    ensures
        exists|identity: Seq<char>|
            #[trigger] userdata_pushed(
                identity,
                vstd::layout::spec_size_of_val::<T>(data) as usize,
                metatable,
                old(lua)@,
                final(lua)@,
                pushed,
            ),
{
    let identity = TypeIdentity::of::<T>();
    let size = core::mem::size_of_val(data);
    let pushed = push_tagged_userdata(&identity, size, lua, metatable);
    assert(size == vstd::layout::spec_size_of_val::<T>(data) as usize);
    assert(userdata_pushed(identity@, size, metatable, old(lua)@, lua@, pushed));
    pushed
}

/// Pushes the address of a value of type `T` that the host keeps, tagged
/// as `T`.
pub fn push_lightuserdata<T: 'static, F: FnOnce(LuaTable) -> LuaTable>(
    address: usize,
    lua: &mut Lua,
    metatable: F,
) -> (pushed: Result<i32, EncodingError>)
    requires
        forall|start: LuaTable| call_requires(metatable, (start,)),
    ensures
        exists|identity: Seq<char>|
            #[trigger] lightuserdata_pushed(
                identity,
                address,
                metatable,
                old(lua)@,
                final(lua)@,
                pushed,
            ),
{
    let identity = TypeIdentity::of::<T>();
    let pushed = push_tagged_lightuserdata(&identity, address, lua, metatable);
    assert(lightuserdata_pushed(identity@, address, metatable, old(lua)@, lua@, pushed));
    pushed
}

/// The tag that the metadata map `metatable` holds, if it holds one.
pub open spec fn tag_of(metatable: TableView) -> Option<Seq<char>> {
    if metatable.entries.contains_key(typeid_key()) {
        match metatable.entries[typeid_key()] {
            EntryView::Value(ValueView::Text(tag)) => Some(tag),
            _ => None,
        }
    } else {
        None
    }
}

/// What reading `slot` as the type `expected` gives: the block's address if
/// the slot holds a block, a metadata map is attached to it, and the map's
/// tag is exactly `expected`; nothing in every other case.
pub open spec fn read_as(slot: SlotView, expected: Seq<char>) -> Option<usize> {
    if slot.block is Some && slot.metatable is Some && tag_of(slot.metatable->0) == Some(expected) {
        slot.block
    } else {
        None
    }
}

/// Reads the slot as a value of the type `expected`. The address that it
/// returns may be taken for a value of that type, and no other.
pub fn read_tagged_userdata(slot: &LuaSlot, expected: &TypeIdentity) -> (block: Option<usize>)
    ensures
        block == read_as(slot@, expected@),
{
    let address = match slot.block {
        Some(address) => address,
        None => {
            return None;
        },
    };
    let metatable = match &slot.metatable {
        Some(metatable) => metatable,
        None => {
            return None;
        },
    };
    match metatable.entries.get("__typeid") {
        Some(LuaEntry::Value(LuaValue::Text(tag))) => {
            if *tag == expected.fingerprint {
                Some(address)
            } else {
                None
            }
        },
        _ => None,
    }
}

/// Reads the slot as a value of type `T`.
pub fn read_userdata<T: 'static>(slot: &LuaSlot) -> (block: Option<usize>)
    ensures
        exists|expected: Seq<char>| block == #[trigger] read_as(slot@, expected),
{
    let expected = TypeIdentity::of::<T>();
    let block = read_tagged_userdata(slot, &expected);
    assert(block == read_as(slot@, expected@));
    block
}

/// A block after its release: it holds a placeholder, whatever it held.
pub open spec fn released(block: UserdataView) -> UserdataView {
    UserdataView { size: block.size, live: false, metatable: block.metatable }
}

/// How many values a release of `block` tears down: the one it holds, or
/// none if it holds the placeholder.
pub open spec fn teardowns(block: UserdataView) -> nat {
    if block.live {
        1
    } else {
        0
    }
}

/// Releases the block: puts the placeholder in place of the value, so that
/// a second release finds nothing to tear down. Returns 0, for success.
pub fn destructor_impl(block: &mut LuaUserdata) -> (status: libc::c_int)
    ensures
        status == 0,
        final(block)@ == released(old(block)@),
{
    block.live = false;
    0
}

/// The map that a block starts with holds the tag it was pushed under.
pub proof fn lemma_start_holds_tag(identity: Seq<char>)
    ensures
        tag_of(reference_metatable(identity)) == Some(identity),
        tag_of(owned_metatable(identity)) == Some(identity),
{
    lemma_typeid_key_apart();
}

/// A block reads back as the type it was pushed as, and as no other: if the
/// map it was pushed with still holds the tag `pushed`, reading it as
/// `expected` gives the block exactly when the two are one tag.
pub proof fn lemma_read_checks_identity(
    globals: Map<Seq<char>, GlobalView>,
    slot: SlotView,
    size: usize,
    metatable: TableView,
    pushed: Seq<char>,
    expected: Seq<char>,
)
    requires
        tag_of(metatable) == Some(pushed),
        reports(globals, slot, owned_block(size, metatable)),
    ensures
        expected == pushed ==> read_as(slot, expected) is Some,
        expected != pushed ==> read_as(slot, expected) is None,
{
}

/// A block is torn down once: the release of a block that holds its value
/// tears that value down and leaves the placeholder, and a release after
/// that finds the placeholder, tears nothing down and changes nothing.
pub proof fn lemma_finalizer_runs_once(block: UserdataView)
    requires
        block.live,
    ensures
        teardowns(block) == 1,
        !released(block).live,
        teardowns(released(block)) == 0,
        released(released(block)) == released(block),
{
}

/// The function `lua_upvalueindex` of `td_clua`: the pseudo-index of the
/// `i`-th value bound to a running hook, which is the registry's index less
/// `i`. Left out are the `i` for which that difference is no `c_int`.
pub assume_specification[ td_clua::lua_upvalueindex ](i: libc::c_int) -> (index: libc::c_int)
    requires
        -1001000 - i >= -2147483648,
    ensures
        index == -1001000 - i,
;

/// The pseudo-index at which a hook, while it runs, finds what was bound to
/// it when it was installed: each hook of this library is bound to one value.
pub fn hook_upvalue_index() -> (index: libc::c_int)
    ensures
        index == -1001001,
{
    td_clua::lua_upvalueindex(1)
}

/// A host type that can be registered: it can be built without arguments,
/// and it has a name under which its descriptor is published.
pub trait NewStruct: Sized {
    fn new() -> Self;

    fn name() -> &'static str;
}

/// The block that a constructor pushes: `size` bytes, not yet released,
/// with the descriptor published under `name` for its metadata map.
pub open spec fn constructed_block(name: Seq<char>, size: usize) -> ObjectView {
    ObjectView::Userdata(
        UserdataView { size, live: true, metatable: MetatableRefView::Global(name) },
    )
}

/// What constructing a value of a type registered as `name` does: the error
/// and no change where the name cannot be written; else one slot more,
/// which holds the block, and the count 1.
pub open spec fn constructed(
    name: Seq<char>,
    size: usize,
    before: LuaView,
    after: LuaView,
    pushed: Result<i32, EncodingError>,
) -> bool {
    match text_check(name) {
        Ok(_) => pushed == Ok::<i32, EncodingError>(1) && after == before.push(
            constructed_block(name, size),
        ),
        Err(error) => pushed == Err::<i32, EncodingError>(error) && after == before,
    }
}

/// Pushes the block for a newly built value of the type registered as
/// `name`: `size` bytes, with the published descriptor for its map.
pub fn push_constructed(name: &str, size: usize, lua: &mut Lua) -> (pushed: Result<
    i32,
    EncodingError,
>)
    ensures
        constructed(name@, size, old(lua)@, final(lua)@, pushed),
{
    match check_text(name) {
        Ok(_) => {},
        Err(error) => {
            return Err(error);
        },
    }
    lua.push(
        LuaObject::Userdata(
            LuaUserdata { size, live: true, metatable: MetatableRef::Global(name.to_owned()) },
        ),
    );
    Ok(1)
}

/// Builds a value of type `T` and pushes the block that is to hold it. The
/// value comes back with the count, for the caller to move into the block.
pub fn constructor_impl<T: NewStruct>(lua: &mut Lua) -> (built: (T, Result<i32, EncodingError>))
    ensures
        exists|name: Seq<char>| #[trigger]
            constructed(
                name,
                vstd::layout::size_of::<T>() as usize,
                old(lua)@,
                final(lua)@,
                built.1,
            ),
{
    let value = T::new();
    let name = T::name();
    let size = core::mem::size_of::<T>();
    let pushed = push_constructed(name, size, lua);
    assert(size == vstd::layout::size_of::<T>() as usize);
    let built = (value, pushed);
    assert(constructed(name@, size, old(lua)@, lua@, built.1));
    built
}

/// The descriptor that a host type tagged `identity` is first published
/// with: the tag, the hook that releases a block, and an empty table of
/// fields and methods.
pub open spec fn fresh_descriptor(identity: Seq<char>) -> TableView {
    TableView {
        entries: owned_metatable(identity).entries.insert(
            index_key(),
            EntryView::Fields(Map::empty()),
        ),
        metatable: None,
    }
}

/// The metadata map that makes a descriptor callable: it holds the hook
/// that builds a value of the type tagged `identity`, and nothing else.
pub open spec fn constructor_metatable(identity: Seq<char>) -> Map<Seq<char>, ValueView> {
    Map::<Seq<char>, ValueView>::empty().insert(
        call_key(),
        ValueView::Function(FunctionView::Constructor(identity)),
    )
}

/// The fields and methods that `table` holds: those of its table of
/// fields, or none where it has no such table.
pub open spec fn fields_of(table: TableView) -> Map<Seq<char>, ValueView> {
    if table.entries.contains_key(index_key()) {
        match table.entries[index_key()] {
            EntryView::Fields(fields) => fields,
            EntryView::Value(_) => Map::empty(),
        }
    } else {
        Map::empty()
    }
}

/// How far the registration of a host type has come.
#[derive(Clone, Copy, Debug, PartialEq, Eq, Structural)]
pub enum RegistrarState {
    /// No table stands under the name of the type.
    Unregistered,
    /// A table stands under the name; calling it builds nothing.
    MetatableEnsured,
    /// A table stands under the name, and calling it builds a value.
    ConstructorInstalled,
}

/// Whether calling `table` builds a value.
pub open spec fn has_constructor(table: TableView) -> bool {
    match table.metatable {
        Some(metatable) => metatable.contains_key(call_key()) && metatable[call_key()] matches ValueView::Function(FunctionView::Constructor(_)),
        None => false,
    }
}

/// The state of the type registered as `name` in the context `lua`.
pub open spec fn registrar_state(lua: LuaView, name: Seq<char>) -> RegistrarState {
    match lua.table_at(name) {
        None => RegistrarState::Unregistered,
        Some(table) => if has_constructor(table) {
            RegistrarState::ConstructorInstalled
        } else {
            RegistrarState::MetatableEnsured
        },
    }
}

/// The context after the descriptor of a type is ensured: as it was where
/// a table stands under `name`; else with a fresh descriptor under `name`,
/// in place of whatever stood there.
pub open spec fn ensured(lua: LuaView, name: Seq<char>, identity: Seq<char>) -> LuaView {
    if lua.table_at(name) is Some {
        lua
    } else {
        lua.publish(name, GlobalView::Table(fresh_descriptor(identity)))
    }
}

/// The context after the table under `name`, if one stands there, is made
/// callable: its metadata map is replaced.
pub open spec fn with_constructor(lua: LuaView, name: Seq<char>, identity: Seq<char>) -> LuaView {
    match lua.table_at(name) {
        Some(table) => lua.publish(
            name,
            GlobalView::Table(
                TableView {
                    entries: table.entries,
                    metatable: Some(constructor_metatable(identity)),
                },
            ),
        ),
        None => lua,
    }
}

/// The context after `value` is filed as the field `field` of the table
/// under `name`, if one stands there: its table of fields is created where
/// it has none, and what was filed under `field` before is replaced.
pub open spec fn defined(
    lua: LuaView,
    name: Seq<char>,
    field: Seq<char>,
    value: ValueView,
) -> LuaView {
    match lua.table_at(name) {
        Some(table) => lua.publish(
            name,
            GlobalView::Table(
                TableView {
                    entries: table.entries.insert(
                        index_key(),
                        EntryView::Fields(fields_of(table).insert(field, value)),
                    ),
                    metatable: table.metatable,
                },
            ),
        ),
        None => lua,
    }
}

/// What ensuring the descriptor comes to: the error where the name cannot
/// be written; the context unchanged where a table stands under the name;
/// the error where the tag cannot be written; else the context with the
/// fresh descriptor.
pub open spec fn ensure_outcome(lua: LuaView, name: Seq<char>, identity: Seq<char>) -> Result<
    LuaView,
    EncodingError,
> {
    match text_check(name) {
        Err(error) => Err(error),
        Ok(_) => if lua.table_at(name) is Some {
            Ok(lua)
        } else {
            match text_check(identity) {
                Err(error) => Err(error),
                Ok(_) => Ok(ensured(lua, name, identity)),
            }
        },
    }
}

/// What installing the constructor comes to: as ensuring the descriptor,
/// and then the table under the name made callable.
pub open spec fn create_outcome(lua: LuaView, name: Seq<char>, identity: Seq<char>) -> Result<
    LuaView,
    EncodingError,
> {
    match ensure_outcome(lua, name, identity) {
        Err(error) => Err(error),
        Ok(ensured) => Ok(with_constructor(ensured, name, identity)),
    }
}

/// What defining a field comes to: the error where the name of the type
/// cannot be written; the context unchanged where no table stands under
/// that name; the error where the name of the field, or else the value,
/// cannot be written; else the context with the field filed.
pub open spec fn def_outcome(
    lua: LuaView,
    name: Seq<char>,
    field: Seq<char>,
    encoding: Result<ValueView, EncodingError>,
) -> Result<LuaView, EncodingError> {
    match text_check(name) {
        Err(error) => Err(error),
        Ok(_) => if lua.table_at(name) is None {
            Ok(lua)
        } else {
            match text_check(field) {
                Err(error) => Err(error),
                Ok(_) => match encoding {
                    Err(error) => Err(error),
                    Ok(value) => Ok(defined(lua, name, field, value)),
                },
            }
        },
    }
}

/// The registrar of one host type: it holds the context in which the type
/// is registered, the name under which its descriptor is published, and
/// its identity, computed once.
pub struct LuaStruct<T> {
    lua: Lua,
    name: String,
    identity: TypeIdentity,
    marker: core::marker::PhantomData<T>,
}

pub struct LuaStructView {
    pub lua: LuaView,
    pub name: Seq<char>,
    pub identity: Seq<char>,
}

impl LuaStructView {
    /// The registrar with `lua` for its context.
    pub open spec fn with_lua(self, lua: LuaView) -> LuaStructView {
        LuaStructView { lua, name: self.name, identity: self.identity }
    }
}

impl<T> View for LuaStruct<T> {
    type V = LuaStructView;

    closed spec fn view(&self) -> LuaStructView {
        LuaStructView { lua: self.lua@, name: self.name@, identity: self.identity@ }
    }
}

/// What a step of the registration does to a registrar, given what the
/// step comes to: the new context and the rest unchanged, or the error and
/// no change at all.
pub open spec fn registered(
    outcome: Result<LuaView, EncodingError>,
    before: LuaStructView,
    after: LuaStructView,
    error: Option<EncodingError>,
) -> bool {
    match outcome {
        Ok(lua) => error is None && after == before.with_lua(lua),
        Err(e) => error == Some(e) && after == before,
    }
}

impl<T: NewStruct + 'static> LuaStruct<T> {
    /// The registrar of a type published as `name` and tagged `identity`.
    pub fn with_identity(lua: Lua, name: &str, identity: TypeIdentity) -> (registrar: Self)
        ensures
            registrar@ == (LuaStructView { lua: lua@, name: name@, identity: identity@ }),
    {
        LuaStruct { lua, name: name.to_owned(), identity, marker: core::marker::PhantomData }
    }

    /// The registrar of `T` in the context `lua`.
    pub fn new(lua: Lua) -> (registrar: Self)
        ensures
            registrar@.lua == lua@,
    {
        let identity = TypeIdentity::of::<T>();
        Self::with_identity(lua, T::name(), identity)
    }

    /// The context, as the registration has left it.
    pub fn lua(&self) -> (lua: &Lua)
        ensures
            lua@ == self@.lua,
    {
        &self.lua
    }

    /// Ends the registration and hands the context back.
    pub fn into_lua(self) -> (lua: Lua)
        ensures
            lua@ == self@.lua,
    {
        self.lua
    }

    /// The name under which the descriptor of the type is published.
    pub fn name(&self) -> (name: &str)
        ensures
            name@ == self@.name,
    {
        self.name.as_str()
    }

    /// The identity of the type.
    pub fn identity(&self) -> (identity: &TypeIdentity)
        ensures
            identity@ == self@.identity,
    {
        &self.identity
    }

    /// How far the registration has come.
    pub fn state(&self) -> (state: RegistrarState)
        ensures
            state == registrar_state(self@.lua, self@.name),
    {
        match self.lua.globals.get(self.name.as_str()) {
            Some(LuaGlobal::Table(table)) => {
                let callable = match &table.metatable {
                    Some(metatable) => match metatable.get("__call") {
                        Some(LuaValue::Function(LuaFunction::Constructor(_))) => true,
                        _ => false,
                    },
                    None => false,
                };
                if callable {
                    RegistrarState::ConstructorInstalled
                } else {
                    RegistrarState::MetatableEnsured
                }
            },
            _ => RegistrarState::Unregistered,
        }
    }

    fn has_table(&self) -> (present: bool)
        ensures
            present == (self@.lua.table_at(self@.name) is Some),
    {
        match self.lua.globals.get(self.name.as_str()) {
            Some(LuaGlobal::Table(_)) => true,
            _ => false,
        }
    }

    fn ensure(&mut self) -> (error: Option<EncodingError>)
        ensures
            registered(
                ensure_outcome(old(self)@.lua, old(self)@.name, old(self)@.identity),
                old(self)@,
                final(self)@,
                error,
            ),
    {
        match check_text(self.name.as_str()) {
            Ok(_) => {},
            Err(error) => {
                return Some(error);
            },
        }
        if self.has_table() {
            return None;
        }
        match check_text(self.identity.fingerprint.as_str()) {
            Ok(_) => {},
            Err(error) => {
                return Some(error);
            },
        }
        let mut descriptor = tagged_table(&self.identity);
        descriptor.entries.set(
            "__gc",
            LuaEntry::Value(LuaValue::Function(LuaFunction::Finalizer(self.identity.duplicate()))),
        );
        descriptor.entries.set("__index", LuaEntry::Fields(Table::new()));
        assert(descriptor@.entries =~= fresh_descriptor(self.identity@).entries);
        self.lua.globals.set(self.name.as_str(), LuaGlobal::Table(descriptor));
        None
    }

    /// Publishes the descriptor of the type, unless a table already stands
    /// under its name: then nothing changes.
    pub fn ensure_matetable(&mut self) -> (done: Result<(), EncodingError>)
        ensures
            registered(
                ensure_outcome(old(self)@.lua, old(self)@.name, old(self)@.identity),
                old(self)@,
                final(self)@,
                match done {
                    Ok(_) => None,
                    Err(error) => Some(error),
                },
            ),
    {
        match self.ensure() {
            None => Ok(()),
            Some(error) => Err(error),
        }
    }

    /// Ensures the descriptor and makes it callable: calling it builds a
    /// value of the type. Doing so again installs the same hook again.
    pub fn create(&mut self) -> (chain: Result<&mut Self, EncodingError>)
        ensures
            match create_outcome(old(self)@.lua, old(self)@.name, old(self)@.identity) {
                Ok(lua) => chain is Ok && chain->Ok_0@ == old(self)@.with_lua(lua) && *final(self)
                    == *final(chain->Ok_0),
                Err(error) => chain == Err::<&mut Self, EncodingError>(error) && final(self)@
                    == old(self)@,
            },
    {
        match self.ensure() {
            None => {},
            Some(error) => {
                return Err(error);
            },
        }
        let ghost ensured_view = self@.lua;
        match self.lua.globals.remove(self.name.as_str()) {
            Some(LuaGlobal::Table(table)) => {
                let mut metatable: Table<LuaValue> = Table::new();
                metatable.set(
                    "__call",
                    LuaValue::Function(LuaFunction::Constructor(self.identity.duplicate())),
                );
                let callable = LuaTable { entries: table.entries, metatable: Some(metatable) };
                self.lua.globals.set(self.name.as_str(), LuaGlobal::Table(callable));
                assert(self@.lua.globals =~= with_constructor(
                    ensured_view,
                    self@.name,
                    self@.identity,
                ).globals);
            },
            Some(other) => {
                self.lua.globals.set(self.name.as_str(), other);
                assert(self@.lua.globals =~= ensured_view.globals);
            },
            None => {
                assert(self@.lua.globals =~= ensured_view.globals);
            },
        }
        Ok(self)
    }

    fn define(&mut self, field: &str, value: LuaValue)
        requires
            old(self)@.lua.table_at(old(self)@.name) is Some,
        ensures
            final(self)@ == old(self)@.with_lua(
                defined(old(self)@.lua, old(self)@.name, field@, value@),
            ),
    {
        let ghost before = self@.lua;
        match self.lua.globals.remove(self.name.as_str()) {
            Some(LuaGlobal::Table(table)) => {
                let mut entries = table.entries;
                let mut fields = match entries.remove("__index") {
                    Some(LuaEntry::Fields(fields)) => fields,
                    _ => Table::new(),
                };
                fields.set(field, value);
                entries.set("__index", LuaEntry::Fields(fields));
                let updated = LuaTable { entries, metatable: table.metatable };
                assert(updated@.entries =~= before.table_at(self@.name)->0.entries.insert(
                    index_key(),
                    EntryView::Fields(
                        fields_of(before.table_at(self@.name)->0).insert(field@, value@),
                    ),
                ));
                self.lua.globals.set(self.name.as_str(), LuaGlobal::Table(updated));
                assert(self@.lua.globals =~= defined(before, self@.name, field@, value@).globals);
            },
            Some(other) => {
                self.lua.globals.set(self.name.as_str(), other);
            },
            None => {},
        }
    }

    /// Files `param` as the field `name` of the type, in place of what the
    /// field held. Where no table stands under the name of the type,
    /// nothing changes and nothing is reported.
    pub fn def<P: LuaPush>(&mut self, name: &str, param: P) -> (chain: Result<
        &mut Self,
        EncodingError,
    >)
        ensures
            match def_outcome(old(self)@.lua, old(self)@.name, name@, param.encoding()) {
                Ok(lua) => chain is Ok && chain->Ok_0@ == old(self)@.with_lua(lua) && *final(self)
                    == *final(chain->Ok_0),
                Err(error) => chain == Err::<&mut Self, EncodingError>(error) && final(self)@
                    == old(self)@,
            },
    {
        match check_text(self.name.as_str()) {
            Ok(_) => {},
            Err(error) => {
                return Err(error);
            },
        }
        if !self.has_table() {
            return Ok(self);
        }
        match check_text(name) {
            Ok(_) => {},
            Err(error) => {
                return Err(error);
            },
        }
        let ghost before = self@.lua;
        match param.push_to_lua(&mut self.lua) {
            Ok(_) => {},
            Err(error) => {
                return Err(error);
            },
        }
        match self.lua.pop() {
            Some(LuaObject::Value(value)) => {
                assert(self@.lua.stack =~= before.stack);
                self.define(name, value);
            },
            _ => {},
        }
        Ok(self)
    }

    /// Files the native function at the address `func` as the method `name`
    /// of the type, as `def` files a value.
    pub fn register(&mut self, name: &str, func: usize) -> (chain: Result<
        &mut Self,
        EncodingError,
    >)
        ensures
            match def_outcome(
                old(self)@.lua,
                old(self)@.name,
                name@,
                Ok(ValueView::Function(FunctionView::Native(func))),
            ) {
                Ok(lua) => chain is Ok && chain->Ok_0@ == old(self)@.with_lua(lua) && *final(self)
                    == *final(chain->Ok_0),
                Err(error) => chain == Err::<&mut Self, EncodingError>(error) && final(self)@
                    == old(self)@,
            },
    {
        match check_text(self.name.as_str()) {
            Ok(_) => {},
            Err(error) => {
                return Err(error);
            },
        }
        if !self.has_table() {
            return Ok(self);
        }
        match check_text(name) {
            Ok(_) => {},
            Err(error) => {
                return Err(error);
            },
        }
        self.define(name, LuaValue::Function(LuaFunction::Native(func)));
        Ok(self)
    }
}

/// Ensuring the descriptor twice is ensuring it once: the second time
/// finds the table of the first and leaves the context as it is, so that
/// one descriptor stands under the name, not two.
pub proof fn lemma_ensure_idempotent(lua: LuaView, name: Seq<char>, identity: Seq<char>)
    ensures
        ensured(ensured(lua, name, identity), name, identity) == ensured(lua, name, identity),
        ensure_outcome(lua, name, identity) matches Ok(once) ==> ensure_outcome(
            once,
            name,
            identity,
        ) == Ok::<LuaView, EncodingError>(once),
        ensured(lua, name, identity).globals.dom() =~= lua.globals.dom().insert(name),
{
    if lua.table_at(name) is Some {
        assert(lua.globals.dom().insert(name) =~= lua.globals.dom());
    }
}

/// Installing the constructor twice is installing it once.
pub proof fn lemma_create_idempotent(lua: LuaView, name: Seq<char>, identity: Seq<char>)
    ensures
        create_outcome(lua, name, identity) matches Ok(once) ==> create_outcome(
            once,
            name,
            identity,
        ) == Ok::<LuaView, EncodingError>(once),
{
    if let Ok(once) = create_outcome(lua, name, identity) {
        let first = ensure_outcome(lua, name, identity)->Ok_0;
        assert(first.table_at(name) is Some);
        assert(once.table_at(name) is Some);
        assert(with_constructor(once, name, identity).globals =~= once.globals);
    }
}

/// Of two definitions of one field the later one stands: the context is
/// as if the earlier had never been made, and the field holds the later
/// value.
pub proof fn lemma_last_definition_wins(
    lua: LuaView,
    name: Seq<char>,
    field: Seq<char>,
    earlier: ValueView,
    later: ValueView,
)
    ensures
        defined(defined(lua, name, field, earlier), name, field, later) == defined(
            lua,
            name,
            field,
            later,
        ),
        lua.table_at(name) is Some ==> fields_of(
            defined(defined(lua, name, field, earlier), name, field, later).table_at(name)->0,
        )[field] == later,
{
    if let Some(table) = lua.table_at(name) {
        let once = defined(lua, name, field, earlier);
        let mid = once.table_at(name)->0;
        assert(fields_of(mid) == fields_of(table).insert(field, earlier));
        assert(fields_of(mid).insert(field, later) =~= fields_of(table).insert(field, later));
        assert(mid.entries.insert(
            index_key(),
            EntryView::Fields(fields_of(mid).insert(field, later)),
        ) =~= table.entries.insert(
            index_key(),
            EntryView::Fields(fields_of(table).insert(field, later)),
        ));
        assert(defined(once, name, field, later).globals =~= defined(
            lua,
            name,
            field,
            later,
        ).globals);
    }
}

/// The registration moves forward only, and only as far as it is asked to:
/// ensuring the descriptor takes an unregistered type to the first state
/// and leaves every other where it is; installing the constructor takes
/// each state to the last; defining a field leaves the state as it is.
pub proof fn lemma_registrar_transitions(
    lua: LuaView,
    name: Seq<char>,
    identity: Seq<char>,
    field: Seq<char>,
    value: ValueView,
)
    ensures
        registrar_state(ensured(lua, name, identity), name) == (if registrar_state(lua, name)
            == RegistrarState::Unregistered {
            RegistrarState::MetatableEnsured
        } else {
            registrar_state(lua, name)
        }),
        registrar_state(with_constructor(ensured(lua, name, identity), name, identity), name)
            == RegistrarState::ConstructorInstalled,
        registrar_state(defined(lua, name, field, value), name) == registrar_state(lua, name),
{
}

/// A value built by the constructor of a type that was registered from
/// scratch reads back as that type: its block finds the published
/// descriptor, which holds the tag of the type, whatever fields were
/// defined since.
pub proof fn lemma_constructed_reads_back(
    lua: LuaView,
    name: Seq<char>,
    identity: Seq<char>,
    field: Seq<char>,
    value: ValueView,
    size: usize,
    slot: SlotView,
)
    requires
        registrar_state(lua, name) == RegistrarState::Unregistered,
        reports(
            defined(
                with_constructor(ensured(lua, name, identity), name, identity),
                name,
                field,
                value,
            ).globals,
            slot,
            constructed_block(name, size),
        ),
    ensures
        read_as(slot, identity) == slot.block,
        slot.block is Some,
        fields_of(slot.metatable->0)[field] == value,
{
    lemma_typeid_key_apart();
}

} // verus!
