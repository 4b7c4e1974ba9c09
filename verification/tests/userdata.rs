use td_rlua::lua::{
    Lua, LuaEntry, LuaFunction, LuaGlobal, LuaObject, LuaSlot, LuaTable, LuaType, LuaUserdata,
    LuaValue, MetatableRef, TypeIdentity,
};
use td_rlua::table::Table;
use td_rlua::text::EncodingError;
use td_rlua::userdata::{
    constructor_impl, destructor_impl, hook_upvalue_index, push_constructed, push_lightuserdata,
    push_tagged_lightuserdata, push_tagged_userdata, push_userdata, read_tagged_userdata,
    read_userdata, LuaStruct, NewStruct, RegistrarState,
};
use td_rlua::values::{LuaNumber, LuaPush, LuaRead};

struct Counter {
    count: i32,
}

impl Counter {
    fn increment(&mut self) {
        self.count += 1;
    }
}

impl NewStruct for Counter {
    fn new() -> Counter {
        Counter { count: 0 }
    }

    fn name() -> &'static str {
        "Counter"
    }
}

struct Unnamable;

impl NewStruct for Unnamable {
    fn new() -> Unnamable {
        Unnamable
    }

    fn name() -> &'static str {
        "Un\0namable"
    }
}

struct Nothing;

fn keep(table: LuaTable) -> LuaTable {
    table
}

fn block_slot(address: usize, metatable: Option<LuaTable>) -> LuaSlot {
    LuaSlot {
        kind: LuaType::Userdata,
        integer: None,
        number: None,
        boolean: true,
        text: None,
        block: Some(address),
        metatable,
    }
}

/// The slot that an interpreter reports of the block on top of the stack
/// of `lua`, once it has given it the address `address`.
fn pushed_slot(lua: &mut Lua, address: usize) -> LuaSlot {
    match lua.pop() {
        Some(LuaObject::Userdata(LuaUserdata { metatable: MetatableRef::Own(table), .. })) => {
            block_slot(address, Some(table))
        }
        Some(LuaObject::Userdata(LuaUserdata { metatable: MetatableRef::Global(name), .. })) => {
            match lua.globals.remove(&name) {
                Some(LuaGlobal::Table(table)) => block_slot(address, Some(table)),
                _ => block_slot(address, None),
            }
        }
        Some(LuaObject::LightUserdata(light)) => {
            let mut slot = block_slot(light.address, Some(light.metatable));
            slot.kind = LuaType::LightUserdata;
            if light.address == 0 {
                slot.block = None;
            }
            slot
        }
        other => panic!("not a block: {:?}", other),
    }
}

fn field_of<'a>(table: &'a LuaTable, field: &str) -> Option<&'a LuaValue> {
    match table.entries.get("__index") {
        Some(LuaEntry::Fields(fields)) => fields.get(field),
        _ => None,
    }
}

fn descriptor<'a>(lua: &'a Lua, name: &str) -> &'a LuaTable {
    match lua.globals.get(name) {
        Some(LuaGlobal::Table(table)) => table,
        other => panic!("no table under {}: {:?}", name, other),
    }
}

#[test]
fn identity_is_one_for_one_type_and_two_for_two() {
    assert_eq!(TypeIdentity::of::<u32>(), TypeIdentity::of::<u32>());
    assert_ne!(TypeIdentity::of::<u32>(), TypeIdentity::of::<i32>());
    assert_ne!(TypeIdentity::of::<Counter>(), TypeIdentity::of::<Nothing>());
    assert!(TypeIdentity::of::<Counter>().matches(&TypeIdentity::of::<Counter>()));
    assert!(!TypeIdentity::of::<Counter>().matches(&TypeIdentity::of::<String>()));
    assert!(!TypeIdentity::of::<Counter>().fingerprint.is_empty());
    let made = TypeIdentity::new("tag");
    assert_eq!(made.fingerprint, "tag");
    assert_eq!(made.duplicate(), made);
}

#[test]
fn owned_block_starts_with_tag_and_finalizer() {
    let mut lua = Lua::new();
    let identity = TypeIdentity::new("host::Thing");
    assert_eq!(push_tagged_userdata(&identity, 24, &mut lua, keep), Ok(1));
    assert_eq!(lua.stack.len(), 1);
    match &lua.stack[0] {
        LuaObject::Userdata(block) => {
            assert_eq!(block.size, 24);
            assert!(block.live);
            match &block.metatable {
                MetatableRef::Own(table) => {
                    assert_eq!(table.entries.len(), 2);
                    assert_eq!(
                        table.entries.get("__typeid"),
                        Some(&LuaEntry::Value(LuaValue::Text(String::from("host::Thing"))))
                    );
                    assert_eq!(
                        table.entries.get("__gc"),
                        Some(&LuaEntry::Value(LuaValue::Function(LuaFunction::Finalizer(
                            TypeIdentity::new("host::Thing")
                        ))))
                    );
                    assert_eq!(table.metatable, None);
                }
                other => panic!("not its own map: {:?}", other),
            }
        }
        other => panic!("not an owned block: {:?}", other),
    }
}

#[test]
fn builder_completes_the_map() {
    let mut lua = Lua::new();
    let identity = TypeIdentity::new("host::Thing");
    let pushed = push_tagged_userdata(&identity, 8, &mut lua, |mut table: LuaTable| {
        table.entries.set("label", LuaEntry::Value(LuaValue::Integer(5)));
        table
    });
    assert_eq!(pushed, Ok(1));
    let slot = pushed_slot(&mut lua, 4096);
    let table = slot.metatable.as_ref().unwrap();
    assert_eq!(table.entries.len(), 3);
    assert_eq!(table.entries.get("label"), Some(&LuaEntry::Value(LuaValue::Integer(5))));
    assert_eq!(read_tagged_userdata(&slot, &identity), Some(4096));
}

#[test]
fn reference_block_has_no_finalizer() {
    let mut lua = Lua::new();
    let identity = TypeIdentity::new("host::Thing");
    assert_eq!(push_tagged_lightuserdata(&identity, 0x1000, &mut lua, keep), Ok(1));
    assert_eq!(lua.stack.len(), 1);
    match &lua.stack[0] {
        LuaObject::LightUserdata(light) => {
            assert_eq!(light.address, 0x1000);
            assert_eq!(light.metatable.entries.len(), 1);
            assert!(!light.metatable.entries.contains_key("__gc"));
            assert_eq!(
                light.metatable.entries.get("__typeid"),
                Some(&LuaEntry::Value(LuaValue::Text(String::from("host::Thing"))))
            );
        }
        other => panic!("not a reference: {:?}", other),
    }
    let slot = pushed_slot(&mut lua, 0);
    assert_eq!(read_tagged_userdata(&slot, &identity), Some(0x1000));
    assert_eq!(read_tagged_userdata(&slot, &TypeIdentity::new("host::Other")), None);
}

#[test]
fn tag_with_a_zero_byte_is_rejected() {
    let mut lua = Lua::new();
    let identity = TypeIdentity::new("bad\0tag");
    assert_eq!(
        push_tagged_userdata(&identity, 8, &mut lua, keep),
        Err(EncodingError { position: 3 })
    );
    assert_eq!(
        push_tagged_lightuserdata(&identity, 8, &mut lua, keep),
        Err(EncodingError { position: 3 })
    );
    assert_eq!(lua.stack.len(), 0);
}

#[test]
fn block_reads_back_as_its_own_type_only() {
    let mut lua = Lua::new();
    assert_eq!(push_userdata(&7u32, &mut lua, keep), Ok(1));
    let slot = pushed_slot(&mut lua, 512);
    assert_eq!(read_userdata::<u32>(&slot), Some(512));
    assert_eq!(read_userdata::<i32>(&slot), None);
    assert_eq!(read_userdata::<Counter>(&slot), None);
    assert_eq!(read_userdata::<u64>(&slot), None);

    assert_eq!(push_userdata(&Counter { count: 1 }, &mut lua, keep), Ok(1));
    let slot = pushed_slot(&mut lua, 1024);
    assert_eq!(read_userdata::<Counter>(&slot), Some(1024));
    assert_eq!(read_userdata::<u32>(&slot), None);
    assert_eq!(read_userdata::<Nothing>(&slot), None);
}

#[test]
fn owned_block_has_the_size_of_its_type() {
    let mut lua = Lua::new();
    push_userdata(&7u64, &mut lua, keep).unwrap();
    push_userdata(&Counter { count: 0 }, &mut lua, keep).unwrap();
    push_userdata(&[0u8; 13], &mut lua, keep).unwrap();
    let sizes: Vec<usize> = lua
        .stack
        .iter()
        .map(|object| match object {
            LuaObject::Userdata(block) => block.size,
            other => panic!("not an owned block: {:?}", other),
        })
        .collect();
    assert_eq!(sizes, vec![8, 4, 13]);
}

#[test]
fn block_of_no_bytes_is_a_block() {
    let mut lua = Lua::new();
    assert_eq!(push_userdata(&Nothing, &mut lua, keep), Ok(1));
    assert_eq!(lua.stack.len(), 1);
    match &lua.stack[0] {
        LuaObject::Userdata(block) => {
            assert_eq!(block.size, 0);
            assert!(block.live);
        }
        other => panic!("not an owned block: {:?}", other),
    }
    assert_ne!(lua.stack[0], LuaObject::Value(LuaValue::Nil));
    let slot = pushed_slot(&mut lua, 64);
    assert_eq!(read_userdata::<Nothing>(&slot), Some(64));
    assert_eq!(read_userdata::<()>(&slot), None);
}

#[test]
fn reference_reads_back_as_its_own_type_only() {
    let mut lua = Lua::new();
    assert_eq!(push_lightuserdata::<Counter, _>(0x2000, &mut lua, keep), Ok(1));
    let slot = pushed_slot(&mut lua, 0);
    assert_eq!(read_userdata::<Counter>(&slot), Some(0x2000));
    assert_eq!(read_userdata::<u32>(&slot), None);
}

#[test]
fn read_refuses_what_is_no_tagged_block() {
    let identity = TypeIdentity::new("host::Thing");
    // No block in the slot.
    let mut none = block_slot(1, Some(LuaTable::new()));
    none.block = None;
    assert_eq!(read_tagged_userdata(&none, &identity), None);
    // No metadata map.
    assert_eq!(read_tagged_userdata(&block_slot(1, None), &identity), None);
    // A map without a tag.
    assert_eq!(read_tagged_userdata(&block_slot(1, Some(LuaTable::new())), &identity), None);
    // A tag that is no text.
    let mut table = LuaTable::new();
    table.entries.set("__typeid", LuaEntry::Value(LuaValue::Integer(3)));
    assert_eq!(read_tagged_userdata(&block_slot(1, Some(table)), &identity), None);
    // A tag that is a prefix of the one expected.
    let mut table = LuaTable::new();
    table.entries.set("__typeid", LuaEntry::Value(LuaValue::Text(String::from("host::Thin"))));
    assert_eq!(read_tagged_userdata(&block_slot(1, Some(table)), &identity), None);
    // The tag itself.
    let mut table = LuaTable::new();
    table.entries.set("__typeid", LuaEntry::Value(LuaValue::Text(String::from("host::Thing"))));
    assert_eq!(read_tagged_userdata(&block_slot(9, Some(table)), &identity), Some(9));
}

#[test]
fn builder_that_overwrites_the_tag_changes_the_type() {
    let mut lua = Lua::new();
    let identity = TypeIdentity::new("host::Thing");
    push_tagged_userdata(&identity, 8, &mut lua, |mut table: LuaTable| {
        table.entries.set("__typeid", LuaEntry::Value(LuaValue::Text(String::from("host::Other"))));
        table
    })
    .unwrap();
    let slot = pushed_slot(&mut lua, 32);
    assert_eq!(read_tagged_userdata(&slot, &identity), None);
    assert_eq!(read_tagged_userdata(&slot, &TypeIdentity::new("host::Other")), Some(32));
}

#[test]
fn finalizer_tears_down_once() {
    let mut lua = Lua::new();
    push_userdata(&Counter { count: 9 }, &mut lua, keep).unwrap();
    let mut block = match lua.pop() {
        Some(LuaObject::Userdata(block)) => block,
        other => panic!("not an owned block: {:?}", other),
    };
    let mut torn_down = 0;
    for _ in 0..2 {
        if block.live {
            torn_down += 1;
        }
        assert_eq!(destructor_impl(&mut block), 0);
        assert!(!block.live);
    }
    assert_eq!(torn_down, 1);
    assert_eq!(block.size, 4);
}

#[test]
fn hook_finds_its_binding_at_the_first_upvalue() {
    assert_eq!(hook_upvalue_index(), -1001001);
    assert_eq!(hook_upvalue_index(), td_clua::lua_upvalueindex(1));
    assert_eq!(hook_upvalue_index(), td_clua::LUA_REGISTRYINDEX - 1);
}

#[test]
fn constructor_pushes_a_block_under_the_published_descriptor() {
    let mut lua = Lua::new();
    let (value, pushed) = constructor_impl::<Counter>(&mut lua);
    assert_eq!(pushed, Ok(1));
    assert_eq!(value.count, 0);
    assert_eq!(
        lua.stack,
        vec![LuaObject::Userdata(LuaUserdata {
            size: 4,
            live: true,
            metatable: MetatableRef::Global(String::from("Counter")),
        })]
    );
    assert_eq!(push_constructed("Other", 16, &mut lua), Ok(1));
    assert_eq!(
        lua.stack[1],
        LuaObject::Userdata(LuaUserdata {
            size: 16,
            live: true,
            metatable: MetatableRef::Global(String::from("Other")),
        })
    );
}

#[test]
fn constructor_rejects_a_name_with_a_zero_byte() {
    let mut lua = Lua::new();
    let (_, pushed) = constructor_impl::<Unnamable>(&mut lua);
    assert_eq!(pushed, Err(EncodingError { position: 2 }));
    assert_eq!(lua.stack.len(), 0);
    assert_eq!(push_constructed("\0", 1, &mut lua), Err(EncodingError { position: 0 }));
}

#[test]
fn registrar_starts_unregistered() {
    let registrar = LuaStruct::<Counter>::new(Lua::new());
    assert_eq!(registrar.name(), "Counter");
    assert_eq!(*registrar.identity(), TypeIdentity::of::<Counter>());
    assert_eq!(registrar.state(), RegistrarState::Unregistered);
    assert_eq!(registrar.lua().globals.len(), 0);
}

#[test]
fn ensure_publishes_one_descriptor() {
    let mut registrar = LuaStruct::<Counter>::new(Lua::new());
    assert_eq!(registrar.ensure_matetable(), Ok(()));
    assert_eq!(registrar.state(), RegistrarState::MetatableEnsured);
    assert_eq!(registrar.lua().globals.len(), 1);
    let table = descriptor(registrar.lua(), "Counter");
    assert_eq!(table.entries.len(), 3);
    assert_eq!(
        table.entries.get("__typeid"),
        Some(&LuaEntry::Value(LuaValue::Text(TypeIdentity::of::<Counter>().fingerprint)))
    );
    assert_eq!(
        table.entries.get("__gc"),
        Some(&LuaEntry::Value(LuaValue::Function(LuaFunction::Finalizer(
            TypeIdentity::of::<Counter>()
        ))))
    );
    assert_eq!(table.entries.get("__index"), Some(&LuaEntry::Fields(Table::new())));
    assert_eq!(table.metatable, None);
}

#[test]
fn ensure_twice_is_ensure_once() {
    let mut registrar = LuaStruct::<Counter>::new(Lua::new());
    registrar.ensure_matetable().unwrap();
    registrar.def("kept", 1i32).unwrap();
    assert_eq!(registrar.ensure_matetable(), Ok(()));
    assert_eq!(registrar.lua().globals.len(), 1);
    assert_eq!(registrar.state(), RegistrarState::MetatableEnsured);
    let table = descriptor(registrar.lua(), "Counter");
    assert_eq!(table.entries.len(), 3);
    assert_eq!(field_of(table, "kept"), Some(&LuaValue::Integer(1)));
}

#[test]
fn ensure_leaves_a_table_that_is_there() {
    let mut lua = Lua::new();
    let mut foreign = LuaTable::new();
    foreign.entries.set("mine", LuaEntry::Value(LuaValue::Boolean(true)));
    lua.globals.set("Counter", LuaGlobal::Table(foreign));
    let mut registrar = LuaStruct::<Counter>::new(lua);
    assert_eq!(registrar.state(), RegistrarState::MetatableEnsured);
    assert_eq!(registrar.ensure_matetable(), Ok(()));
    let table = descriptor(registrar.lua(), "Counter");
    assert_eq!(table.entries.len(), 1);
    assert_eq!(table.entries.get("mine"), Some(&LuaEntry::Value(LuaValue::Boolean(true))));
    assert!(!table.entries.contains_key("__typeid"));
}

#[test]
fn ensure_replaces_what_is_no_table() {
    let mut lua = Lua::new();
    lua.globals.set("Counter", LuaGlobal::Value(LuaValue::Integer(3)));
    lua.globals.set("other", LuaGlobal::Value(LuaValue::Boolean(false)));
    let mut registrar = LuaStruct::<Counter>::new(lua);
    assert_eq!(registrar.state(), RegistrarState::Unregistered);
    assert_eq!(registrar.ensure_matetable(), Ok(()));
    assert_eq!(registrar.state(), RegistrarState::MetatableEnsured);
    assert_eq!(registrar.lua().globals.len(), 2);
    assert_eq!(descriptor(registrar.lua(), "Counter").entries.len(), 3);
    assert_eq!(
        registrar.lua().globals.get("other"),
        Some(&LuaGlobal::Value(LuaValue::Boolean(false)))
    );
}

#[test]
fn create_installs_the_constructor() {
    let mut registrar = LuaStruct::<Counter>::new(Lua::new());
    assert!(registrar.create().is_ok());
    assert_eq!(registrar.state(), RegistrarState::ConstructorInstalled);
    let table = descriptor(registrar.lua(), "Counter");
    assert_eq!(table.entries.len(), 3);
    let metatable = table.metatable.as_ref().expect("the descriptor is callable");
    assert_eq!(metatable.len(), 1);
    assert_eq!(
        metatable.get("__call"),
        Some(&LuaValue::Function(LuaFunction::Constructor(TypeIdentity::of::<Counter>())))
    );
}

#[test]
fn create_twice_is_create_once() {
    let mut registrar = LuaStruct::<Counter>::new(Lua::new());
    registrar.create().unwrap().def("kept", true).unwrap();
    assert!(registrar.create().is_ok());
    assert_eq!(registrar.state(), RegistrarState::ConstructorInstalled);
    assert_eq!(registrar.lua().globals.len(), 1);
    let table = descriptor(registrar.lua(), "Counter");
    assert_eq!(table.metatable.as_ref().unwrap().len(), 1);
    assert_eq!(field_of(table, "kept"), Some(&LuaValue::Boolean(true)));
}

#[test]
fn later_definition_of_a_field_wins() {
    let mut registrar = LuaStruct::<Counter>::new(Lua::new());
    registrar.ensure_matetable().unwrap();
    registrar.def("x", 1i32).unwrap().def("x", 2i32).unwrap();
    let table = descriptor(registrar.lua(), "Counter");
    assert_eq!(field_of(table, "x"), Some(&LuaValue::Integer(2)));
    match table.entries.get("__index") {
        Some(LuaEntry::Fields(fields)) => assert_eq!(fields.len(), 1),
        other => panic!("no table of fields: {:?}", other),
    }
}

#[test]
fn fields_of_every_kind() {
    let mut registrar = LuaStruct::<Counter>::new(Lua::new());
    registrar
        .create()
        .unwrap()
        .def("small", 7u8)
        .unwrap()
        .def("label", "counter")
        .unwrap()
        .def("owned", String::from("text"))
        .unwrap()
        .def("flag", false)
        .unwrap()
        .def("nothing", ())
        .unwrap()
        .def("ratio", LuaNumber { bits: 0.5f64.to_bits() })
        .unwrap()
        .register("increment", 0xbeef)
        .unwrap();
    assert_eq!(registrar.state(), RegistrarState::ConstructorInstalled);
    let lua = registrar.into_lua();
    assert_eq!(lua.stack.len(), 0);
    let table = descriptor(&lua, "Counter");
    assert_eq!(field_of(table, "small"), Some(&LuaValue::Integer(7)));
    assert_eq!(field_of(table, "label"), Some(&LuaValue::Text(String::from("counter"))));
    assert_eq!(field_of(table, "owned"), Some(&LuaValue::Text(String::from("text"))));
    assert_eq!(field_of(table, "flag"), Some(&LuaValue::Boolean(false)));
    assert_eq!(field_of(table, "nothing"), Some(&LuaValue::Nil));
    assert_eq!(field_of(table, "ratio"), Some(&LuaValue::Number(0.5f64.to_bits())));
    assert_eq!(
        field_of(table, "increment"),
        Some(&LuaValue::Function(LuaFunction::Native(0xbeef)))
    );
    assert_eq!(field_of(table, "absent"), None);
}

#[test]
fn definition_without_a_descriptor_does_nothing() {
    let mut registrar = LuaStruct::<Counter>::new(Lua::new());
    assert!(registrar.def("x", 1i32).is_ok());
    assert!(registrar.register("f", 1).is_ok());
    // Not even a field that could not be written is reported.
    assert!(registrar.def("bad\0name", 1i32).is_ok());
    assert!(registrar.def("x", "bad\0value").is_ok());
    assert_eq!(registrar.state(), RegistrarState::Unregistered);
    assert_eq!(registrar.lua().globals.len(), 0);

    let mut lua = Lua::new();
    lua.globals.set("Counter", LuaGlobal::Value(LuaValue::Integer(3)));
    let mut registrar = LuaStruct::<Counter>::new(lua);
    assert!(registrar.def("x", 1i32).is_ok());
    assert_eq!(
        registrar.lua().globals.get("Counter"),
        Some(&LuaGlobal::Value(LuaValue::Integer(3)))
    );
}

#[test]
fn definition_creates_the_table_of_fields() {
    let mut lua = Lua::new();
    let mut foreign = LuaTable::new();
    foreign.entries.set("__index", LuaEntry::Value(LuaValue::Integer(0)));
    lua.globals.set("Counter", LuaGlobal::Table(foreign));
    let mut registrar = LuaStruct::<Counter>::new(lua);
    registrar.def("x", 4i32).unwrap();
    let table = descriptor(registrar.lua(), "Counter");
    assert_eq!(table.entries.len(), 1);
    assert_eq!(field_of(table, "x"), Some(&LuaValue::Integer(4)));
}

#[test]
fn definition_that_cannot_be_written_changes_nothing() {
    let mut registrar = LuaStruct::<Counter>::new(Lua::new());
    registrar.ensure_matetable().unwrap();
    assert_eq!(registrar.def("a\0", 1i32).err(), Some(EncodingError { position: 1 }));
    assert_eq!(registrar.def("a", "v\0").err(), Some(EncodingError { position: 1 }));
    assert_eq!(registrar.def("\0a", "v\0").err(), Some(EncodingError { position: 0 }));
    assert_eq!(registrar.register("\0", 5).err(), Some(EncodingError { position: 0 }));
    let lua = registrar.into_lua();
    assert_eq!(lua.stack.len(), 0);
    let table = descriptor(&lua, "Counter");
    assert_eq!(table.entries.get("__index"), Some(&LuaEntry::Fields(Table::new())));
}

#[test]
fn registration_under_a_name_with_a_zero_byte_is_rejected() {
    let mut registrar = LuaStruct::<Unnamable>::new(Lua::new());
    assert_eq!(registrar.ensure_matetable(), Err(EncodingError { position: 2 }));
    assert_eq!(registrar.create().err(), Some(EncodingError { position: 2 }));
    assert_eq!(registrar.def("x", 1i32).err(), Some(EncodingError { position: 2 }));
    assert_eq!(registrar.register("f", 1).err(), Some(EncodingError { position: 2 }));
    assert_eq!(registrar.lua().globals.len(), 0);
}

#[test]
fn registration_under_a_tag_with_a_zero_byte_is_rejected() {
    let identity = TypeIdentity::new("t\0");
    let mut registrar = LuaStruct::<Counter>::with_identity(Lua::new(), "Counter", identity);
    assert_eq!(registrar.ensure_matetable(), Err(EncodingError { position: 1 }));
    assert_eq!(registrar.create().err(), Some(EncodingError { position: 1 }));
    assert_eq!(registrar.lua().globals.len(), 0);
    // Where the table is there already the tag is not written.
    let mut lua = Lua::new();
    lua.globals.set("Counter", LuaGlobal::Table(LuaTable::new()));
    let mut registrar =
        LuaStruct::<Counter>::with_identity(lua, "Counter", TypeIdentity::new("t\0"));
    assert_eq!(registrar.ensure_matetable(), Ok(()));
}

#[test]
fn counter_is_built_incremented_and_read() {
    let increment_address = 0x1234;
    let mut registrar = LuaStruct::<Counter>::new(Lua::new());
    registrar.create().unwrap().register("increment", increment_address).unwrap();
    let mut lua = registrar.into_lua();

    // The script calls the descriptor: its metadata map holds the constructor.
    let callable = descriptor(&lua, "Counter").metatable.as_ref().unwrap().get("__call");
    assert_eq!(
        callable,
        Some(&LuaValue::Function(LuaFunction::Constructor(TypeIdentity::of::<Counter>())))
    );
    let (value, pushed) = constructor_impl::<Counter>(&mut lua);
    assert_eq!(pushed, Ok(1));
    // The interpreter's storage, one value at one address.
    let address = 0x8000;
    let mut storage: Vec<(usize, Counter)> = vec![(address, value)];
    let slot = pushed_slot(&mut lua, address);

    // The script calls the method three times: the interpreter finds it
    // among the fields, and the host reads the block as a counter.
    for _ in 0..3 {
        let method = field_of(slot.metatable.as_ref().unwrap(), "increment");
        assert_eq!(method, Some(&LuaValue::Function(LuaFunction::Native(increment_address))));
        let block = read_userdata::<Counter>(&slot).expect("the block is a counter");
        let counter = storage.iter_mut().find(|(at, _)| *at == block).unwrap();
        counter.1.increment();
    }

    let block = read_userdata::<Counter>(&slot).expect("the block is a counter");
    let counter = storage.iter().find(|(at, _)| *at == block).unwrap();
    let mut read = Lua::new();
    counter.1.count.push_to_lua(&mut read).unwrap();
    let count = match read.pop() {
        Some(LuaObject::Value(LuaValue::Integer(count))) => count,
        other => panic!("not an integer: {:?}", other),
    };
    let mut field = block_slot(0, None);
    field.kind = LuaType::Number;
    field.block = None;
    field.integer = Some(count);
    assert_eq!(i32::lua_read(&field), Some(3));
    assert_eq!(read_userdata::<u32>(&slot), None);
}

#[test]
fn table_files_one_value_under_one_key() {
    let mut table: Table<LuaValue> = Table::new();
    assert_eq!(table.len(), 0);
    assert_eq!(table.get("a"), None);
    assert!(!table.contains_key("a"));
    table.set("a", LuaValue::Integer(1));
    table.set("b", LuaValue::Integer(2));
    table.set("a", LuaValue::Integer(3));
    assert_eq!(table.len(), 2);
    assert_eq!(table.get("a"), Some(&LuaValue::Integer(3)));
    assert_eq!(table.get("b"), Some(&LuaValue::Integer(2)));
    assert!(table.contains_key("b"));
    assert_eq!(table.remove("a"), Some(LuaValue::Integer(3)));
    assert_eq!(table.remove("a"), None);
    assert_eq!(table.len(), 1);
    assert_eq!(table.get("a"), None);
    assert_eq!(table.get("b"), Some(&LuaValue::Integer(2)));
}

#[test]
fn table_lists_its_keys_once() {
    let mut table: Table<LuaValue> = Table::new();
    assert_eq!(table.keys(), Vec::<String>::new());
    table.set("b", LuaValue::Nil);
    table.set("a", LuaValue::Nil);
    table.set("b", LuaValue::Boolean(true));
    let mut keys = table.keys();
    keys.sort();
    assert_eq!(keys, vec![String::from("a"), String::from("b")]);
}

#[test]
fn stack_gives_back_what_was_pushed_last() {
    let mut lua = Lua::new();
    assert_eq!(lua.pop(), None);
    lua.push(LuaObject::Value(LuaValue::Integer(1)));
    lua.push(LuaObject::Value(LuaValue::Integer(2)));
    assert_eq!(lua.pop(), Some(LuaObject::Value(LuaValue::Integer(2))));
    assert_eq!(lua.pop(), Some(LuaObject::Value(LuaValue::Integer(1))));
    assert_eq!(lua.pop(), None);
    assert_eq!(lua.globals.len(), 0);
}
