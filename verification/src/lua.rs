//! What this library holds of an interpreter: the values it writes to it, the
//! tables it files them in, and what the interpreter reports of a stack slot.

use vstd::prelude::*;
use vstd::utf8::encode_utf8;

use crate::table::Table;

verus! {

/// The dynamic type of a stack slot.
#[derive(Clone, Copy, Debug, PartialEq, Eq, Structural)]
pub enum LuaType {
    /// No slot at all under the index.
    Absent,
    Nil,
    Boolean,
    LightUserdata,
    Number,
    Text,
    Table,
    Function,
    Userdata,
    Thread,
}

/// A fingerprint of a host type: equal for one type, different for two.
#[derive(Debug, PartialEq, Eq)]
pub struct TypeIdentity {
    pub fingerprint: String,
}

impl View for TypeIdentity {
    type V = Seq<char>;

    open spec fn view(&self) -> Seq<char> {
        self.fingerprint@
    }
}

/// A callable value. The two hooks are bound to the host type they act
/// for; a native function is known by its address alone.
#[derive(Debug, PartialEq, Eq)]
pub enum LuaFunction {
    /// Releases a block that holds a value of the type.
    Finalizer(TypeIdentity),
    /// Builds a value of the type and hands it to the interpreter.
    Constructor(TypeIdentity),
    /// A function of the host, called by the interpreter's own convention.
    Native(usize),
}

pub enum FunctionView {
    Finalizer(Seq<char>),
    Constructor(Seq<char>),
    Native(usize),
}

impl View for LuaFunction {
    type V = FunctionView;

    open spec fn view(&self) -> FunctionView {
        match self {
            LuaFunction::Finalizer(identity) => FunctionView::Finalizer(identity@),
            LuaFunction::Constructor(identity) => FunctionView::Constructor(identity@),
            LuaFunction::Native(address) => FunctionView::Native(*address),
        }
    }
}

/// A value that fits one stack slot and one field of a table.
#[derive(Debug, PartialEq, Eq)]
pub enum LuaValue {
    Nil,
    Boolean(bool),
    Integer(i64),
    /// A double, by its bit pattern.
    Number(u64),
    Text(String),
    Function(LuaFunction),
}

pub enum ValueView {
    Nil,
    Boolean(bool),
    Integer(i64),
    Number(u64),
    Text(Seq<char>),
    Function(FunctionView),
}

impl View for LuaValue {
    type V = ValueView;

    open spec fn view(&self) -> ValueView {
        match self {
            LuaValue::Nil => ValueView::Nil,
            LuaValue::Boolean(b) => ValueView::Boolean(*b),
            LuaValue::Integer(i) => ValueView::Integer(*i),
            LuaValue::Number(bits) => ValueView::Number(*bits),
            LuaValue::Text(text) => ValueView::Text(text@),
            LuaValue::Function(function) => ValueView::Function(function@),
        }
    }
}

/// What a metadata map or a descriptor files under one key: a value, or a
/// table of fields and methods.
#[derive(Debug, PartialEq, Eq)]
pub enum LuaEntry {
    Value(LuaValue),
    Fields(Table<LuaValue>),
}

pub enum EntryView {
    Value(ValueView),
    Fields(Map<Seq<char>, ValueView>),
}

impl View for LuaEntry {
    type V = EntryView;

    open spec fn view(&self) -> EntryView {
        match self {
            LuaEntry::Value(value) => EntryView::Value(value@),
            LuaEntry::Fields(fields) => EntryView::Fields(fields@),
        }
    }
}

/// A metadata map: the table that the interpreter consults for the hooks,
/// the tag and the fields of the value it is attached to. It may have a
/// metadata map of its own, which holds values only.
#[derive(Debug, PartialEq, Eq)]
pub struct LuaTable {
    pub entries: Table<LuaEntry>,
    pub metatable: Option<Table<LuaValue>>,
}

pub struct TableView {
    pub entries: Map<Seq<char>, EntryView>,
    pub metatable: Option<Map<Seq<char>, ValueView>>,
}

impl View for LuaTable {
    type V = TableView;

    open spec fn view(&self) -> TableView {
        TableView {
            entries: self.entries@,
            metatable: match self.metatable {
                Some(table) => Some(table@),
                None => None,
            },
        }
    }
}

impl LuaTable {
    /// A table with no entry and no metadata map.
    pub fn new() -> (table: LuaTable)
        ensures
            table@ == (TableView { entries: Map::empty(), metatable: None }),
    {
        LuaTable { entries: Table::new(), metatable: None }
    }
}

/// Where the metadata map of a block is found: with the block, or in the
/// global namespace, under a name, shared by all that name it.
#[derive(Debug, PartialEq, Eq)]
pub enum MetatableRef {
    Own(LuaTable),
    Global(String),
}

pub enum MetatableRefView {
    Own(TableView),
    Global(Seq<char>),
}

impl View for MetatableRef {
    type V = MetatableRefView;

    open spec fn view(&self) -> MetatableRefView {
        match self {
            MetatableRef::Own(table) => MetatableRefView::Own(table@),
            MetatableRef::Global(name) => MetatableRefView::Global(name@),
        }
    }
}

/// A block of the interpreter's own storage that holds a host value.
#[derive(Debug, PartialEq, Eq)]
pub struct LuaUserdata {
    /// The size of the block, in bytes.
    pub size: usize,
    /// Whether the block still holds its value. Once released it holds a
    /// placeholder, and stays so.
    pub live: bool,
    pub metatable: MetatableRef,
}

pub struct UserdataView {
    pub size: usize,
    pub live: bool,
    pub metatable: MetatableRefView,
}

impl View for LuaUserdata {
    type V = UserdataView;

    open spec fn view(&self) -> UserdataView {
        UserdataView { size: self.size, live: self.live, metatable: self.metatable@ }
    }
}

/// The address of a value that the host keeps, with its metadata map.
#[derive(Debug, PartialEq, Eq)]
pub struct LuaLightUserdata {
    pub address: usize,
    pub metatable: LuaTable,
}

pub struct LightUserdataView {
    pub address: usize,
    pub metatable: TableView,
}

impl View for LuaLightUserdata {
    type V = LightUserdataView;

    open spec fn view(&self) -> LightUserdataView {
        LightUserdataView { address: self.address, metatable: self.metatable@ }
    }
}

/// What one push writes to one stack slot.
#[derive(Debug, PartialEq, Eq)]
pub enum LuaObject {
    Value(LuaValue),
    Userdata(LuaUserdata),
    LightUserdata(LuaLightUserdata),
}

pub enum ObjectView {
    Value(ValueView),
    Userdata(UserdataView),
    LightUserdata(LightUserdataView),
}

impl View for LuaObject {
    type V = ObjectView;

    open spec fn view(&self) -> ObjectView {
        match self {
            LuaObject::Value(value) => ObjectView::Value(value@),
            LuaObject::Userdata(block) => ObjectView::Userdata(block@),
            LuaObject::LightUserdata(light) => ObjectView::LightUserdata(light@),
        }
    }
}

/// What stands under a name of the global namespace.
#[derive(Debug, PartialEq, Eq)]
pub enum LuaGlobal {
    Table(LuaTable),
    Value(LuaValue),
}

pub enum GlobalView {
    Table(TableView),
    Value(ValueView),
}

impl View for LuaGlobal {
    type V = GlobalView;

    open spec fn view(&self) -> GlobalView {
        match self {
            LuaGlobal::Table(table) => GlobalView::Table(table@),
            LuaGlobal::Value(value) => GlobalView::Value(value@),
        }
    }
}

/// An interpreter context, as far as this library writes to it: the slots
/// pushed, bottom first, and the global namespace.
#[derive(Debug, PartialEq, Eq)]
pub struct Lua {
    pub stack: Vec<LuaObject>,
    pub globals: Table<LuaGlobal>,
}

pub struct LuaView {
    pub stack: Seq<ObjectView>,
    pub globals: Map<Seq<char>, GlobalView>,
}

impl LuaView {
    /// The context with `object` pushed.
    pub open spec fn push(self, object: ObjectView) -> LuaView {
        LuaView { stack: self.stack.push(object), globals: self.globals }
    }

    /// The context with `global` filed under `name`.
    pub open spec fn publish(self, name: Seq<char>, global: GlobalView) -> LuaView {
        LuaView { stack: self.stack, globals: self.globals.insert(name, global) }
    }

    /// The table published under `name`, if what stands there is a table.
    pub open spec fn table_at(self, name: Seq<char>) -> Option<TableView> {
        if self.globals.contains_key(name) {
            match self.globals[name] {
                GlobalView::Table(table) => Some(table),
                GlobalView::Value(_) => None,
            }
        } else {
            None
        }
    }
}

impl View for Lua {
    type V = LuaView;

    open spec fn view(&self) -> LuaView {
        LuaView {
            stack: self.stack@.map_values(|object: LuaObject| object@),
            globals: self.globals@,
        }
    }
}

impl Lua {
    /// A context with an empty stack and an empty namespace.
    pub fn new() -> (lua: Lua)
        ensures
            lua@.stack == Seq::<ObjectView>::empty(),
            lua@.globals == Map::<Seq<char>, GlobalView>::empty(),
    {
        let lua = Lua { stack: Vec::new(), globals: Table::new() };
        assert(lua@.stack =~= Seq::<ObjectView>::empty());
        lua
    }

    /// Pushes `object`: one slot more, the namespace as it was.
    pub fn push(&mut self, object: LuaObject)
        ensures
            final(self)@ == old(self)@.push(object@),
    {
        self.stack.push(object);
        assert(self@.stack =~= old(self)@.stack.push(object@));
    }

    /// Takes the top slot off, if there is one.
    pub fn pop(&mut self) -> (top: Option<LuaObject>)
        ensures
            match top {
                Some(object) => old(self)@.stack.len() > 0 && object@ == old(self)@.stack.last()
                    && final(self)@ == (LuaView {
                    stack: old(self)@.stack.drop_last(),
                    globals: old(self)@.globals,
                }),
                None => old(self)@.stack.len() == 0 && final(self)@ == old(self)@,
            },
    {
        let top = self.stack.pop();
        assert(top is Some ==> self@.stack =~= old(self)@.stack.drop_last());
        top
    }
}

/// What the interpreter reports of one stack slot, question by question.
#[derive(Debug, PartialEq, Eq)]
pub struct LuaSlot {
    /// The slot's dynamic type.
    pub kind: LuaType,
    /// The integer that the slot converts to, by the interpreter's own
    /// rule; none where it says that the slot does not convert.
    pub integer: Option<i64>,
    /// The double that the slot converts to, by its bit pattern.
    pub number: Option<u64>,
    /// The slot's truth value.
    pub boolean: bool,
    /// The slot's byte string, where it has one.
    pub text: Option<Vec<u8>>,
    /// The address of the slot's block, where it holds one.
    pub block: Option<usize>,
    /// The slot's metadata map, where one is attached.
    pub metatable: Option<LuaTable>,
}

pub struct SlotView {
    pub kind: LuaType,
    pub integer: Option<i64>,
    pub number: Option<u64>,
    pub boolean: bool,
    pub text: Option<Seq<u8>>,
    pub block: Option<usize>,
    pub metatable: Option<TableView>,
}

impl View for LuaSlot {
    type V = SlotView;

    open spec fn view(&self) -> SlotView {
        SlotView {
            kind: self.kind,
            integer: self.integer,
            number: self.number,
            boolean: self.boolean,
            text: match self.text {
                Some(bytes) => Some(bytes@),
                None => None,
            },
            block: self.block,
            metatable: match self.metatable {
                Some(table) => Some(table@),
                None => None,
            },
        }
    }
}

/// The metadata map that the interpreter finds for a block whose map is
/// `metatable`, in a context whose namespace is `globals`.
pub open spec fn resolved_metatable(
    globals: Map<Seq<char>, GlobalView>,
    metatable: MetatableRefView,
) -> Option<TableView> {
    match metatable {
        MetatableRefView::Own(table) => Some(table),
        MetatableRefView::Global(name) => (LuaView { stack: Seq::empty(), globals }).table_at(name),
    }
}

/// `slot` is what an interpreter reports of a slot into which `object` was
/// just written, while its namespace is `globals`. Each line is a promise
/// of the interpreter's manual; what the manual leaves to conversions (the
/// text of a number, the number of a text) is left open here too. Of the
/// address of a host value the interpreter keeps one metadata map for all
/// such addresses: the line on it holds until the next one is written.
pub open spec fn reports(
    globals: Map<Seq<char>, GlobalView>,
    slot: SlotView,
    object: ObjectView,
) -> bool {
    match object {
        ObjectView::Value(ValueView::Nil) => {
            &&& slot.kind == LuaType::Nil
            &&& slot.integer is None
            &&& slot.number is None
            &&& !slot.boolean
            &&& slot.text is None
            &&& slot.block is None
        },
        ObjectView::Value(ValueView::Boolean(b)) => {
            &&& slot.kind == LuaType::Boolean
            &&& slot.integer is None
            &&& slot.number is None
            &&& slot.boolean == b
            &&& slot.text is None
            &&& slot.block is None
        },
        ObjectView::Value(ValueView::Integer(i)) => {
            &&& slot.kind == LuaType::Number
            &&& slot.integer == Some(i)
            &&& slot.boolean
            &&& slot.block is None
        },
        ObjectView::Value(ValueView::Number(bits)) => {
            &&& slot.kind == LuaType::Number
            &&& slot.number == Some(bits)
            &&& slot.boolean
            &&& slot.block is None
        },
        ObjectView::Value(ValueView::Text(text)) => {
            &&& slot.kind == LuaType::Text
            &&& slot.text == Some(encode_utf8(text))
            &&& slot.boolean
            &&& slot.block is None
        },
        ObjectView::Value(ValueView::Function(_)) => {
            &&& slot.kind == LuaType::Function
            &&& slot.integer is None
            &&& slot.number is None
            &&& slot.boolean
            &&& slot.text is None
            &&& slot.block is None
        },
        ObjectView::Userdata(block) => {
            &&& slot.kind == LuaType::Userdata
            &&& slot.integer is None
            &&& slot.number is None
            &&& slot.boolean
            &&& slot.text is None
            &&& slot.block is Some
            &&& slot.metatable == resolved_metatable(globals, block.metatable)
        },
        ObjectView::LightUserdata(light) => {
            &&& slot.kind == LuaType::LightUserdata
            &&& slot.integer is None
            &&& slot.number is None
            &&& slot.boolean
            &&& slot.text is None
            &&& slot.block == (if light.address == 0 {
                None
            } else {
                Some(light.address)
            })
            &&& slot.metatable == Some(light.metatable)
        },
    }
}

} // verus!
