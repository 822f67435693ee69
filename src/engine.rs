use vstd::prelude::*;

verus! {

/// A script value as the contracts see it: a primitive, or a reference to an
/// object of the heap that it was read from.
pub enum Val {
    Undefined,
    Null,
    Bool(bool),
    Number(u64),
    Str(Seq<char>),
    Symbol,
    Ref(usize),
}

/// A heap object as the contracts see it. An object holds its property keys
/// and values as two sequences of equal length.
pub enum Obj {
    Array(Seq<Val>),
    Object(Seq<Seq<char>>, Seq<Val>),
    Function,
    Opaque,
}

/// A value of the scripting engine's native model.
#[derive(Debug, PartialEq)]
pub enum ScriptValue {
    /// The absent-value sentinel.
    Undefined,
    Null,
    Bool(bool),
    /// Bit pattern of an IEEE-754 double.
    Number(u64),
    Str(String),
    Symbol,
    /// Index of an object in the heap.
    Ref(usize),
}

/// One named property of a script object.
#[derive(Debug, PartialEq)]
pub struct Property {
    pub key: String,
    pub value: ScriptValue,
}

/// An object that lives in a script heap. Objects refer to each other only by
/// index, so a heap may hold shared and cyclic structures.
#[derive(Debug, PartialEq)]
pub enum HeapObject {
    Array(Vec<ScriptValue>),
    Object(Vec<Property>),
    /// A callable value.
    Function,
    /// An engine-specific handle with no structure that the bridge reads.
    Opaque,
}

/// The objects of one script context, addressed by index.
pub struct ScriptHeap {
    pub objects: Vec<HeapObject>,
}

impl View for ScriptValue {
    type V = Val;

    open spec fn view(&self) -> Val {
        match self {
            ScriptValue::Undefined => Val::Undefined,
            ScriptValue::Null => Val::Null,
            ScriptValue::Bool(b) => Val::Bool(*b),
            ScriptValue::Number(n) => Val::Number(*n),
            ScriptValue::Str(s) => Val::Str(s@),
            ScriptValue::Symbol => Val::Symbol,
            ScriptValue::Ref(i) => Val::Ref(*i),
        }
    }
}

impl View for HeapObject {
    type V = Obj;

    open spec fn view(&self) -> Obj {
        match self {
            HeapObject::Array(items) => Obj::Array(items@.map_values(|v: ScriptValue| v@)),
            HeapObject::Object(props) => Obj::Object(
                props@.map_values(|p: Property| p.key@),
                props@.map_values(|p: Property| p.value@),
            ),
            HeapObject::Function => Obj::Function,
            HeapObject::Opaque => Obj::Opaque,
        }
    }
}

impl View for ScriptHeap {
    type V = Seq<Obj>;

    open spec fn view(&self) -> Seq<Obj> {
        self.objects@.map_values(|o: HeapObject| o@)
    }
}

impl ScriptHeap {
    /// An empty heap: the state of a freshly created script context.
    pub fn new() -> (r: ScriptHeap)
        ensures
            r@ == Seq::<Obj>::empty(),
    {
        ScriptHeap { objects: Vec::new() }
    }

    /// Adds an object to the heap and returns its index.
    pub fn allocate(&mut self, o: HeapObject) -> (r: usize)
        ensures
            r == old(self)@.len(),
            final(self)@ == old(self)@.push(o@),
    {
        let r = self.objects.len();
        self.objects.push(o);
        proof {
            assert(final(self)@ =~= old(self)@.push(o@));
        }
        r
    }

    pub fn len(&self) -> (r: usize)
        ensures
            r == self@.len(),
    {
        self.objects.len()
    }
}

} // verus!
