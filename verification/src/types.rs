//! Data types that the parser attaches to nodes, and the symbols that name them.
use vstd::prelude::*;

verus! {

/// The primitive types of the language.
#[derive(Clone, Copy, Debug, PartialEq, Eq, Structural)]
pub enum Primitive {
    I8,
    I16,
    I32,
    I64,
    I128,
    U8,
    U16,
    U32,
    U64,
    U128,
    F32,
    F64,
    Bool,
    String,
}

/// A type as the nodes of a tree carry it.
#[derive(Clone, Copy, Debug, PartialEq, Eq, Structural)]
pub enum Type {
    UnTyped,
    Primitive(Primitive),
}

/// The type carried by a node.
#[derive(Clone, Copy, Debug, PartialEq, Eq, Structural)]
pub struct DataType {
    pub data_type: Type,
}

/// The label under which a primitive type is written.
pub open spec fn primitive_label(p: Primitive) -> Seq<char> {
    match p {
        Primitive::I8 => "i8"@,
        Primitive::I16 => "i16"@,
        Primitive::I32 => "i32"@,
        Primitive::I64 => "i64"@,
        Primitive::I128 => "i128"@,
        Primitive::U8 => "u8"@,
        Primitive::U16 => "u16"@,
        Primitive::U32 => "u32"@,
        Primitive::U64 => "u64"@,
        Primitive::U128 => "u128"@,
        Primitive::F32 => "f32"@,
        Primitive::F64 => "f64"@,
        Primitive::Bool => "bool"@,
        Primitive::String => "str"@,
    }
}

/// The label under which a type is written.
pub open spec fn type_label(t: Type) -> Seq<char> {
    match t {
        Type::UnTyped => "untyped"@,
        Type::Primitive(p) => primitive_label(p),
    }
}

impl Primitive {
    pub fn get_label(&self) -> (r: &'static str)
        ensures
            r@ == primitive_label(*self),
    {
        match self {
            Primitive::I8 => "i8",
            Primitive::I16 => "i16",
            Primitive::I32 => "i32",
            Primitive::I64 => "i64",
            Primitive::I128 => "i128",
            Primitive::U8 => "u8",
            Primitive::U16 => "u16",
            Primitive::U32 => "u32",
            Primitive::U64 => "u64",
            Primitive::U128 => "u128",
            Primitive::F32 => "f32",
            Primitive::F64 => "f64",
            Primitive::Bool => "bool",
            Primitive::String => "str",
        }
    }
}

impl Type {
    pub fn get_label(&self) -> (r: &'static str)
        ensures
            r@ == type_label(*self),
    {
        match self {
            Type::UnTyped => "untyped",
            Type::Primitive(p) => p.get_label(),
        }
    }
}

impl DataType {
    pub fn new(data_type: Type) -> (r: DataType)
        ensures
            r.data_type == data_type,
    {
        DataType { data_type }
    }

    pub fn get_label(&self) -> (r: &'static str)
        ensures
            r@ == type_label(self.data_type),
    {
        self.data_type.get_label()
    }
}

/// A named variable and the type found for it; nodes share it through a cell.
pub struct Symbol {
    pub name: String,
    pub data_type: DataType,
}

impl Symbol {
    pub fn new(name: String, data_type: DataType) -> (r: Symbol)
        ensures
            r.name == name,
            r.data_type == data_type,
    {
        Symbol { name, data_type }
    }

    pub fn get_type(&self) -> (r: DataType)
        ensures
            r == self.data_type,
    {
        self.data_type
    }

    pub fn set_type(&mut self, data_type: DataType)
        ensures
            final(self).data_type == data_type,
            final(self).name == old(self).name,
    {
        self.data_type = data_type;
    }
}

} // verus!
