//! Values held in registers and sent over channels. Compound payloads are shared,
//! immutable and reference counted.
use crate::edi::Edi;
use std::sync::Arc;
use vstd::prelude::*;

verus! {

/// A value's tag.
#[derive(Clone, Copy, Debug, PartialEq, Eq, Structural)]
pub enum Type {
    Nil,
    Byte,
    IWord,
    UWord,
    I64,
    U64,
    F64,
    Array,
    Tuple,
    Function,
    Edi,
    Extension,
}

/// Something that carries a type tag.
pub trait MultiTyped {
    /// The tag, as a specification.
    spec fn spec_type_code(&self) -> Type;

    /// The tag.
    fn type_code(&self) -> (r: Type)
        ensures
            r == self.spec_type_code(),
    ;
}

/// A value. A 64-bit float is held as its IEEE-754 bit pattern, an extension as the
/// address of the host object it stands for.
#[derive(Clone, Debug)]
pub enum Value {
    Nil(),
    Byte(u8),
    IWord(isize),
    UWord(usize),
    I64(i64),
    U64(u64),
    F64(u64),
    Array(Array),
    Tuple(Tuple),
    Function(Function),
    Edi(Edi),
    Extension(usize),
}

impl MultiTyped for Value {
    open spec fn spec_type_code(&self) -> Type {
        match self {
            Value::Nil() => Type::Nil,
            Value::Byte(_) => Type::Byte,
            Value::IWord(_) => Type::IWord,
            Value::UWord(_) => Type::UWord,
            Value::I64(_) => Type::I64,
            Value::U64(_) => Type::U64,
            Value::F64(_) => Type::F64,
            Value::Array(_) => Type::Array,
            Value::Tuple(_) => Type::Tuple,
            Value::Function(_) => Type::Function,
            Value::Edi(_) => Type::Edi,
            Value::Extension(_) => Type::Extension,
        }
    }

    fn type_code(&self) -> (r: Type) {
        match self {
            Value::Nil() => Type::Nil,
            Value::Byte(_) => Type::Byte,
            Value::IWord(_) => Type::IWord,
            Value::UWord(_) => Type::UWord,
            Value::I64(_) => Type::I64,
            Value::U64(_) => Type::U64,
            Value::F64(_) => Type::F64,
            Value::Array(_) => Type::Array,
            Value::Tuple(_) => Type::Tuple,
            Value::Function(_) => Type::Function,
            Value::Edi(_) => Type::Edi,
            Value::Extension(_) => Type::Extension,
        }
    }
}

/// The elements of a homogeneous array, tagged by their type; a nil array has only a length.
#[derive(Clone, Debug)]
pub enum ArrayType {
    Nil(usize),
    Byte(Arc<Vec<u8>>),
    IWord(Arc<Vec<isize>>),
    UWord(Arc<Vec<usize>>),
    I64(Arc<Vec<i64>>),
    U64(Arc<Vec<u64>>),
    F64(Arc<Vec<u64>>),
    Array(Arc<Vec<Array>>),
    Tuple(Arc<Vec<Tuple>>),
    Function(Arc<Vec<Function>>),
    Edi(Arc<Vec<Edi>>),
    Extension(Arc<Vec<usize>>),
}

impl MultiTyped for ArrayType {
    open spec fn spec_type_code(&self) -> Type {
        match self {
            ArrayType::Nil(_) => Type::Nil,
            ArrayType::Byte(_) => Type::Byte,
            ArrayType::IWord(_) => Type::IWord,
            ArrayType::UWord(_) => Type::UWord,
            ArrayType::I64(_) => Type::I64,
            ArrayType::U64(_) => Type::U64,
            ArrayType::F64(_) => Type::F64,
            ArrayType::Array(_) => Type::Array,
            ArrayType::Tuple(_) => Type::Tuple,
            ArrayType::Function(_) => Type::Function,
            ArrayType::Edi(_) => Type::Edi,
            ArrayType::Extension(_) => Type::Extension,
        }
    }

    fn type_code(&self) -> (r: Type) {
        match self {
            ArrayType::Nil(_) => Type::Nil,
            ArrayType::Byte(_) => Type::Byte,
            ArrayType::IWord(_) => Type::IWord,
            ArrayType::UWord(_) => Type::UWord,
            ArrayType::I64(_) => Type::I64,
            ArrayType::U64(_) => Type::U64,
            ArrayType::F64(_) => Type::F64,
            ArrayType::Array(_) => Type::Array,
            ArrayType::Tuple(_) => Type::Tuple,
            ArrayType::Function(_) => Type::Function,
            ArrayType::Edi(_) => Type::Edi,
            ArrayType::Extension(_) => Type::Extension,
        }
    }
}

/// A shared array.
#[derive(Clone, Debug)]
pub struct Array {
    inner: Arc<ArrayType>,
}

impl Array {
    pub closed spec fn elements(&self) -> ArrayType {
        *self.inner
    }

    pub fn type_enum(&self) -> (r: &Arc<ArrayType>)
        ensures
            **r == self.elements(),
    {
        &self.inner
    }

    pub fn new(typ: Arc<ArrayType>) -> (r: Self)
        ensures
            r.elements() == *typ,
    {
        Self { inner: typ }
    }
}

/// A shared tuple.
#[derive(Clone, Debug)]
pub struct Tuple {
    inner: Arc<Vec<Value>>,
}

impl Tuple {
    pub closed spec fn items(&self) -> Seq<Value> {
        self.inner@
    }

    pub fn elements(&self) -> (r: &Arc<Vec<Value>>)
        ensures
            r@ == self.items(),
    {
        &self.inner
    }

    pub fn new(elems: Arc<Vec<Value>>) -> (r: Self)
        ensures
            r.items() == elems@,
    {
        Self { inner: elems }
    }
}

/// A function: its environment, bytecode and name, shared.
#[derive(Clone, Debug)]
pub struct Function {
    inner: Arc<FunctionInner>,
}

#[derive(Clone, Debug)]
struct FunctionInner {
    env: Value,
    bc: Arc<Vec<u8>>,
    name: Arc<Vec<u8>>,
}

impl Function {
    pub closed spec fn spec_env(&self) -> Value {
        self.inner.env
    }

    pub closed spec fn spec_bc(&self) -> Seq<u8> {
        self.inner.bc@
    }

    pub closed spec fn spec_name(&self) -> Seq<u8> {
        self.inner.name@
    }

    pub fn name(&self) -> (r: &Arc<Vec<u8>>)
        ensures
            r@ == self.spec_name(),
    {
        &self.inner.name
    }

    pub fn bc(&self) -> (r: &Arc<Vec<u8>>)
        ensures
            r@ == self.spec_bc(),
    {
        &self.inner.bc
    }

    pub fn env(&self) -> (r: &Value)
        ensures
            *r == self.spec_env(),
    {
        &self.inner.env
    }

    pub fn new(env: Value, bc: Arc<Vec<u8>>, name: Arc<Vec<u8>>) -> (r: Self)
        ensures
            r.spec_env() == env,
            r.spec_bc() == bc@,
            r.spec_name() == name@,
    {
        Self { inner: Arc::new(FunctionInner { env, bc, name }) }
    }
}

} // verus!
