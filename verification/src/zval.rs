//! The library's model of a PHP value (a zval) and of the keys of PHP arrays.

use vstd::prelude::*;

verus! {

/// The type tag of a PHP value.
#[derive(Debug, PartialEq, Eq, Structural, Clone, Copy)]
pub enum PhpType {
    Undef,
    Null,
    False,
    True,
    Long,
    Double,
    String,
    Array,
    Iterable,
    Object,
    Resource,
    Reference,
    Callable,
    ConstantExpression,
    Void,
    Mixed,
    Bool,
    Ptr,
    Indirect,
}

/// The key of an entry of a PHP array.
#[derive(Debug, PartialEq)]
pub enum PhpKey {
    Long(i64),
    String(String),
}

/// A PHP object, as far as the conversions read it.
#[derive(Debug, PartialEq)]
pub struct PhpObject {
    /// The name of the object's class.
    pub class_name: String,
    /// The class name that the value's type tag carries, where it carries one.
    pub declared_class: Option<String>,
    /// The object's string form: as an input, what its `__toString` gave;
    /// as an output, what its constructor is given.
    pub string_form: Option<String>,
}

/// A PHP value.
#[derive(Debug, PartialEq)]
pub enum PhpValue {
    Null,
    Bool(bool),
    Long(i64),
    /// A float, held by its IEEE-754 bit pattern.
    Double(u64),
    /// A PHP string: a sequence of bytes.
    String(Vec<u8>),
    /// An array: its entries in iteration order.
    Array(Vec<(PhpKey, PhpValue)>),
    /// A reference to another value.
    Reference(Box<PhpValue>),
    /// A pointer to another value.
    Pointer(Box<PhpValue>),
    Object(PhpObject),
    /// A value of any other type (resource, callable, ...).
    Other(PhpType),
}

/// The mathematical value of a [`PhpKey`].
pub enum PhpKeyV {
    Long(i64),
    String(Seq<char>),
}

/// The mathematical value of a [`PhpObject`].
pub struct PhpObjectV {
    pub class_name: Seq<char>,
    pub declared_class: Option<Seq<char>>,
    pub string_form: Option<Seq<char>>,
}

/// The mathematical value of a [`PhpValue`].
pub enum PhpVal {
    Null,
    Bool(bool),
    Long(i64),
    Double(u64),
    String(Seq<u8>),
    Array(Seq<(PhpKeyV, PhpVal)>),
    Reference(Box<PhpVal>),
    Pointer(Box<PhpVal>),
    Object(PhpObjectV),
    Other(PhpType),
}

impl View for PhpKey {
    type V = PhpKeyV;

    open spec fn view(&self) -> PhpKeyV {
        match self {
            PhpKey::Long(n) => PhpKeyV::Long(*n),
            PhpKey::String(s) => PhpKeyV::String(s@),
        }
    }
}

pub open spec fn option_string_view(o: Option<String>) -> Option<Seq<char>> {
    match o {
        Some(s) => Some(s@),
        None => None,
    }
}

impl View for PhpObject {
    type V = PhpObjectV;

    open spec fn view(&self) -> PhpObjectV {
        PhpObjectV {
            class_name: self.class_name@,
            declared_class: option_string_view(self.declared_class),
            string_form: option_string_view(self.string_form),
        }
    }
}

impl PhpValue {
    pub open spec fn model(self) -> PhpVal
        decreases self,
    {
        match self {
            PhpValue::Null => PhpVal::Null,
            PhpValue::Bool(b) => PhpVal::Bool(b),
            PhpValue::Long(n) => PhpVal::Long(n),
            PhpValue::Double(d) => PhpVal::Double(d),
            PhpValue::String(b) => PhpVal::String(b@),
            PhpValue::Array(es) => PhpVal::Array(
                Seq::new(
                    es@.len(),
                    |i: int|
                        if 0 <= i < es@.len() {
                            (es@[i].0@, es@[i].1.model())
                        } else {
                            (PhpKeyV::Long(0), PhpVal::Null)
                        },
                ),
            ),
            PhpValue::Reference(b) => PhpVal::Reference(Box::new((*b).model())),
            PhpValue::Pointer(b) => PhpVal::Pointer(Box::new((*b).model())),
            PhpValue::Object(o) => PhpVal::Object(o@),
            PhpValue::Other(t) => PhpVal::Other(t),
        }
    }
}

impl View for PhpValue {
    type V = PhpVal;

    open spec fn view(&self) -> PhpVal {
        self.model()
    }
}

/// The type tag of a PHP value.
pub open spec fn type_of(v: PhpVal) -> PhpType {
    match v {
        PhpVal::Null => PhpType::Null,
        PhpVal::Bool(b) => if b { PhpType::True } else { PhpType::False },
        PhpVal::Long(_) => PhpType::Long,
        PhpVal::Double(_) => PhpType::Double,
        PhpVal::String(_) => PhpType::String,
        PhpVal::Array(_) => PhpType::Array,
        PhpVal::Reference(_) => PhpType::Reference,
        PhpVal::Pointer(_) => PhpType::Ptr,
        PhpVal::Object(_) => PhpType::Object,
        PhpVal::Other(t) => t,
    }
}

impl PhpValue {
    /// The type tag of this value.
    pub fn get_type(&self) -> (res: PhpType)
        ensures
            res == type_of(self@),
    {
        match self {
            PhpValue::Null => PhpType::Null,
            PhpValue::Bool(b) => if *b { PhpType::True } else { PhpType::False },
            PhpValue::Long(_) => PhpType::Long,
            PhpValue::Double(_) => PhpType::Double,
            PhpValue::String(_) => PhpType::String,
            PhpValue::Array(_) => PhpType::Array,
            PhpValue::Reference(_) => PhpType::Reference,
            PhpValue::Pointer(_) => PhpType::Ptr,
            PhpValue::Object(_) => PhpType::Object,
            PhpValue::Other(t) => *t,
        }
    }
}

} // verus!
