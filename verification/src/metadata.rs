//! The metadata model of an exported interface and its JVM descriptors.

use vstd::prelude::*;
use crate::text::owned;

verus! {

/// The metadata version understood by this release.
pub const SCHEMA_VERSION: u32 = 2;

/// A type that may cross the Kotlin/JVM boundary.
#[derive(Debug, PartialEq, Eq)]
pub enum Type {
    Bool,
    I8,
    I16,
    I32,
    I64,
    F32,
    F64,
    String,
    Str,
    Unit,
    ByteArray,
    ByteSlice,
    IntArray,
    IntSlice,
    LongArray,
    LongSlice,
    FloatArray,
    FloatSlice,
    DoubleArray,
    DoubleSlice,
    BooleanArray,
    BooleanSlice,
    Option(Box<Type>),
    Result { ok: Box<Type>, err: String },
}

impl Clone for Type {
    fn clone(&self) -> (r: Self)
        ensures
            r == *self,
        decreases self,
    {
        match self {
            Type::Bool => Type::Bool,
            Type::I8 => Type::I8,
            Type::I16 => Type::I16,
            Type::I32 => Type::I32,
            Type::I64 => Type::I64,
            Type::F32 => Type::F32,
            Type::F64 => Type::F64,
            Type::String => Type::String,
            Type::Str => Type::Str,
            Type::Unit => Type::Unit,
            Type::ByteArray => Type::ByteArray,
            Type::ByteSlice => Type::ByteSlice,
            Type::IntArray => Type::IntArray,
            Type::IntSlice => Type::IntSlice,
            Type::LongArray => Type::LongArray,
            Type::LongSlice => Type::LongSlice,
            Type::FloatArray => Type::FloatArray,
            Type::FloatSlice => Type::FloatSlice,
            Type::DoubleArray => Type::DoubleArray,
            Type::DoubleSlice => Type::DoubleSlice,
            Type::BooleanArray => Type::BooleanArray,
            Type::BooleanSlice => Type::BooleanSlice,
            Type::Option(inner) => Type::Option(Box::new((**inner).clone())),
            Type::Result { ok, err } => Type::Result { ok: Box::new((**ok).clone()), err: err.clone() },
        }
    }
}

/// The Kotlin spelling of a type.
pub open spec fn kotlin_text(t: Type) -> Seq<char>
    decreases t,
{
    match t {
        Type::Bool => "Boolean"@,
        Type::I8 => "Byte"@,
        Type::I16 => "Short"@,
        Type::I32 => "Int"@,
        Type::I64 => "Long"@,
        Type::F32 => "Float"@,
        Type::F64 => "Double"@,
        Type::String | Type::Str => "String"@,
        Type::Unit => "Unit"@,
        Type::ByteArray | Type::ByteSlice => "ByteArray"@,
        Type::IntArray | Type::IntSlice => "IntArray"@,
        Type::LongArray | Type::LongSlice => "LongArray"@,
        Type::FloatArray | Type::FloatSlice => "FloatArray"@,
        Type::DoubleArray | Type::DoubleSlice => "DoubleArray"@,
        Type::BooleanArray | Type::BooleanSlice => "BooleanArray"@,
        Type::Option(inner) => kotlin_text(*inner) + "?"@,
        Type::Result { ok, .. } => kotlin_text(*ok),
    }
}

impl Type {
    /// The corresponding Kotlin type.
    pub fn kotlin_type(&self) -> (s: String)
        ensures
            s@ == kotlin_text(*self),
        decreases self,
    {
        match self {
            Type::Bool => owned("Boolean"),
            Type::I8 => owned("Byte"),
            Type::I16 => owned("Short"),
            Type::I32 => owned("Int"),
            Type::I64 => owned("Long"),
            Type::F32 => owned("Float"),
            Type::F64 => owned("Double"),
            Type::String | Type::Str => owned("String"),
            Type::Unit => owned("Unit"),
            Type::ByteArray | Type::ByteSlice => owned("ByteArray"),
            Type::IntArray | Type::IntSlice => owned("IntArray"),
            Type::LongArray | Type::LongSlice => owned("LongArray"),
            Type::FloatArray | Type::FloatSlice => owned("FloatArray"),
            Type::DoubleArray | Type::DoubleSlice => owned("DoubleArray"),
            Type::BooleanArray | Type::BooleanSlice => owned("BooleanArray"),
            Type::Option(inner) => {
                let mut s = inner.kotlin_type();
                s.append("?");
                s
            },
            Type::Result { ok, .. } => ok.kotlin_type(),
        }
    }
}


/// The JVM descriptor of the boxed form that a nullable type takes.
pub open spec fn boxed_descriptor(t: Type) -> Seq<char> {
    match t {
        Type::Bool => "Ljava/lang/Boolean;"@,
        Type::I8 => "Ljava/lang/Byte;"@,
        Type::I16 => "Ljava/lang/Short;"@,
        Type::I32 => "Ljava/lang/Integer;"@,
        Type::I64 => "Ljava/lang/Long;"@,
        Type::F32 => "Ljava/lang/Float;"@,
        Type::F64 => "Ljava/lang/Double;"@,
        Type::String | Type::Str => "Ljava/lang/String;"@,
        Type::ByteArray | Type::ByteSlice => "[B"@,
        Type::IntArray | Type::IntSlice => "[I"@,
        Type::LongArray | Type::LongSlice => "[J"@,
        Type::FloatArray | Type::FloatSlice => "[F"@,
        Type::DoubleArray | Type::DoubleSlice => "[D"@,
        Type::BooleanArray | Type::BooleanSlice => "[Z"@,
        _ => "Ljava/lang/Object;"@,
    }
}

/// The JVM descriptor of a type; `V` (Unit) is meaningful only for returns.
pub open spec fn descriptor(t: Type) -> Seq<char>
    decreases t,
{
    match t {
        Type::Bool => "Z"@,
        Type::I8 => "B"@,
        Type::I16 => "S"@,
        Type::I32 => "I"@,
        Type::I64 => "J"@,
        Type::F32 => "F"@,
        Type::F64 => "D"@,
        Type::String | Type::Str => "Ljava/lang/String;"@,
        Type::Unit => "V"@,
        Type::ByteArray | Type::ByteSlice => "[B"@,
        Type::IntArray | Type::IntSlice => "[I"@,
        Type::LongArray | Type::LongSlice => "[J"@,
        Type::FloatArray | Type::FloatSlice => "[F"@,
        Type::DoubleArray | Type::DoubleSlice => "[D"@,
        Type::BooleanArray | Type::BooleanSlice => "[Z"@,
        Type::Option(inner) => boxed_descriptor(*inner),
        Type::Result { ok, .. } => descriptor(*ok),
    }
}

impl Type {
    fn boxed_jni_signature(&self) -> (s: String)
        ensures
            s@ == boxed_descriptor(*self),
    {
        match self {
            Type::Bool => owned("Ljava/lang/Boolean;"),
            Type::I8 => owned("Ljava/lang/Byte;"),
            Type::I16 => owned("Ljava/lang/Short;"),
            Type::I32 => owned("Ljava/lang/Integer;"),
            Type::I64 => owned("Ljava/lang/Long;"),
            Type::F32 => owned("Ljava/lang/Float;"),
            Type::F64 => owned("Ljava/lang/Double;"),
            Type::String | Type::Str => owned("Ljava/lang/String;"),
            Type::ByteArray | Type::ByteSlice => owned("[B"),
            Type::IntArray | Type::IntSlice => owned("[I"),
            Type::LongArray | Type::LongSlice => owned("[J"),
            Type::FloatArray | Type::FloatSlice => owned("[F"),
            Type::DoubleArray | Type::DoubleSlice => owned("[D"),
            Type::BooleanArray | Type::BooleanSlice => owned("[Z"),
            _ => owned("Ljava/lang/Object;"),
        }
    }

    /// The JVM descriptor for this type. Unit is valid only as a return type.
    pub fn jni_signature(&self) -> (s: String)
        ensures
            s@ == descriptor(*self),
        decreases self,
    {
        match self {
            Type::Bool => owned("Z"),
            Type::I8 => owned("B"),
            Type::I16 => owned("S"),
            Type::I32 => owned("I"),
            Type::I64 => owned("J"),
            Type::F32 => owned("F"),
            Type::F64 => owned("D"),
            Type::String | Type::Str => owned("Ljava/lang/String;"),
            Type::Unit => owned("V"),
            Type::ByteArray | Type::ByteSlice => owned("[B"),
            Type::IntArray | Type::IntSlice => owned("[I"),
            Type::LongArray | Type::LongSlice => owned("[J"),
            Type::FloatArray | Type::FloatSlice => owned("[F"),
            Type::DoubleArray | Type::DoubleSlice => owned("[D"),
            Type::BooleanArray | Type::BooleanSlice => owned("[Z"),
            Type::Option(inner) => inner.boxed_jni_signature(),
            Type::Result { ok, .. } => ok.jni_signature(),
        }
    }
}

/// A named parameter of an exported function.
#[derive(Debug, PartialEq, Eq)]
pub struct Parameter {
    pub name: String,
    pub ty: Type,
}

impl Clone for Parameter {
    fn clone(&self) -> (r: Self)
        ensures
            r == *self,
    {
        Parameter { name: self.name.clone(), ty: self.ty.clone() }
    }
}

/// The metadata of one exported function.
#[derive(Debug, PartialEq, Eq)]
pub struct Function {
    pub rust_name: String,
    pub kotlin_name: String,
    pub parameters: Vec<Parameter>,
    pub return_type: Type,
}

/// Whether two functions hold the same metadata.
pub open spec fn same_function(a: Function, b: Function) -> bool {
    &&& a.rust_name == b.rust_name
    &&& a.kotlin_name == b.kotlin_name
    &&& a.parameters@ == b.parameters@
    &&& a.return_type == b.return_type
}

impl Clone for Function {
    fn clone(&self) -> (r: Self)
        ensures
            same_function(r, *self),
    {
        let parameters = self.parameters.clone();
        proof {
            assert(parameters@ =~= self.parameters@);
        }
        Function {
            rust_name: self.rust_name.clone(),
            kotlin_name: self.kotlin_name.clone(),
            parameters,
            return_type: self.return_type.clone(),
        }
    }
}

/// The metadata of one generated Kotlin object and its exported functions.
#[derive(Debug, PartialEq, Eq)]
pub struct Module {
    pub schema_version: u32,
    pub package: String,
    pub class_name: String,
    pub library_name: String,
    pub functions: Vec<Function>,
}

impl Clone for Module {
    fn clone(&self) -> (r: Self)
        ensures
            r.schema_version == self.schema_version,
            r.package == self.package,
            r.class_name == self.class_name,
            r.library_name == self.library_name,
            r.functions@.len() == self.functions@.len(),
            forall|i: int| 0 <= i < r.functions@.len() ==> same_function(#[trigger] r.functions@[i], self.functions@[i]),
    {
        let functions = self.functions.clone();
        proof {
            assert forall|i: int| 0 <= i < functions@.len() implies same_function(#[trigger] functions@[i], self.functions@[i]) by {
                assert(vstd::pervasive::cloned(self.functions@[i], functions@[i]));
            }
        }
        Module {
            schema_version: self.schema_version,
            package: self.package.clone(),
            class_name: self.class_name.clone(),
            library_name: self.library_name.clone(),
            functions,
        }
    }
}

/// The concatenated descriptors of a parameter list.
pub open spec fn parameters_descriptor(ps: Seq<Parameter>) -> Seq<char>
    decreases ps.len(),
{
    if ps.len() == 0 {
        Seq::empty()
    } else {
        parameters_descriptor(ps.drop_last()) + descriptor(ps.last().ty)
    }
}

/// The JVM method descriptor of a function: its parameter descriptors in
/// parentheses, followed by the result descriptor.
pub open spec fn method_descriptor(f: Function) -> Seq<char> {
    "("@ + parameters_descriptor(f.parameters@) + ")"@ + descriptor(f.return_type)
}

impl Function {
    /// The complete JVM method descriptor, excluding the method name.
    pub fn jni_signature(&self) -> (s: String)
        ensures
            s@ == method_descriptor(*self),
    {
        let mut signature = owned("(");
        let n = self.parameters.len();
        let mut i: usize = 0;
        while i < n
            invariant
                n == self.parameters@.len(),
                i <= n,
                signature@ == "("@ + parameters_descriptor(self.parameters@.take(i as int)),
            decreases n - i,
        {
            let piece = self.parameters[i].ty.jni_signature();
            signature.append(piece.as_str());
            proof {
                assert(self.parameters@.take(i + 1).drop_last() =~= self.parameters@.take(i as int));
            }
            i = i + 1;
        }
        proof {
            assert(self.parameters@.take(n as int) =~= self.parameters@);
        }
        signature.append(")");
        let result = self.return_type.jni_signature();
        signature.append(result.as_str());
        signature
    }
}

} // verus!
