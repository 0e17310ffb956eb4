//! The SQL storage class that a field's Rust type is given, and whether the
//! field may be absent.

use vstd::prelude::*;
use crate::text::str_eq;

verus! {

/// A field's Rust type, as far as the column mapping reads it.
pub enum FieldType {
    /// A path type such as `u32`, `std::string::String` or `Option<u32>`: the
    /// name of its last segment, and that segment's arguments when they stand
    /// in angle brackets (`None` when there are no angle brackets).
    Path { name: String, args: Option<Vec<TypeArg>> },
    /// A reference `&T` or `&mut T`, by the type it refers to.
    Reference(Box<FieldType>),
    /// An array `[T; N]`, by its element type.
    Array(Box<FieldType>),
    /// Any other type: a tuple, a slice, a pointer, a trait object, ...
    Other,
}

/// A generic argument between angle brackets.
pub enum TypeArg {
    /// A type argument.
    Type(FieldType),
    /// A lifetime, a constant or an associated-type binding.
    Other,
}

/// The SQL storage class of a column.
#[derive(Clone, Copy, Debug, PartialEq, Eq, Structural)]
pub enum SqlType {
    Integer,
    Real,
    Text,
    Blob,
}

impl SqlType {
    /// The SQL keyword of the storage class.
    pub open spec fn spec_keyword(self) -> Seq<char> {
        match self {
            SqlType::Integer => "INTEGER"@,
            SqlType::Real => "REAL"@,
            SqlType::Text => "TEXT"@,
            SqlType::Blob => "BLOB"@,
        }
    }

    pub fn keyword(&self) -> (r: &'static str)
        ensures
            r@ == self.spec_keyword(),
    {
        match self {
            SqlType::Integer => "INTEGER",
            SqlType::Real => "REAL",
            SqlType::Text => "TEXT",
            SqlType::Blob => "BLOB",
        }
    }
}

/// `name` is one of the integer types stored as `INTEGER`.
pub open spec fn is_integer_name(name: Seq<char>) -> bool {
    name == "u8"@ || name == "u16"@ || name == "u32"@ || name == "i8"@ || name == "i16"@
        || name == "i32"@
}

/// `ty` is a path type whose last segment is named `u8`.
pub open spec fn is_u8(ty: FieldType) -> bool {
    match ty {
        FieldType::Path { name, .. } => name@ == "u8"@,
        _ => false,
    }
}

/// The field may be absent: its type is an `Option`, or a reference to one.
pub open spec fn spec_optional(ty: FieldType) -> bool
    decreases ty,
{
    match ty {
        FieldType::Path { name, .. } => name@ == "Option"@,
        FieldType::Reference(r) => spec_optional(*r),
        _ => false,
    }
}

/// The mapping is defined: every `Option` or `Vec` on the way that has angle
/// brackets has at least one argument in them.
pub open spec fn sql_type_defined(ty: FieldType) -> bool
    decreases ty,
{
    match ty {
        FieldType::Path { name, args } => if name@ == "Option"@ {
            match args {
                Some(a) => a@.len() > 0 && (match a@[0] {
                    TypeArg::Type(t) => sql_type_defined(t),
                    TypeArg::Other => true,
                }),
                None => true,
            }
        } else if name@ == "Vec"@ {
            match args {
                Some(a) => a@.len() > 0,
                None => true,
            }
        } else {
            true
        },
        FieldType::Reference(r) => sql_type_defined(*r),
        _ => true,
    }
}

/// The storage class of a field of type `ty`: an `Option` is stored as what
/// it holds, `String` as `TEXT`, the integer types up to 32 bits as
/// `INTEGER`, `f32` and `f64` as `REAL`, `Vec<u8>` and `[u8; N]` as `BLOB`,
/// a reference as what it refers to, and everything else as `TEXT`.
pub open spec fn spec_type_to_sql(ty: FieldType) -> SqlType
    decreases ty,
{
    match ty {
        FieldType::Path { name, args } => if name@ == "Option"@ {
            match args {
                // (an empty `<>` is ruled out by `sql_type_defined`)
                Some(a) => if a@.len() > 0 {
                    match a@[0] {
                        TypeArg::Type(t) => spec_type_to_sql(t),
                        TypeArg::Other => SqlType::Text,
                    }
                } else {
                    SqlType::Text
                },
                None => SqlType::Text,
            }
        } else if name@ == "String"@ {
            SqlType::Text
        } else if is_integer_name(name@) {
            SqlType::Integer
        } else if name@ == "f32"@ || name@ == "f64"@ {
            SqlType::Real
        } else if name@ == "Vec"@ {
            match args {
                Some(a) => match a@[0] {
                    TypeArg::Type(t) => if is_u8(t) {
                        SqlType::Blob
                    } else {
                        SqlType::Text
                    },
                    TypeArg::Other => SqlType::Text,
                },
                None => SqlType::Text,
            }
        } else {
            SqlType::Text
        },
        FieldType::Array(e) => if is_u8(*e) {
            SqlType::Blob
        } else {
            SqlType::Text
        },
        FieldType::Reference(r) => spec_type_to_sql(*r),
        FieldType::Other => SqlType::Text,
    }
}

/// Whether a field of type `ty` may be absent.
pub fn optional(ty: &FieldType) -> (r: bool)
    ensures
        r == spec_optional(*ty),
    decreases ty,
{
    match ty {
        FieldType::Path { name, .. } => str_eq(name.as_str(), "Option"),
        FieldType::Reference(r) => optional(r),
        _ => false,
    }
}

fn names_u8(ty: &FieldType) -> (r: bool)
    ensures
        r == is_u8(*ty),
{
    match ty {
        FieldType::Path { name, .. } => str_eq(name.as_str(), "u8"),
        _ => false,
    }
}

/// Whether the storage class of `ty` is defined (`type_to_sql` may be called).
pub fn type_defined(ty: &FieldType) -> (r: bool)
    ensures
        r == sql_type_defined(*ty),
    decreases ty,
{
    match ty {
        FieldType::Path { name, args } => {
            let n = name.as_str();
            if str_eq(n, "Option") {
                match args {
                    Some(a) => a.len() > 0 && match &a[0] {
                        TypeArg::Type(t) => type_defined(t),
                        TypeArg::Other => true,
                    },
                    None => true,
                }
            } else if str_eq(n, "Vec") {
                match args {
                    Some(a) => a.len() > 0,
                    None => true,
                }
            } else {
                true
            }
        },
        FieldType::Reference(r) => type_defined(r),
        _ => true,
    }
}

/// The storage class of a field of type `ty`.
pub fn type_to_sql(ty: &FieldType) -> (r: SqlType)
    requires
        sql_type_defined(*ty),
    ensures
        r == spec_type_to_sql(*ty),
    decreases ty,
{
    match ty {
        FieldType::Path { name, args } => {
            let n = name.as_str();
            if str_eq(n, "Option") {
                match args {
                    Some(a) => match &a[0] {
                        TypeArg::Type(t) => type_to_sql(t),
                        TypeArg::Other => SqlType::Text,
                    },
                    None => SqlType::Text,
                }
            } else if str_eq(n, "String") {
                SqlType::Text
            } else if str_eq(n, "u8") || str_eq(n, "u16") || str_eq(n, "u32") || str_eq(n, "i8")
                || str_eq(n, "i16") || str_eq(n, "i32") {
                SqlType::Integer
            } else if str_eq(n, "f32") || str_eq(n, "f64") {
                SqlType::Real
            } else if str_eq(n, "Vec") {
                match args {
                    Some(a) => match &a[0] {
                        TypeArg::Type(t) => if names_u8(t) {
                            SqlType::Blob
                        } else {
                            SqlType::Text
                        },
                        TypeArg::Other => SqlType::Text,
                    },
                    None => SqlType::Text,
                }
            } else {
                SqlType::Text
            }
        },
        FieldType::Array(e) => if names_u8(e) {
            SqlType::Blob
        } else {
            SqlType::Text
        },
        FieldType::Reference(r) => type_to_sql(r),
        FieldType::Other => SqlType::Text,
    }
}

} // verus!
