//! How a Rust parameter type is written in the IDL.

use vstd::prelude::*;

use crate::text::{chars_of, push_char, str_eq};

verus! {

/// The shape of a Rust type, as far as the IDL reads it.
pub enum TypeModel {
    /// A path type, such as `u64`, `Vec<[u8; 32]>` or `nssa_core::program::ProgramId`.
    Path {
        /// The identifier of the last path segment, as written.
        ident: String,
        /// The generic arguments of the last segment.
        generics: GenericArgs,
    },
    /// An array type `[elem; len]`.
    Array { elem: Box<TypeModel>, len: ArrayLen },
    /// Any other type (references, tuples, slices, ...).
    Other,
}

/// The generic arguments of the last segment of a path type.
pub enum GenericArgs {
    /// No angle-bracketed arguments (none at all, or parenthesized ones).
    NotAngleBracketed,
    /// Angle-bracketed arguments whose first one is a type.
    FirstType(Box<TypeModel>),
    /// Angle-bracketed arguments whose first one is not a type (a lifetime,
    /// a constant, a binding), or no argument inside the brackets.
    FirstNotType,
}

/// The length expression of an array type.
pub enum ArrayLen {
    /// An integer literal, with its text as written (`32`, `32usize`).
    IntLiteral(String),
    /// Any other expression.
    Other,
}

impl TypeModel {
    /// A copy of this type.
    pub fn duplicate(&self) -> (r: TypeModel)
        ensures
            r == *self,
        decreases self,
    {
        match self {
            TypeModel::Path { ident, generics } => {
                let g = match generics {
                    GenericArgs::NotAngleBracketed => GenericArgs::NotAngleBracketed,
                    GenericArgs::FirstType(inner) => GenericArgs::FirstType(Box::new((&**inner).duplicate())),
                    GenericArgs::FirstNotType => GenericArgs::FirstNotType,
                };
                TypeModel::Path { ident: ident.clone(), generics: g }
            },
            TypeModel::Array { elem, len } => {
                let l = match len {
                    ArrayLen::IntLiteral(n) => ArrayLen::IntLiteral(n.clone()),
                    ArrayLen::Other => ArrayLen::Other,
                };
                TypeModel::Array { elem: Box::new((&**elem).duplicate()), len: l }
            },
            TypeModel::Other => TypeModel::Other,
        }
    }
}

/// Identifiers of the primitive types the IDL names by their lowercase name.
pub open spec fn is_primitive_ident(ident: Seq<char>) -> bool {
    ||| ident == "u8"@
    ||| ident == "u16"@
    ||| ident == "u32"@
    ||| ident == "u64"@
    ||| ident == "u128"@
    ||| ident == "i8"@
    ||| ident == "i16"@
    ||| ident == "i32"@
    ||| ident == "i64"@
    ||| ident == "i128"@
    ||| ident == "bool"@
    ||| ident == "String"@
}

/// The ASCII lowercase of `c`.
pub open spec fn ascii_lower(c: char) -> char {
    if 'A' <= c && c <= 'Z' {
        ((c as int) + 32) as char
    } else {
        c
    }
}

/// `s` with every ASCII uppercase letter made lowercase.
pub open spec fn lowercase(s: Seq<char>) -> Seq<char> {
    s.map_values(|c: char| ascii_lower(c))
}

/// The IDL string of a Rust type: primitives by their lowercase name,
/// `Vec<T>` as `vec<T>`, `Option<T>` as `option<T>` (an optional value,
/// given on the command line as the value or `none`), `ProgramId` as
/// `program_id`, other paths by their
/// last identifier, arrays as `[T; N]`, and `unknown` for anything else.
pub open spec fn idl_type_string(ty: TypeModel) -> Seq<char>
    decreases ty,
{
    match ty {
        TypeModel::Path { ident, generics } => {
            if is_primitive_ident(ident@) {
                lowercase(ident@)
            } else if ident@ == "Vec"@ {
                match generics {
                    GenericArgs::FirstType(inner) => "vec<"@ + idl_type_string(*inner) + ">"@,
                    _ => "vec<unknown>"@,
                }
            } else if ident@ == "Option"@ {
                match generics {
                    GenericArgs::FirstType(inner) => "option<"@ + idl_type_string(*inner) + ">"@,
                    _ => "option<unknown>"@,
                }
            } else if ident@ == "ProgramId"@ {
                "program_id"@
            } else {
                ident@
            }
        },
        TypeModel::Array { elem, len } => {
            match len {
                ArrayLen::IntLiteral(n) => "["@ + idl_type_string(*elem) + "; "@ + n@ + "]"@,
                ArrayLen::Other => "["@ + idl_type_string(*elem) + "; ?]"@,
            }
        },
        TypeModel::Other => "unknown"@,
    }
}

fn is_primitive(ident: &str) -> (r: bool)
    ensures
        r == is_primitive_ident(ident@),
{
    str_eq(ident, "u8") || str_eq(ident, "u16") || str_eq(ident, "u32") || str_eq(ident, "u64")
        || str_eq(ident, "u128") || str_eq(ident, "i8") || str_eq(ident, "i16") || str_eq(
        ident,
        "i32",
    ) || str_eq(ident, "i64") || str_eq(ident, "i128") || str_eq(ident, "bool") || str_eq(
        ident,
        "String",
    )
}

/// Appends the ASCII lowercase of `t` to `s`.
fn push_lowercase(s: &mut String, t: &str)
    ensures
        final(s)@ == old(s)@ + lowercase(t@),
{
    let cs = chars_of(t);
    let mut i: usize = 0;
    while i < cs.len()
        invariant
            cs@ == t@,
            i <= cs.len(),
            s@ == old(s)@ + lowercase(cs@.take(i as int)),
        decreases cs.len() - i,
    {
        let c = cs[i];
        let l = if 'A' <= c && c <= 'Z' {
            ((c as u32) + 32) as u8 as char
        } else {
            c
        };
        push_char(s, l);
        i = i + 1;
        proof {
            assert(lowercase(cs@.take(i as int)) =~= lowercase(cs@.take(i - 1)).push(l));
        }
    }
    proof {
        assert(cs@.take(cs.len() as int) =~= t@);
    }
}

/// Appends the IDL string of `ty` to `s`.
fn push_idl_type_string(s: &mut String, ty: &TypeModel)
    ensures
        final(s)@ == old(s)@ + idl_type_string(*ty),
    decreases ty,
{
    match ty {
        TypeModel::Path { ident, generics } => {
            if is_primitive(ident.as_str()) {
                push_lowercase(s, ident.as_str());
            } else if str_eq(ident.as_str(), "Vec") {
                match generics {
                    GenericArgs::FirstType(inner) => {
                        s.append("vec<");
                        push_idl_type_string(s, &**inner);
                        s.append(">");
                    },
                    _ => {
                        s.append("vec<unknown>");
                    },
                }
            } else if str_eq(ident.as_str(), "Option") {
                match generics {
                    GenericArgs::FirstType(inner) => {
                        s.append("option<");
                        push_idl_type_string(s, &**inner);
                        s.append(">");
                    },
                    _ => {
                        s.append("option<unknown>");
                    },
                }
            } else if str_eq(ident.as_str(), "ProgramId") {
                s.append("program_id");
            } else {
                s.append(ident.as_str());
            }
        },
        TypeModel::Array { elem, len } => {
            s.append("[");
            push_idl_type_string(s, &**elem);
            match len {
                ArrayLen::IntLiteral(n) => {
                    s.append("; ");
                    s.append(n.as_str());
                    s.append("]");
                },
                ArrayLen::Other => {
                    s.append("; ?]");
                },
            }
        },
        TypeModel::Other => {
            s.append("unknown");
        },
    }
}

/// Converts a Rust type to its IDL type string.
pub fn rust_type_to_idl_string(ty: &TypeModel) -> (r: String)
    ensures
        r@ == idl_type_string(*ty),
{
    let mut s = String::new();
    push_idl_type_string(&mut s, ty);
    s
}

} // verus!
