use vstd::prelude::*;

use crate::error::AssociationType;

verus! {

/// A Rust type as written in a struct definition.
#[derive(Debug)]
pub struct RustType {
    /// The type as it is written in the source.
    pub text: String,
    /// The segments of the path, when the type is a path such as `HasOne<Box<Country>>`.
    pub path: Option<Vec<PathSegment>>,
}

/// One segment of a type path, such as `HasOne<Country>` in `juniper_eager_loading::HasOne<Country>`.
#[derive(Debug)]
pub struct PathSegment {
    /// The name of the segment.
    pub ident: String,
    /// What follows the name.
    pub arguments: PathArguments,
}

/// What follows the name of a path segment.
#[derive(Debug)]
pub enum PathArguments {
    /// Nothing follows the name.
    Empty,
    /// Generic arguments in angle brackets, such as `<Country>`.
    AngleBracketed(Vec<GenericArgument>),
    /// Arguments in parentheses, such as `(i32) -> bool`.
    Parenthesized,
}

/// One generic argument of a path segment.
#[derive(Debug)]
pub enum GenericArgument {
    /// A type argument.
    Type(RustType),
    /// A lifetime, constant or binding.
    Other,
}

/// The name of the last segment of a path type.
pub open spec fn last_ident_spec(ty: RustType) -> Option<Seq<char>> {
    match ty.path {
        Some(segments) => if segments@.len() > 0 {
            Some(segments@.last().ident@)
        } else {
            None
        },
        None => None,
    }
}

/// The association that a type names by the last segment of its path.
pub open spec fn association_type_spec(ty: RustType) -> Option<AssociationType> {
    match last_ident_spec(ty) {
        Some(name) => if name == "OptionHasOne"@ {
            Some(AssociationType::OptionHasOne)
        } else if name == "HasManyThrough"@ {
            Some(AssociationType::HasManyThrough)
        } else if name == "HasMany"@ {
            Some(AssociationType::HasMany)
        } else if name == "HasOne"@ {
            Some(AssociationType::HasOne)
        } else {
            None
        },
        None => None,
    }
}

/// The last generic type argument of the last segment of a path type.
pub open spec fn last_type_argument_spec(ty: RustType) -> Option<RustType> {
    match ty.path {
        Some(segments) => if segments@.len() > 0 {
            match segments@.last().arguments {
                PathArguments::AngleBracketed(args) => if args@.len() > 0 {
                    match args@.last() {
                        GenericArgument::Type(inner) => Some(inner),
                        GenericArgument::Other => None,
                    }
                } else {
                    None
                },
                _ => None,
            }
        } else {
            None
        },
        None => None,
    }
}

/// `T` for `Box<T>`, and the type itself otherwise.
pub open spec fn remove_box_spec(ty: RustType) -> RustType {
    if last_ident_spec(ty) == Some("Box"@) {
        match last_type_argument_spec(ty) {
            Some(inner) => inner,
            None => ty,
        }
    } else {
        ty
    }
}

/// The type of the values an association field holds, with a `Box` around it removed.
pub open spec fn type_from_association_spec(ty: RustType) -> Option<RustType> {
    if association_type_spec(ty) is None {
        None
    } else {
        match last_type_argument_spec(ty) {
            Some(inner) => Some(remove_box_spec(inner)),
            None => None,
        }
    }
}

/// Does `ident` read `name`?
pub fn is_named(ident: &String, name: &str) -> (r: bool)
    ensures
        r == (ident@ == name@),
{
    let name = String::from_str(name);
    *ident == name
}

/// The name of the last segment of a path type.
pub fn last_ident_in_type_segment(ty: &RustType) -> (r: Option<&String>)
    ensures
        match r {
            Some(ident) => last_ident_spec(*ty) == Some(ident@),
            None => last_ident_spec(*ty) is None,
        },
{
    match &ty.path {
        Some(segments) => if segments.len() > 0 {
            Some(&segments[segments.len() - 1].ident)
        } else {
            None
        },
        None => None,
    }
}

/// The association that a type names by the last segment of its path.
pub fn association_type(ty: &RustType) -> (r: Option<AssociationType>)
    ensures
        r == association_type_spec(*ty),
{
    let ident = match last_ident_in_type_segment(ty) {
        Some(ident) => ident,
        None => return None,
    };
    proof {
        reveal_strlit("OptionHasOne");
        reveal_strlit("HasManyThrough");
        reveal_strlit("HasMany");
        reveal_strlit("HasOne");
    }
    if is_named(ident, "OptionHasOne") {
        return Some(AssociationType::OptionHasOne);
    }
    if is_named(ident, "HasManyThrough") {
        return Some(AssociationType::HasManyThrough);
    }
    if is_named(ident, "HasMany") {
        return Some(AssociationType::HasMany);
    }
    if is_named(ident, "HasOne") {
        return Some(AssociationType::HasOne);
    }
    None
}

/// Is a field of this type an association?
pub fn is_association_field(ty: &RustType) -> (r: bool)
    ensures
        r == association_type_spec(*ty) is Some,
{
    association_type(ty).is_some()
}

/// The last generic type argument of the last segment of a path type.
fn last_type_argument(ty: &RustType) -> (r: Option<&RustType>)
    ensures
        match r {
            Some(inner) => last_type_argument_spec(*ty) == Some(*inner),
            None => last_type_argument_spec(*ty) is None,
        },
{
    let segments = match &ty.path {
        Some(segments) => segments,
        None => return None,
    };
    if segments.len() == 0 {
        return None;
    }
    let args = match &segments[segments.len() - 1].arguments {
        PathArguments::AngleBracketed(args) => args,
        _ => return None,
    };
    if args.len() == 0 {
        return None;
    }
    match &args[args.len() - 1] {
        GenericArgument::Type(inner) => Some(inner),
        GenericArgument::Other => None,
    }
}

/// `T` for `Box<T>`, and the type itself otherwise.
pub fn remove_possible_box_wrapper(ty: &RustType) -> (r: &RustType)
    ensures
        *r == remove_box_spec(*ty),
{
    let is_box = match last_ident_in_type_segment(ty) {
        Some(ident) => {
            proof {
                reveal_strlit("Box");
            }
            is_named(ident, "Box")
        },
        None => false,
    };
    if is_box {
        match last_type_argument(ty) {
            Some(inner) => inner,
            None => ty,
        }
    } else {
        ty
    }
}

/// The type of the values an association field holds, with a `Box` around it removed: `Country`
/// for both `HasOne<Country>` and `HasOne<Box<Country>>`.
pub fn get_type_from_association(ty: &RustType) -> (r: Option<&RustType>)
    ensures
        match r {
            Some(inner) => type_from_association_spec(*ty) == Some(*inner),
            None => type_from_association_spec(*ty) is None,
        },
{
    if !is_association_field(ty) {
        return None;
    }
    match last_type_argument(ty) {
        Some(inner) => Some(remove_possible_box_wrapper(inner)),
        None => None,
    }
}


/// Is `r` what `get_type_from_association` may return for `ty`?
pub open spec fn type_from_association_result(ty: RustType, r: Option<RustType>) -> bool {
    match r {
        Some(inner) => type_from_association_spec(ty) == Some(inner),
        None => type_from_association_spec(ty) is None,
    }
}

/// For every kind of association, the child type of `A<Box<T>>` is `T`: the `Box` around the
/// child type is removed whatever the association.
pub proof fn lemma_child_type_unboxed(ty: RustType, boxed: RustType, inner: RustType, r: Option<RustType>)
    requires
        type_from_association_result(ty, r),
        association_type_spec(ty) is Some,
        last_type_argument_spec(ty) == Some(boxed),
        last_ident_spec(boxed) == Some("Box"@),
        last_type_argument_spec(boxed) == Some(inner),
    ensures
        r == Some(inner),
{
}

/// The child type of `A<Box<T>>` is the child type of `A<T>`, for every association `A` and every
/// `T` that is not itself a `Box`.
pub proof fn lemma_boxed_child_type_is_the_child_type(
    boxed_ty: RustType,
    plain_ty: RustType,
    boxed: RustType,
    r_boxed: Option<RustType>,
    r_plain: Option<RustType>,
)
    requires
        type_from_association_result(boxed_ty, r_boxed),
        type_from_association_result(plain_ty, r_plain),
        association_type_spec(boxed_ty) is Some,
        association_type_spec(plain_ty) == association_type_spec(boxed_ty),
        last_type_argument_spec(boxed_ty) == Some(boxed),
        last_ident_spec(boxed) == Some("Box"@),
        last_type_argument_spec(boxed) == last_type_argument_spec(plain_ty),
        last_type_argument_spec(plain_ty) matches Some(t) && last_ident_spec(t) != Some("Box"@),
    ensures
        r_boxed == r_plain,
        r_plain == last_type_argument_spec(plain_ty),
{
}

} // verus!
