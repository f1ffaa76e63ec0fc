//! The C types that declarations carry.
use vstd::prelude::*;

verus! {

/// A C type.
#[derive(Debug, PartialEq)]
pub enum T {
    Char,
    SChar,
    UChar,
    Int,
    Long,
    UInt,
    ULong,
    Double,
    Pointer(Box<T>),
    Void,
    Array { typ: Box<T>, size: i64 },
    FunType {  },
    Structure(String),
}

/// The mathematical value of a [`T`].
pub enum TView {
    Char,
    SChar,
    UChar,
    Int,
    Long,
    UInt,
    ULong,
    Double,
    Pointer(Box<TView>),
    Void,
    Array { typ: Box<TView>, size: i64 },
    FunType,
    Structure(Seq<char>),
}

/// The value of a type, with the tag of a structure as a sequence of characters.
pub open spec fn type_view(t: T) -> TView
    decreases t,
{
    match t {
        T::Char => TView::Char,
        T::SChar => TView::SChar,
        T::UChar => TView::UChar,
        T::Int => TView::Int,
        T::Long => TView::Long,
        T::UInt => TView::UInt,
        T::ULong => TView::ULong,
        T::Double => TView::Double,
        T::Pointer(inner) => TView::Pointer(Box::new(type_view(*inner))),
        T::Void => TView::Void,
        T::Array { typ, size } => TView::Array { typ: Box::new(type_view(*typ)), size },
        T::FunType {  } => TView::FunType,
        T::Structure(tag) => TView::Structure(tag@),
    }
}

impl View for T {
    type V = TView;

    open spec fn view(&self) -> TView {
        type_view(*self)
    }
}

impl DeepView for T {
    type V = TView;

    open spec fn deep_view(&self) -> TView {
        type_view(*self)
    }
}

impl Clone for T {
    fn clone(&self) -> (copy: T)
        ensures
            copy == *self,
        decreases self,
    {
        match self {
            T::Char => T::Char,
            T::SChar => T::SChar,
            T::UChar => T::UChar,
            T::Int => T::Int,
            T::Long => T::Long,
            T::UInt => T::UInt,
            T::ULong => T::ULong,
            T::Double => T::Double,
            T::Pointer(inner) => {
                let target: &T = inner;
                T::Pointer(Box::new(target.clone()))
            },
            T::Void => T::Void,
            T::Array { typ, size } => {
                let element: &T = typ;
                T::Array { typ: Box::new(element.clone()), size: *size }
            },
            T::FunType {  } => T::FunType {  },
            T::Structure(tag) => T::Structure(tag.clone()),
        }
    }
}

} // verus!
