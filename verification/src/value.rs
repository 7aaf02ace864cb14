//! The model of a runtime value, and its classification.
//!
//! The scripting runtime's own handles are opaque; this crate works on a
//! plain-data model of what the formatter reads from such a handle: the
//! built-in category tag, the result of the typed-numeric-view probe, the
//! enumerable properties in enumeration order, and the text that the
//! category-specific sibling renderer (or, for unclassifiable values, the
//! runtime's own stringification) produces for it.

use vstd::prelude::*;

verus! {

/// The closed set of built-in categories a runtime value can belong to.
///
/// Classification is total: every value maps to exactly one category, with
/// `Other` and `Unclassified` as the catch-alls.
#[derive(Clone, Copy, PartialEq, Eq, Structural, Debug)]
pub enum Category {
    /// A boxed boolean primitive.
    Boolean,
    /// A boxed number primitive.
    Number,
    /// A boxed string primitive.
    Str,
    /// A boxed big-integer primitive.
    BigInt,
    Array,
    Date,
    Promise,
    RegExp,
    Function,
    ArrayBuffer,
    Error,
    /// An ordinary key/value object.
    Object,
    /// A built-in shape none of the above names; probed for a typed
    /// numeric view before falling back to the generic object renderer.
    Other,
    /// A value no category claims; rendered by the runtime's own
    /// stringification as the unconditional last resort.
    Unclassified,
}

/// The closed set of element shapes a typed numeric view can carry:
/// signed and unsigned 8/16/32-bit integers, 32/64-bit floats, and
/// clamped 8-bit.
#[derive(Clone, Copy, PartialEq, Eq, Structural, Debug)]
pub enum ElementKind {
    Int8,
    Uint8,
    Int16,
    Uint16,
    Int32,
    Uint32,
    Float32,
    Float64,
    Uint8Clamped,
}

/// One enumerable property of an object: the key, already rendered by the
/// key formatter, and the property's value.
pub struct Entry {
    /// The key's textual form (quoting is the key formatter's concern).
    pub key: String,
    /// The property's value.
    pub value: Value,
}

/// The plain-data model of one runtime value.
pub struct Value {
    /// The built-in category tag the runtime reports for the value.
    pub class: Category,
    /// What the typed-numeric-view probe yields: the element kind of the
    /// view the value exposes, if it exposes one.
    pub typed_view: Option<ElementKind>,
    /// The value's enumerable properties, in enumeration order.
    pub entries: Vec<Entry>,
    /// The text the category-specific sibling renderer produces for this
    /// value (for `Unclassified`, the runtime's own textual form).
    pub rendered: String,
}

/// Maps a runtime value to its built-in category. Total: every value maps
/// to exactly one category; the value is not mutated or consumed.
pub fn classify(value: &Value) -> (c: Category)
    ensures
        c == value.class,
{
    value.class
}

} // verus!
