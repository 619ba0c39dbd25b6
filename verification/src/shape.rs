//! The type classifier: from the declared name of a field's type to its
//! semantic shape.

use crate::text::text_eq;
use vstd::prelude::*;
use vstd::string::*;

verus! {

/// The semantic shape of a field's value type. It selects the strategy of
/// every synthesizer.
#[derive(Clone, Copy, Debug, PartialEq, Eq, Structural, Hash)]
pub enum TypeShape {
    /// A surrogate key.
    Identifier,
    /// A surrogate key that may be absent.
    OptionalIdentifier,
    /// A sequence of surrogate keys.
    IdentifierCollection,
    /// A string.
    Text,
    /// A string that may be absent.
    OptionalText,
    /// A sequence of strings.
    TextCollection,
    /// Any other sequence.
    OpaqueCollection,
    /// Any other value that may be absent.
    OpaqueOptional,
    /// Any other scalar.
    Opaque,
}

/// `name` is `wrapper`, an opening angle bracket, at least one more
/// character, and ends in a closing angle bracket.
pub open spec fn wraps(name: Seq<char>, wrapper: Seq<char>) -> bool {
    &&& name.len() >= wrapper.len() + 2
    &&& name.subrange(0, wrapper.len() as int) == wrapper
    &&& name[wrapper.len() as int] == '<'
    &&& name.last() == '>'
}

/// The shape that a declared type name stands for. The classification reads
/// the name only.
pub open spec fn shape_of(name: Seq<char>) -> TypeShape {
    if name == "Uuid"@ {
        TypeShape::Identifier
    } else if name == "Option<Uuid>"@ {
        TypeShape::OptionalIdentifier
    } else if name == "Vec<Uuid>"@ {
        TypeShape::IdentifierCollection
    } else if name == "String"@ {
        TypeShape::Text
    } else if name == "Option<String>"@ {
        TypeShape::OptionalText
    } else if name == "Vec<String>"@ {
        TypeShape::TextCollection
    } else if wraps(name, "Vec"@) {
        TypeShape::OpaqueCollection
    } else if wraps(name, "Option"@) {
        TypeShape::OpaqueOptional
    } else {
        TypeShape::Opaque
    }
}

impl TypeShape {
    /// The shape is one of the three collection shapes.
    pub open spec fn spec_is_collection(&self) -> bool {
        *self == TypeShape::IdentifierCollection || *self == TypeShape::TextCollection || *self
            == TypeShape::OpaqueCollection
    }

    /// The shape is one of the three collection shapes.
    #[verifier::when_used_as_spec(spec_is_collection)]
    pub fn is_collection(&self) -> (yes: bool)
        ensures
            yes == self.spec_is_collection(),
    {
        match self {
            TypeShape::IdentifierCollection | TypeShape::TextCollection | TypeShape::OpaqueCollection => true,
            _ => false,
        }
    }
}

/// Tells whether a type name applies `wrapper` to one type argument.
pub fn is_wrapped(name: &str, wrapper: &str) -> (yes: bool)
    ensures
        yes == wraps(name@, wrapper@),
{
    let n = name.unicode_len();
    let w = wrapper.unicode_len();
    if w >= usize::MAX - 1 || n < w + 2 {
        return false;
    }
    let mut i: usize = 0;
    while i < w
        invariant
            i <= w,
            w == wrapper@.len(),
            n == name@.len(),
            n >= w + 2,
            forall|k: int| 0 <= k < i ==> name@[k] == wrapper@[k],
        decreases w - i,
    {
        if name.get_char(i) != wrapper.get_char(i) {
            assert(name@.subrange(0, w as int)[i as int] != wrapper@[i as int]);
            return false;
        }
        i += 1;
    }
    assert(name@.subrange(0, w as int) =~= wrapper@);
    name.get_char(w) == '<' && name.get_char(n - 1) == '>'
}

/// Classifies a declared type name.
pub fn classify(name: &str) -> (shape: TypeShape)
    ensures
        shape == shape_of(name@),
{
    if text_eq(name, "Uuid") {
        TypeShape::Identifier
    } else if text_eq(name, "Option<Uuid>") {
        TypeShape::OptionalIdentifier
    } else if text_eq(name, "Vec<Uuid>") {
        TypeShape::IdentifierCollection
    } else if text_eq(name, "String") {
        TypeShape::Text
    } else if text_eq(name, "Option<String>") {
        TypeShape::OptionalText
    } else if text_eq(name, "Vec<String>") {
        TypeShape::TextCollection
    } else if is_wrapped(name, "Vec") {
        TypeShape::OpaqueCollection
    } else if is_wrapped(name, "Option") {
        TypeShape::OpaqueOptional
    } else {
        TypeShape::Opaque
    }
}

} // verus!
