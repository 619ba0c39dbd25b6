//! Entity instances: the values of an entity's fields, as the rules read
//! them.

use crate::identifier::{identifier_text, Identifier};
use crate::seqs::{join, joined, lemma_push_deep_view};
use crate::shape::TypeShape;
use vstd::prelude::*;
use vstd::string::*;
use vstd::utf8::*;

verus! {

/// A value whose structure is not inspected. It is described by the three
/// things that the rules read of it.
#[derive(Clone, Debug, PartialEq, Eq)]
pub struct Opaque {
    /// The value, written as text.
    pub text: String,
    /// Whether the value is the default of its type.
    pub is_default: bool,
    /// Whether the value is a container that holds nothing.
    pub is_empty: bool,
}

/// The mathematical value of an [`Opaque`].
pub struct OpaqueModel {
    pub text: Seq<char>,
    pub is_default: bool,
    pub is_empty: bool,
}

impl DeepView for Opaque {
    type V = OpaqueModel;

    open spec fn deep_view(&self) -> OpaqueModel {
        OpaqueModel { text: self.text@, is_default: self.is_default, is_empty: self.is_empty }
    }
}

impl View for Opaque {
    type V = OpaqueModel;

    open spec fn view(&self) -> OpaqueModel {
        self.deep_view()
    }
}

impl DeepView for Identifier {
    type V = Identifier;

    open spec fn deep_view(&self) -> Identifier {
        *self
    }
}

/// The value of one field of an instance. Each variant holds a value of the
/// type shape of the same name.
#[derive(Clone, Debug, PartialEq, Eq)]
pub enum FieldValue {
    Identifier(Identifier),
    OptionalIdentifier(Option<Identifier>),
    IdentifierCollection(Vec<Identifier>),
    Text(String),
    OptionalText(Option<String>),
    TextCollection(Vec<String>),
    OpaqueCollection(Vec<Opaque>),
    OpaqueOptional(Option<Opaque>),
    Opaque(Opaque),
}

/// The mathematical value of a [`FieldValue`].
pub enum ValueModel {
    Identifier(Identifier),
    OptionalIdentifier(Option<Identifier>),
    IdentifierCollection(Seq<Identifier>),
    Text(Seq<char>),
    OptionalText(Option<Seq<char>>),
    TextCollection(Seq<Seq<char>>),
    OpaqueCollection(Seq<OpaqueModel>),
    OpaqueOptional(Option<OpaqueModel>),
    Opaque(OpaqueModel),
}

impl DeepView for FieldValue {
    type V = ValueModel;

    open spec fn deep_view(&self) -> ValueModel {
        match self {
            FieldValue::Identifier(id) => ValueModel::Identifier(*id),
            FieldValue::OptionalIdentifier(id) => ValueModel::OptionalIdentifier(*id),
            FieldValue::IdentifierCollection(ids) => ValueModel::IdentifierCollection(ids@),
            FieldValue::Text(s) => ValueModel::Text(s@),
            FieldValue::OptionalText(s) => ValueModel::OptionalText(s.deep_view()),
            FieldValue::TextCollection(items) => ValueModel::TextCollection(items.deep_view()),
            FieldValue::OpaqueCollection(items) => ValueModel::OpaqueCollection(items.deep_view()),
            FieldValue::OpaqueOptional(item) => ValueModel::OpaqueOptional(item.deep_view()),
            FieldValue::Opaque(item) => ValueModel::Opaque(item.deep_view()),
        }
    }
}

impl View for FieldValue {
    type V = ValueModel;

    open spec fn view(&self) -> ValueModel {
        self.deep_view()
    }
}

/// The canonical texts of a sequence of identifiers.
pub open spec fn identifier_texts(ids: Seq<Identifier>) -> Seq<Seq<char>> {
    Seq::new(ids.len(), |i: int| identifier_text(ids[i].bits))
}

/// The texts of a sequence of opaque values.
pub open spec fn opaque_texts(items: Seq<OpaqueModel>) -> Seq<Seq<char>> {
    Seq::new(items.len(), |i: int| items[i].text)
}

impl ValueModel {
    /// The shape of the value.
    pub open spec fn shape(self) -> TypeShape {
        match self {
            ValueModel::Identifier(_) => TypeShape::Identifier,
            ValueModel::OptionalIdentifier(_) => TypeShape::OptionalIdentifier,
            ValueModel::IdentifierCollection(_) => TypeShape::IdentifierCollection,
            ValueModel::Text(_) => TypeShape::Text,
            ValueModel::OptionalText(_) => TypeShape::OptionalText,
            ValueModel::TextCollection(_) => TypeShape::TextCollection,
            ValueModel::OpaqueCollection(_) => TypeShape::OpaqueCollection,
            ValueModel::OpaqueOptional(_) => TypeShape::OpaqueOptional,
            ValueModel::Opaque(_) => TypeShape::Opaque,
        }
    }

    /// The value is a collection.
    pub open spec fn is_collection(self) -> bool {
        self is IdentifierCollection || self is TextCollection || self is OpaqueCollection
    }

    /// The texts of the values that the value holds: one for a scalar, one
    /// or none for an optional value, one for each element of a collection.
    pub open spec fn items(self) -> Seq<Seq<char>> {
        match self {
            ValueModel::Identifier(id) => seq![identifier_text(id.bits)],
            ValueModel::OptionalIdentifier(Some(id)) => seq![identifier_text(id.bits)],
            ValueModel::OptionalIdentifier(None) => Seq::empty(),
            ValueModel::IdentifierCollection(ids) => identifier_texts(ids),
            ValueModel::Text(s) => seq![s],
            ValueModel::OptionalText(Some(s)) => seq![s],
            ValueModel::OptionalText(None) => Seq::empty(),
            ValueModel::TextCollection(items) => items,
            ValueModel::OpaqueCollection(items) => opaque_texts(items),
            ValueModel::OpaqueOptional(Some(item)) => seq![item.text],
            ValueModel::OpaqueOptional(None) => Seq::empty(),
            ValueModel::Opaque(item) => seq![item.text],
        }
    }

    /// The value written as one text: the texts of its items, separated by
    /// commas.
    pub open spec fn text(self) -> Seq<char> {
        joined(self.items(), ","@)
    }

    /// The value is the default of its type: a nil identifier, an empty
    /// text, an absent optional value, an empty collection, or an opaque
    /// value that says so.
    pub open spec fn is_default(self) -> bool {
        match self {
            ValueModel::Identifier(id) => id.bits == 0,
            ValueModel::OptionalIdentifier(id) => id is None,
            ValueModel::IdentifierCollection(ids) => ids.len() == 0,
            ValueModel::Text(s) => s.len() == 0,
            ValueModel::OptionalText(s) => s is None,
            ValueModel::TextCollection(items) => items.len() == 0,
            ValueModel::OpaqueCollection(items) => items.len() == 0,
            ValueModel::OpaqueOptional(item) => item is None,
            ValueModel::Opaque(item) => item.is_default,
        }
    }

    /// The value holds nothing: an empty text, an empty collection, or an
    /// opaque container that says so.
    pub open spec fn is_empty(self) -> bool {
        match self {
            ValueModel::Text(s) => s.len() == 0,
            ValueModel::IdentifierCollection(ids) => ids.len() == 0,
            ValueModel::TextCollection(items) => items.len() == 0,
            ValueModel::OpaqueCollection(items) => items.len() == 0,
            ValueModel::Opaque(item) => item.is_empty,
            _ => false,
        }
    }

    /// The number of elements of a collection; of another value, nothing.
    pub open spec fn item_count(self) -> Option<nat> {
        match self {
            ValueModel::IdentifierCollection(ids) => Some(ids.len()),
            ValueModel::TextCollection(items) => Some(items.len()),
            ValueModel::OpaqueCollection(items) => Some(items.len()),
            _ => None,
        }
    }

    /// The length in bytes of a text that is present; of another value,
    /// nothing.
    pub open spec fn text_length(self) -> Option<nat> {
        match self {
            ValueModel::Text(s) => Some(encode_utf8(s).len()),
            ValueModel::OptionalText(Some(s)) => Some(encode_utf8(s).len()),
            _ => None,
        }
    }

    /// Two elements of a collection are equal.
    pub open spec fn has_duplicate(self) -> bool {
        match self {
            ValueModel::IdentifierCollection(ids) => repeats(ids),
            ValueModel::TextCollection(items) => repeats(items),
            ValueModel::OpaqueCollection(items) => repeats(items),
            _ => false,
        }
    }
}

/// An instance of an entity: the values of its fields, in the order in
/// which the schema declares them.
#[derive(Clone, Debug, PartialEq, Eq)]
pub struct Instance {
    pub values: Vec<FieldValue>,
}

impl DeepView for Instance {
    type V = Seq<ValueModel>;

    open spec fn deep_view(&self) -> Seq<ValueModel> {
        self.values.deep_view()
    }
}

impl View for Instance {
    type V = Seq<ValueModel>;

    open spec fn view(&self) -> Seq<ValueModel> {
        self.deep_view()
    }
}

/// The value at position `field`, if the instance has one there.
pub open spec fn value_at(values: Seq<ValueModel>, field: int) -> Option<ValueModel> {
    if 0 <= field < values.len() {
        Some(values[field])
    } else {
        None
    }
}

impl Instance {
    /// An instance with the given values.
    pub fn new(values: Vec<FieldValue>) -> (instance: Instance)
        ensures
            instance@ == values.deep_view(),
    {
        Instance { values }
    }

    /// The value at position `field`, if there is one.
    pub fn get(&self, field: usize) -> (value: Option<&FieldValue>)
        ensures
            value.deep_view() == value_at(self@, field as int),
    {
        if field < self.values.len() {
            Some(&self.values[field])
        } else {
            None
        }
    }
}

/// Two elements of `s` at different positions are equal.
pub open spec fn repeats<T>(s: Seq<T>) -> bool {
    exists|i: int, j: int| 0 <= i < j < s.len() && s[i] == s[j]
}

/// No element among the first `upto` of `s` occurs again after it.
pub open spec fn distinct_upto<T>(s: Seq<T>, upto: int) -> bool {
    forall|i: int, j: int| 0 <= i < upto && i < j < s.len() ==> s[i] != s[j]
}

impl Opaque {
    /// An opaque value that is not a container.
    pub fn scalar(text: &str, is_default: bool) -> (value: Opaque)
        ensures
            value@ == (OpaqueModel { text: text@, is_default, is_empty: false }),
    {
        Opaque { text: String::from_str(text), is_default, is_empty: false }
    }

    /// An opaque container, such as a map. It is the default of its type
    /// when it is empty.
    pub fn container(text: &str, is_empty: bool) -> (value: Opaque)
        ensures
            value@ == (OpaqueModel { text: text@, is_default: is_empty, is_empty }),
    {
        Opaque { text: String::from_str(text), is_default: is_empty, is_empty }
    }

    /// Tells whether two opaque values are described alike.
    pub fn same(&self, other: &Opaque) -> (same: bool)
        ensures
            same == (self@ == other@),
    {
        let same = self.text == other.text && self.is_default == other.is_default && self.is_empty
            == other.is_empty;
        assert(same == (self@ == other@));
        same
    }

    /// A copy of the value.
    pub fn duplicate(&self) -> (copy: Opaque)
        ensures
            copy@ == self@,
    {
        Opaque { text: self.text.clone(), is_default: self.is_default, is_empty: self.is_empty }
    }
}

fn identifiers_repeat(ids: &Vec<Identifier>) -> (found: bool)
    ensures
        found == repeats(ids@),
{
    let mut i: usize = 0;
    while i < ids.len()
        invariant
            i <= ids.len(),
            distinct_upto(ids@, i as int),
        decreases ids.len() - i,
    {
        let mut j: usize = i + 1;
        while j < ids.len()
            invariant
                i < j <= ids.len(),
                forall|k: int| i < k < j ==> ids@[i as int] != ids@[k],
            decreases ids.len() - j,
        {
            if ids[i] == ids[j] {
                return true;
            }
            j += 1;
        }
        i += 1;
    }
    false
}

fn texts_repeat(items: &Vec<String>) -> (found: bool)
    ensures
        found == repeats(items.deep_view()),
{
    let ghost model = items.deep_view();
    let mut i: usize = 0;
    while i < items.len()
        invariant
            i <= items.len(),
            model == items.deep_view(),
            distinct_upto(model, i as int),
        decreases items.len() - i,
    {
        let mut j: usize = i + 1;
        while j < items.len()
            invariant
                i < j <= items.len(),
                model == items.deep_view(),
                forall|k: int| i < k < j ==> model[i as int] != model[k],
            decreases items.len() - j,
        {
            if items[i] == items[j] {
                assert(model[i as int] == model[j as int]);
                return true;
            }
            j += 1;
        }
        i += 1;
    }
    false
}

fn opaques_repeat(items: &Vec<Opaque>) -> (found: bool)
    ensures
        found == repeats(items.deep_view()),
{
    let ghost model = items.deep_view();
    let mut i: usize = 0;
    while i < items.len()
        invariant
            i <= items.len(),
            model == items.deep_view(),
            distinct_upto(model, i as int),
        decreases items.len() - i,
    {
        let mut j: usize = i + 1;
        while j < items.len()
            invariant
                i < j <= items.len(),
                model == items.deep_view(),
                forall|k: int| i < k < j ==> model[i as int] != model[k],
            decreases items.len() - j,
        {
            if items[i].same(&items[j]) {
                assert(model[i as int] == model[j as int]);
                return true;
            }
            j += 1;
        }
        i += 1;
    }
    false
}

fn copy_texts(items: &Vec<String>) -> (copy: Vec<String>)
    ensures
        copy.deep_view() == items.deep_view(),
{
    let mut copy: Vec<String> = Vec::new();
    let mut i: usize = 0;
    while i < items.len()
        invariant
            i <= items.len(),
            copy.deep_view() == items.deep_view().take(i as int),
        decreases items.len() - i,
    {
        let item = items[i].clone();
        let ghost before = copy;
        let ghost pushed = item;
        copy.push(item);
        proof {
            lemma_push_deep_view(before, copy, pushed);
        }
        i += 1;
        assert(copy.deep_view() =~= items.deep_view().take(i as int));
    }
    assert(items.deep_view().take(i as int) =~= items.deep_view());
    copy
}

fn copy_identifiers(ids: &Vec<Identifier>) -> (copy: Vec<Identifier>)
    ensures
        copy@ == ids@,
{
    let mut copy: Vec<Identifier> = Vec::new();
    let mut i: usize = 0;
    while i < ids.len()
        invariant
            i <= ids.len(),
            copy@ == ids@.take(i as int),
        decreases ids.len() - i,
    {
        copy.push(ids[i]);
        i += 1;
        assert(copy@ =~= ids@.take(i as int));
    }
    assert(ids@.take(i as int) =~= ids@);
    copy
}

fn copy_opaques(items: &Vec<Opaque>) -> (copy: Vec<Opaque>)
    ensures
        copy.deep_view() == items.deep_view(),
{
    let mut copy: Vec<Opaque> = Vec::new();
    let mut i: usize = 0;
    while i < items.len()
        invariant
            i <= items.len(),
            copy.deep_view() == items.deep_view().take(i as int),
        decreases items.len() - i,
    {
        let item = items[i].duplicate();
        let ghost before = copy;
        let ghost pushed = item;
        copy.push(item);
        proof {
            lemma_push_deep_view(before, copy, pushed);
        }
        i += 1;
        assert(copy.deep_view() =~= items.deep_view().take(i as int));
    }
    assert(items.deep_view().take(i as int) =~= items.deep_view());
    copy
}

/// Writes each identifier in its canonical text.
pub fn texts_of_identifiers(ids: &Vec<Identifier>) -> (texts: Vec<String>)
    ensures
        texts.deep_view() == identifier_texts(ids@),
{
    let mut texts: Vec<String> = Vec::new();
    let mut i: usize = 0;
    while i < ids.len()
        invariant
            i <= ids.len(),
            texts.deep_view() == identifier_texts(ids@).take(i as int),
        decreases ids.len() - i,
    {
        let item = ids[i].to_text();
        let ghost before = texts;
        let ghost pushed = item;
        texts.push(item);
        proof {
            lemma_push_deep_view(before, texts, pushed);
        }
        i += 1;
        assert(texts.deep_view() =~= identifier_texts(ids@).take(i as int));
    }
    assert(identifier_texts(ids@).take(i as int) =~= identifier_texts(ids@));
    texts
}

fn texts_of_opaques(items: &Vec<Opaque>) -> (texts: Vec<String>)
    ensures
        texts.deep_view() == opaque_texts(items.deep_view()),
{
    let mut texts: Vec<String> = Vec::new();
    let mut i: usize = 0;
    while i < items.len()
        invariant
            i <= items.len(),
            texts.deep_view() == opaque_texts(items.deep_view()).take(i as int),
        decreases items.len() - i,
    {
        let item = items[i].text.clone();
        let ghost before = texts;
        let ghost pushed = item;
        texts.push(item);
        proof {
            lemma_push_deep_view(before, texts, pushed);
        }
        i += 1;
        assert(texts.deep_view() =~= opaque_texts(items.deep_view()).take(i as int));
    }
    assert(opaque_texts(items.deep_view()).take(i as int) =~= opaque_texts(items.deep_view()));
    texts
}

fn one_text(text: String) -> (texts: Vec<String>)
    ensures
        texts.deep_view() == seq![text@],
{
    let mut texts: Vec<String> = Vec::new();
    texts.push(text);
    assert(texts.deep_view() =~= seq![text@]);
    texts
}

fn no_text() -> (texts: Vec<String>)
    ensures
        texts.deep_view() == Seq::<Seq<char>>::empty(),
{
    let texts: Vec<String> = Vec::new();
    assert(texts.deep_view() =~= Seq::<Seq<char>>::empty());
    texts
}

impl FieldValue {
    /// The shape of the value.
    pub fn shape(&self) -> (shape: TypeShape)
        ensures
            shape == self@.shape(),
    {
        match self {
            FieldValue::Identifier(_) => TypeShape::Identifier,
            FieldValue::OptionalIdentifier(_) => TypeShape::OptionalIdentifier,
            FieldValue::IdentifierCollection(_) => TypeShape::IdentifierCollection,
            FieldValue::Text(_) => TypeShape::Text,
            FieldValue::OptionalText(_) => TypeShape::OptionalText,
            FieldValue::TextCollection(_) => TypeShape::TextCollection,
            FieldValue::OpaqueCollection(_) => TypeShape::OpaqueCollection,
            FieldValue::OpaqueOptional(_) => TypeShape::OpaqueOptional,
            FieldValue::Opaque(_) => TypeShape::Opaque,
        }
    }

    /// Tells whether the value is a collection.
    pub fn is_collection(&self) -> (yes: bool)
        ensures
            yes == self@.is_collection(),
    {
        match self {
            FieldValue::IdentifierCollection(_) => true,
            FieldValue::TextCollection(_) => true,
            FieldValue::OpaqueCollection(_) => true,
            _ => false,
        }
    }

    /// The texts of the values that the value holds.
    pub fn items(&self) -> (texts: Vec<String>)
        ensures
            texts.deep_view() == self@.items(),
    {
        match self {
            FieldValue::Identifier(id) => one_text(id.to_text()),
            FieldValue::OptionalIdentifier(Some(id)) => one_text(id.to_text()),
            FieldValue::OptionalIdentifier(None) => no_text(),
            FieldValue::IdentifierCollection(ids) => texts_of_identifiers(ids),
            FieldValue::Text(s) => one_text(s.clone()),
            FieldValue::OptionalText(Some(s)) => one_text(s.clone()),
            FieldValue::OptionalText(None) => no_text(),
            FieldValue::TextCollection(items) => copy_texts(items),
            FieldValue::OpaqueCollection(items) => texts_of_opaques(items),
            FieldValue::OpaqueOptional(Some(item)) => one_text(item.text.clone()),
            FieldValue::OpaqueOptional(None) => no_text(),
            FieldValue::Opaque(item) => one_text(item.text.clone()),
        }
    }

    /// Writes the value as one text.
    pub fn text(&self) -> (text: String)
        ensures
            text@ == self@.text(),
    {
        let items = self.items();
        join(&items, ",")
    }

    /// Tells whether the value is the default of its type.
    pub fn is_default(&self) -> (yes: bool)
        ensures
            yes == self@.is_default(),
    {
        match self {
            FieldValue::Identifier(id) => id.is_nil(),
            FieldValue::OptionalIdentifier(id) => id.is_none(),
            FieldValue::IdentifierCollection(ids) => ids.len() == 0,
            FieldValue::Text(s) => s.as_str().is_empty(),
            FieldValue::OptionalText(s) => s.is_none(),
            FieldValue::TextCollection(items) => items.len() == 0,
            FieldValue::OpaqueCollection(items) => items.len() == 0,
            FieldValue::OpaqueOptional(item) => item.is_none(),
            FieldValue::Opaque(item) => item.is_default,
        }
    }

    /// Tells whether the value holds nothing.
    pub fn is_empty(&self) -> (yes: bool)
        ensures
            yes == self@.is_empty(),
    {
        match self {
            FieldValue::Text(s) => s.as_str().is_empty(),
            FieldValue::IdentifierCollection(ids) => ids.len() == 0,
            FieldValue::TextCollection(items) => items.len() == 0,
            FieldValue::OpaqueCollection(items) => items.len() == 0,
            FieldValue::Opaque(item) => item.is_empty,
            _ => false,
        }
    }

    /// The number of elements of a collection.
    pub fn item_count(&self) -> (count: Option<usize>)
        ensures
            match count {
                Some(n) => self@.item_count() == Some(n as nat),
                None => self@.item_count() is None,
            },
    {
        match self {
            FieldValue::IdentifierCollection(ids) => Some(ids.len()),
            FieldValue::TextCollection(items) => Some(items.len()),
            FieldValue::OpaqueCollection(items) => Some(items.len()),
            _ => None,
        }
    }

    /// The length in bytes of a text that is present.
    pub fn text_length(&self) -> (length: Option<usize>)
        ensures
            match length {
                Some(n) => self@.text_length() == Some(n as nat),
                None => self@.text_length() is None,
            },
    {
        match self {
            FieldValue::Text(s) => Some(s.as_str().as_bytes().len()),
            FieldValue::OptionalText(Some(s)) => Some(s.as_str().as_bytes().len()),
            _ => None,
        }
    }

    /// Tells whether two elements of a collection are equal.
    pub fn has_duplicate(&self) -> (yes: bool)
        ensures
            yes == self@.has_duplicate(),
    {
        match self {
            FieldValue::IdentifierCollection(ids) => identifiers_repeat(ids),
            FieldValue::TextCollection(items) => texts_repeat(items),
            FieldValue::OpaqueCollection(items) => opaques_repeat(items),
            _ => false,
        }
    }

    /// A copy of the value.
    pub fn duplicate(&self) -> (copy: FieldValue)
        ensures
            copy@ == self@,
    {
        match self {
            FieldValue::Identifier(id) => FieldValue::Identifier(*id),
            FieldValue::OptionalIdentifier(id) => FieldValue::OptionalIdentifier(*id),
            FieldValue::IdentifierCollection(ids) => FieldValue::IdentifierCollection(
                copy_identifiers(ids),
            ),
            FieldValue::Text(s) => FieldValue::Text(s.clone()),
            FieldValue::OptionalText(Some(s)) => FieldValue::OptionalText(Some(s.clone())),
            FieldValue::OptionalText(None) => FieldValue::OptionalText(None),
            FieldValue::TextCollection(items) => FieldValue::TextCollection(copy_texts(items)),
            FieldValue::OpaqueCollection(items) => FieldValue::OpaqueCollection(
                copy_opaques(items),
            ),
            FieldValue::OpaqueOptional(Some(item)) => FieldValue::OpaqueOptional(
                Some(item.duplicate()),
            ),
            FieldValue::OpaqueOptional(None) => FieldValue::OpaqueOptional(None),
            FieldValue::Opaque(item) => FieldValue::Opaque(item.duplicate()),
        }
    }
}

} // verus!
