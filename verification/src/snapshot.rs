//! The snapshot synthesizer: which fields enter the audit snapshot of an
//! entity, how each is written there, and the query that reads back those
//! columns only.

use crate::accessor::{role_of, Role};
use crate::identifier::identifier_text;
use crate::schema::{AttributeKind, AttributeModel, EntitySchema, FieldModel, FieldSchema, SchemaModel};
use crate::seqs::{gather, lemma_gather_ends, lemma_gather_step, lemma_push_deep_view, lemma_set_deep_view};
use crate::shape::TypeShape;
use crate::text::text_eq;
use crate::value::{identifier_texts, texts_of_identifiers, value_at, FieldValue, Instance, ValueModel};
use vstd::prelude::*;
use vstd::string::*;

verus! {

/// How a field's value is written into a snapshot.
#[derive(Clone, Copy, Debug, PartialEq, Eq, Structural, Hash)]
pub enum Rendering {
    /// An identifier is written as its text.
    Stringify,
    /// An identifier that is present is written as its text; one that is
    /// absent is written as absent.
    StringifyIfPresent,
    /// Each identifier of a collection is written as its text.
    StringifyEach,
    /// The value is copied as it is.
    Verbatim,
}

/// The rendering that a shape calls for.
pub open spec fn rendering_of(shape: TypeShape) -> Rendering {
    match shape {
        TypeShape::Identifier => Rendering::Stringify,
        TypeShape::OptionalIdentifier => Rendering::StringifyIfPresent,
        TypeShape::IdentifierCollection => Rendering::StringifyEach,
        _ => Rendering::Verbatim,
    }
}

impl Rendering {
    /// The rendering that a shape calls for.
    pub fn for_shape(shape: TypeShape) -> (rendering: Rendering)
        ensures
            rendering == rendering_of(shape),
    {
        match shape {
            TypeShape::Identifier => Rendering::Stringify,
            TypeShape::OptionalIdentifier => Rendering::StringifyIfPresent,
            TypeShape::IdentifierCollection => Rendering::StringifyEach,
            _ => Rendering::Verbatim,
        }
    }
}

/// One entry of the snapshot builder: the value of the field at position
/// `field` is written under `key`.
#[derive(Clone, Debug, PartialEq, Eq)]
pub struct SnapshotEntry {
    pub key: String,
    pub field: usize,
    pub rendering: Rendering,
}

/// The mathematical value of a [`SnapshotEntry`].
pub struct EntryModel {
    pub key: Seq<char>,
    pub field: int,
    pub rendering: Rendering,
}

impl DeepView for SnapshotEntry {
    type V = EntryModel;

    open spec fn deep_view(&self) -> EntryModel {
        EntryModel { key: self.key@, field: self.field as int, rendering: self.rendering }
    }
}

impl View for SnapshotEntry {
    type V = EntryModel;

    open spec fn view(&self) -> EntryModel {
        self.deep_view()
    }
}

/// The field enters the snapshot by its role, without being tagged: it is
/// the timestamp of the last update or the version counter, whatever its
/// type is declared as.
pub open spec fn implicit_snapshot(field: FieldModel) -> bool {
    ||| role_of(field.role_name()) == Some(Role::UpdatedAt)
    ||| role_of(field.role_name()) == Some(Role::Version)
}

/// The entry of the field at position `index`.
pub open spec fn entry_of(index: int, field: FieldModel) -> EntryModel {
    EntryModel { key: field.name, field: index, rendering: rendering_of(field.shape()) }
}

/// What one attribute contributes to the snapshot entries of its field: an
/// entry, if it is the snapshot tag.
pub open spec fn tagged_entry(index: int, field: FieldModel) -> spec_fn(int, AttributeModel) -> Seq<
    EntryModel,
> {
    |j: int, attribute: AttributeModel|
        if attribute.kind == AttributeKind::Snapshot {
            seq![entry_of(index, field)]
        } else {
            Seq::empty()
        }
}

/// The entry that a field contributes by its role, if it is not the
/// primary key.
pub open spec fn implicit_entry(key: int, index: int, field: FieldModel) -> Seq<EntryModel> {
    if index != key && implicit_snapshot(field) {
        seq![entry_of(index, field)]
    } else {
        Seq::empty()
    }
}

/// What one field contributes to the snapshot entries of an entity whose
/// primary key stands at `key`.
pub open spec fn each_entry(key: int) -> spec_fn(int, FieldModel) -> Seq<EntryModel> {
    |i: int, field: FieldModel|
        gather(field.attributes, tagged_entry(i, field)) + implicit_entry(key, i, field)
}

/// The entries of the snapshot fields: the tagged fields and the two
/// implicit ones, in declaration order.
pub open spec fn field_entries(schema: SchemaModel) -> Seq<EntryModel> {
    gather(schema.fields, each_entry(schema.primary_key()))
}

/// The entries of the snapshot builder: the primary key first, then the
/// snapshot fields.
pub open spec fn entries_of(schema: SchemaModel) -> Seq<EntryModel> {
    seq![entry_of(schema.primary_key(), schema.fields[schema.primary_key()])] + field_entries(
        schema,
    )
}

/// The keys of a sequence of entries.
pub open spec fn keys_of(entries: Seq<EntryModel>) -> Seq<Seq<char>> {
    Seq::new(entries.len(), |i: int| entries[i].key)
}

/// The snapshot field set of an entity: the names of its snapshot fields.
pub open spec fn snapshot_fields(schema: SchemaModel) -> Seq<Seq<char>> {
    keys_of(field_entries(schema))
}

/// The columns of the default snapshot query: the primary key, then the
/// snapshot fields.
pub open spec fn snapshot_columns(schema: SchemaModel) -> Seq<Seq<char>> {
    keys_of(entries_of(schema))
}

/// The columns of the default snapshot query are the primary key and the
/// snapshot field set, and nothing else, in whatever order they are read.
pub proof fn lemma_snapshot_columns(schema: SchemaModel)
    requires
        schema.valid(),
    ensures
        snapshot_columns(schema).to_set() == snapshot_fields(schema).to_set().insert(
            schema.fields[schema.primary_key()].name,
        ),
{
    let columns = snapshot_columns(schema);
    let fields = snapshot_fields(schema);
    let key = schema.fields[schema.primary_key()].name;
    assert(columns =~= seq![key] + fields);
    assert forall|name: Seq<char>| columns.to_set().contains(name) <==> fields.to_set().insert(
        key,
    ).contains(name) by {
        if columns.contains(name) {
            let i = choose|i: int| 0 <= i < columns.len() && columns[i] == name;
            if i > 0 {
                assert(fields[i - 1] == name);
            }
        }
        if fields.contains(name) {
            let i = choose|i: int| 0 <= i < fields.len() && fields[i] == name;
            assert(columns[i + 1] == name);
        }
        if name == key {
            assert(columns[0] == name);
        }
    }
    assert(columns.to_set() =~= fields.to_set().insert(key));
}

/// A query restricted to a list of columns.
#[derive(Clone, Debug, PartialEq, Eq)]
pub struct Query {
    pub columns: Vec<String>,
}

impl DeepView for Query {
    type V = Seq<Seq<char>>;

    open spec fn deep_view(&self) -> Seq<Seq<char>> {
        self.columns.deep_view()
    }
}

impl View for Query {
    type V = Seq<Seq<char>>;

    open spec fn view(&self) -> Seq<Seq<char>> {
        self.deep_view()
    }
}

/// A value in a snapshot.
#[derive(Clone, Debug, PartialEq, Eq)]
pub enum SnapshotValue {
    /// No value.
    Absent,
    /// The text of an identifier.
    Text(String),
    /// The texts of a collection of identifiers.
    Texts(Vec<String>),
    /// A value copied as it is.
    Verbatim(FieldValue),
}

/// The mathematical value of a [`SnapshotValue`].
pub enum SnapshotValueModel {
    Absent,
    Text(Seq<char>),
    Texts(Seq<Seq<char>>),
    Verbatim(ValueModel),
}

impl DeepView for SnapshotValue {
    type V = SnapshotValueModel;

    open spec fn deep_view(&self) -> SnapshotValueModel {
        match self {
            SnapshotValue::Absent => SnapshotValueModel::Absent,
            SnapshotValue::Text(s) => SnapshotValueModel::Text(s@),
            SnapshotValue::Texts(items) => SnapshotValueModel::Texts(items.deep_view()),
            SnapshotValue::Verbatim(value) => SnapshotValueModel::Verbatim(value@),
        }
    }
}

impl View for SnapshotValue {
    type V = SnapshotValueModel;

    open spec fn view(&self) -> SnapshotValueModel {
        self.deep_view()
    }
}

/// One item of a snapshot: a key and the value written under it.
#[derive(Clone, Debug, PartialEq, Eq)]
pub struct SnapshotItem {
    pub key: String,
    pub value: SnapshotValue,
}

/// The mathematical value of a [`SnapshotItem`].
pub struct ItemModel {
    pub key: Seq<char>,
    pub value: SnapshotValueModel,
}

impl DeepView for SnapshotItem {
    type V = ItemModel;

    open spec fn deep_view(&self) -> ItemModel {
        ItemModel { key: self.key@, value: self.value@ }
    }
}

impl View for SnapshotItem {
    type V = ItemModel;

    open spec fn view(&self) -> ItemModel {
        self.deep_view()
    }
}

/// A value as a rendering writes it. A rendering that does not fit the
/// value copies it; a field without value is written as absent.
pub open spec fn rendered(rendering: Rendering, value: Option<ValueModel>) -> SnapshotValueModel {
    match value {
        None => SnapshotValueModel::Absent,
        Some(v) => match (rendering, v) {
            (Rendering::Stringify, ValueModel::Identifier(id)) => SnapshotValueModel::Text(
                identifier_text(id.bits),
            ),
            (
                Rendering::StringifyIfPresent,
                ValueModel::OptionalIdentifier(Some(id)),
            ) => SnapshotValueModel::Text(identifier_text(id.bits)),
            (
                Rendering::StringifyIfPresent,
                ValueModel::OptionalIdentifier(None),
            ) => SnapshotValueModel::Absent,
            (
                Rendering::StringifyEach,
                ValueModel::IdentifierCollection(ids),
            ) => SnapshotValueModel::Texts(identifier_texts(ids)),
            _ => SnapshotValueModel::Verbatim(v),
        },
    }
}

/// The item that an entry writes for an instance.
pub open spec fn item_of(entry: EntryModel, values: Seq<ValueModel>) -> ItemModel {
    ItemModel { key: entry.key, value: rendered(entry.rendering, value_at(values, entry.field)) }
}

/// The position of the item with the given key, if there is one.
pub open spec fn key_position(items: Seq<ItemModel>, key: Seq<char>) -> Option<int>
    decreases items.len(),
{
    if items.len() == 0 {
        None
    } else {
        match key_position(items.drop_last(), key) {
            Some(i) => Some(i),
            None => if items.last().key == key {
                Some(items.len() - 1)
            } else {
                None
            },
        }
    }
}

/// The snapshot with one more item written: under a key that the snapshot
/// has, the value is replaced where it stands; a new key goes to the end.
pub open spec fn upserted(items: Seq<ItemModel>, item: ItemModel) -> Seq<ItemModel> {
    match key_position(items, item.key) {
        Some(i) => items.update(i, item),
        None => items.push(item),
    }
}

/// The snapshot that the entries build for an instance, written entry by
/// entry.
pub open spec fn snapshot_of(entries: Seq<EntryModel>, values: Seq<ValueModel>) -> Seq<ItemModel>
    decreases entries.len(),
{
    if entries.len() == 0 {
        Seq::empty()
    } else {
        upserted(snapshot_of(entries.drop_last(), values), item_of(entries.last(), values))
    }
}

/// The snapshot has an item under the key.
pub open spec fn has_key(items: Seq<ItemModel>, key: Seq<char>) -> bool {
    exists|i: int| 0 <= i < items.len() && (#[trigger] items[i]).key == key
}

/// Where a key is found, it is found at its first occurrence; where it is
/// not found, no item has it.
pub proof fn lemma_key_position(items: Seq<ItemModel>, key: Seq<char>)
    ensures
        match key_position(items, key) {
            Some(i) => 0 <= i < items.len() && items[i].key == key && forall|j: int|
                0 <= j < i ==> (#[trigger] items[j]).key != key,
            None => !has_key(items, key),
        },
    decreases items.len(),
{
    if items.len() > 0 {
        lemma_key_position(items.drop_last(), key);
        let head = items.drop_last();
        match key_position(head, key) {
            Some(i) => {
                assert(head[i] == items[i]);
                assert forall|j: int| 0 <= j < i implies (#[trigger] items[j]).key != key by {
                    assert(head[j] == items[j]);
                }
            },
            None => {
                assert forall|j: int| 0 <= j < items.len() - 1 implies (#[trigger] items[j]).key
                    != key by {
                    assert(head[j] == items[j]);
                }
            },
        }
    }
}

/// Writing an item keeps every key and adds the item's own.
pub proof fn lemma_upserted_keys(items: Seq<ItemModel>, item: ItemModel, key: Seq<char>)
    ensures
        has_key(upserted(items, item), key) <==> has_key(items, key) || key == item.key,
        has_key(upserted(items, item), item.key),
{
    lemma_key_position(items, item.key);
    let after = upserted(items, item);
    match key_position(items, item.key) {
        Some(i) => {
            assert(after[i].key == item.key);
            if has_key(items, key) {
                let j = choose|j: int| 0 <= j < items.len() && (#[trigger] items[j]).key == key;
                assert(after[j].key == key);
            }
            if has_key(after, key) {
                let j = choose|j: int| 0 <= j < after.len() && (#[trigger] after[j]).key == key;
                if j != i {
                    assert(items[j].key == key);
                }
            }
        },
        None => {
            assert(after[items.len() as int].key == item.key);
            if has_key(items, key) {
                let j = choose|j: int| 0 <= j < items.len() && (#[trigger] items[j]).key == key;
                assert(after[j].key == key);
            }
            if has_key(after, key) {
                let j = choose|j: int| 0 <= j < after.len() && (#[trigger] after[j]).key == key;
                if j < items.len() {
                    assert(items[j].key == key);
                }
            }
        },
    }
}

/// A snapshot has exactly the keys of its entries.
pub proof fn lemma_snapshot_keys(entries: Seq<EntryModel>, values: Seq<ValueModel>, key: Seq<char>)
    ensures
        has_key(snapshot_of(entries, values), key) <==> exists|i: int|
            0 <= i < entries.len() && (#[trigger] entries[i]).key == key,
    decreases entries.len(),
{
    if entries.len() > 0 {
        let head = entries.drop_last();
        lemma_snapshot_keys(head, values, key);
        lemma_upserted_keys(snapshot_of(head, values), item_of(entries.last(), values), key);
        if exists|i: int| 0 <= i < head.len() && (#[trigger] head[i]).key == key {
            let i = choose|i: int| 0 <= i < head.len() && (#[trigger] head[i]).key == key;
            assert(entries[i].key == key);
        }
        if exists|i: int| 0 <= i < entries.len() && (#[trigger] entries[i]).key == key {
            let i = choose|i: int| 0 <= i < entries.len() && (#[trigger] entries[i]).key == key;
            if i < head.len() {
                assert(head[i].key == key);
            }
        }
    }
}

/// The snapshot of an instance holds an item under the name of the primary
/// key, under the name of every field tagged for the snapshot, and under
/// the name of every field whose role is the timestamp of the last update
/// or the version counter, tagged or not.
pub proof fn lemma_snapshot_covers(schema: SchemaModel, values: Seq<ValueModel>, i: int)
    requires
        schema.valid(),
        0 <= i < schema.fields.len(),
    ensures
        has_key(
            snapshot_of(entries_of(schema), values),
            schema.fields[schema.primary_key()].name,
        ),
        schema.fields[i].has(AttributeKind::Snapshot) ==> has_key(
            snapshot_of(entries_of(schema), values),
            schema.fields[i].name,
        ),
        role_of(schema.fields[i].role_name()) == Some(Role::UpdatedAt) || role_of(
            schema.fields[i].role_name(),
        ) == Some(Role::Version) ==> has_key(
            snapshot_of(entries_of(schema), values),
            schema.fields[i].name,
        ),
{
    let key = schema.primary_key();
    let entries = entries_of(schema);
    let field = schema.fields[i];
    let entry = entry_of(i, field);
    lemma_snapshot_keys(entries, values, schema.fields[key].name);
    lemma_snapshot_keys(entries, values, field.name);
    assert(entries[0].key == schema.fields[key].name);
    let rest = field_entries(schema);
    crate::seqs::lemma_gather_members(schema.fields, each_entry(key), entry);
    if field.has(AttributeKind::Snapshot) {
        let j = choose|j: int|
            0 <= j < field.attributes.len() && (#[trigger] field.attributes[j]).kind
                == AttributeKind::Snapshot;
        crate::seqs::lemma_gather_members(field.attributes, tagged_entry(i, field), entry);
        assert(tagged_entry(i, field)(j, field.attributes[j]).contains(entry)) by {
            assert(tagged_entry(i, field)(j, field.attributes[j])[0] == entry);
        }
        let tagged = gather(field.attributes, tagged_entry(i, field));
        assert(tagged.contains(entry));
        let p = choose|p: int| 0 <= p < tagged.len() && tagged[p] == entry;
        assert(each_entry(key)(i, schema.fields[i])[p] == entry);
        assert(each_entry(key)(i, schema.fields[i]).contains(entry));
        assert(rest.contains(entry));
    }
    if i != key && implicit_snapshot(field) {
        let tagged = gather(field.attributes, tagged_entry(i, field));
        assert(each_entry(key)(i, schema.fields[i])[tagged.len() as int] == entry);
        assert(each_entry(key)(i, schema.fields[i]).contains(entry));
        assert(rest.contains(entry));
    }
    if rest.contains(entry) {
        let p = choose|p: int| 0 <= p < rest.len() && rest[p] == entry;
        assert(entries[p + 1] == entry);
        assert(entries[p + 1].key == field.name);
    }
}

/// Where no two entries share a key, the snapshot holds one item for each
/// entry, in the order of the entries.
pub proof fn lemma_snapshot_of_distinct_keys(entries: Seq<EntryModel>, values: Seq<ValueModel>)
    requires
        keys_of(entries).no_duplicates(),
    ensures
        snapshot_of(entries, values) == Seq::new(
            entries.len(),
            |i: int| item_of(entries[i], values),
        ),
    decreases entries.len(),
{
    let all = Seq::new(entries.len(), |i: int| item_of(entries[i], values));
    if entries.len() == 0 {
        assert(snapshot_of(entries, values) =~= all);
    } else {
        let head = entries.drop_last();
        let n = entries.len() - 1;
        assert forall|i: int, j: int| 0 <= i < j < head.len() implies keys_of(head)[i] != keys_of(
            head,
        )[j] by {
            assert(keys_of(entries)[i] != keys_of(entries)[j]);
        }
        lemma_snapshot_of_distinct_keys(head, values);
        let before = snapshot_of(head, values);
        lemma_key_position(before, entries.last().key);
        if has_key(before, entries.last().key) {
            let j = choose|j: int|
                0 <= j < before.len() && (#[trigger] before[j]).key == entries.last().key;
            assert(keys_of(entries)[j] != keys_of(entries)[n]);
        }
        assert(snapshot_of(entries, values) =~= all);
    }
}

fn is_implicit(field: &FieldSchema) -> (yes: bool)
    ensures
        yes == implicit_snapshot(field@),
{
    match Role::from_name(field.role_name()) {
        Some(Role::UpdatedAt) => true,
        Some(Role::Version) => true,
        _ => false,
    }
}

fn make_entry(index: usize, field: &FieldSchema) -> (entry: SnapshotEntry)
    ensures
        entry@ == entry_of(index as int, field@),
{
    SnapshotEntry {
        key: String::from_str(field.name()),
        field: index,
        rendering: Rendering::for_shape(field.shape()),
    }
}

fn push_entry(entries: &mut Vec<SnapshotEntry>, entry: SnapshotEntry)
    ensures
        final(entries).deep_view() == old(entries).deep_view().push(entry@),
{
    let ghost before = *entries;
    let ghost pushed = entry;
    entries.push(entry);
    proof {
        lemma_push_deep_view(before, *entries, pushed);
    }
}

fn push_field_entries(entries: &mut Vec<SnapshotEntry>, key: usize, index: usize, field: &FieldSchema)
    ensures
        final(entries).deep_view() == old(entries).deep_view() + each_entry(key as int)(
            index as int,
            field@,
        ),
{
    let ghost start = entries.deep_view();
    let ghost each = tagged_entry(index as int, field@);
    let attributes = field.attributes();
    let ghost model = attributes.deep_view();
    let mut j: usize = 0;
    proof {
        lemma_gather_ends(model, each);
        assert(start + Seq::<EntryModel>::empty() =~= start);
    }
    while j < attributes.len()
        invariant
            j <= attributes.len(),
            model == attributes.deep_view(),
            model == field@.attributes,
            each == tagged_entry(index as int, field@),
            entries.deep_view() == start + gather(model.take(j as int), each),
        decreases attributes.len() - j,
    {
        proof {
            lemma_gather_step(model, each, j as int);
        }
        if attributes[j].kind == AttributeKind::Snapshot {
            push_entry(entries, make_entry(index, field));
            assert(entries.deep_view() =~= start + gather(model.take(j + 1), each));
        } else {
            assert(start + gather(model.take(j + 1), each) =~= start + gather(
                model.take(j as int),
                each,
            ));
        }
        j += 1;
    }
    proof {
        lemma_gather_ends(model, each);
    }
    let ghost tagged = entries.deep_view();
    if index != key && is_implicit(field) {
        push_entry(entries, make_entry(index, field));
        assert(entries.deep_view() =~= start + (gather(model, each) + implicit_entry(
            key as int,
            index as int,
            field@,
        )));
    } else {
        assert(tagged =~= start + (gather(model, each) + implicit_entry(
            key as int,
            index as int,
            field@,
        )));
    }
}

/// Synthesizes the entries of the snapshot builder of an entity.
pub fn synthesize_entries(schema: &EntitySchema) -> (entries: Vec<SnapshotEntry>)
    ensures
        entries.deep_view() == entries_of(schema@),
{
    let fields = schema.fields();
    let key = schema.primary_key();
    let ghost model = schema@.fields;
    let ghost each = each_entry(key as int);
    let mut entries: Vec<SnapshotEntry> = Vec::new();
    assert(entries.deep_view() =~= Seq::<EntryModel>::empty());
    push_entry(&mut entries, make_entry(key, &fields[key]));
    let ghost first = seq![entry_of(key as int, model[key as int])];
    assert(entries.deep_view() =~= first);
    let mut i: usize = 0;
    proof {
        lemma_gather_ends(model, each);
        assert(first + Seq::<EntryModel>::empty() =~= first);
    }
    while i < fields.len()
        invariant
            i <= fields.len(),
            model == fields.deep_view(),
            each == each_entry(key as int),
            entries.deep_view() == first + gather(model.take(i as int), each),
        decreases fields.len() - i,
    {
        proof {
            lemma_gather_step(model, each, i as int);
        }
        push_field_entries(&mut entries, key, i, &fields[i]);
        i += 1;
        assert(entries.deep_view() =~= first + gather(model.take(i as int), each));
    }
    proof {
        lemma_gather_ends(model, each);
    }
    entries
}

/// Writes a value as a rendering calls for.
pub fn render(rendering: Rendering, value: Option<&FieldValue>) -> (out: SnapshotValue)
    ensures
        out@ == rendered(rendering, value.deep_view()),
{
    match value {
        None => SnapshotValue::Absent,
        Some(v) => match (rendering, v) {
            (Rendering::Stringify, FieldValue::Identifier(id)) => SnapshotValue::Text(
                id.to_text(),
            ),
            (
                Rendering::StringifyIfPresent,
                FieldValue::OptionalIdentifier(Some(id)),
            ) => SnapshotValue::Text(id.to_text()),
            (
                Rendering::StringifyIfPresent,
                FieldValue::OptionalIdentifier(None),
            ) => SnapshotValue::Absent,
            (Rendering::StringifyEach, FieldValue::IdentifierCollection(ids)) => SnapshotValue::Texts(
                texts_of_identifiers(ids),
            ),
            _ => SnapshotValue::Verbatim(v.duplicate()),
        },
    }
}

fn find_key(items: &Vec<SnapshotItem>, key: &str) -> (position: Option<usize>)
    ensures
        match position {
            Some(i) => key_position(items.deep_view(), key@) == Some(i as int) && i < items.len(),
            None => key_position(items.deep_view(), key@) is None,
        },
{
    let ghost model = items.deep_view();
    let mut found: Option<usize> = None;
    let mut i: usize = 0;
    while i < items.len()
        invariant
            i <= items.len(),
            model == items.deep_view(),
            match found {
                Some(k) => key_position(model.take(i as int), key@) == Some(k as int) && k < i,
                None => key_position(model.take(i as int), key@) is None,
            },
        decreases items.len() - i,
    {
        proof {
            assert(model.take(i + 1).drop_last() =~= model.take(i as int));
        }
        if found.is_none() && text_eq(items[i].key.as_str(), key) {
            found = Some(i);
        }
        i += 1;
    }
    assert(model.take(i as int) =~= model);
    found
}

fn upsert(items: &mut Vec<SnapshotItem>, item: SnapshotItem)
    ensures
        final(items).deep_view() == upserted(old(items).deep_view(), item@),
{
    let ghost before = *items;
    let ghost written = item;
    match find_key(items, item.key.as_str()) {
        Some(i) => {
            items.set(i, item);
            proof {
                lemma_set_deep_view(before, *items, i as int, written);
            }
        },
        None => {
            items.push(item);
            proof {
                lemma_push_deep_view(before, *items, written);
            }
        },
    }
}

/// Builds the snapshot of an instance from the entries of its entity.
pub fn build_snapshot(entries: &Vec<SnapshotEntry>, instance: &Instance) -> (items: Vec<
    SnapshotItem,
>)
    ensures
        items.deep_view() == snapshot_of(entries.deep_view(), instance@),
{
    let ghost model = entries.deep_view();
    let mut items: Vec<SnapshotItem> = Vec::new();
    let mut i: usize = 0;
    assert(items.deep_view() =~= snapshot_of(model.take(0), instance@));
    while i < entries.len()
        invariant
            i <= entries.len(),
            model == entries.deep_view(),
            items.deep_view() == snapshot_of(model.take(i as int), instance@),
        decreases entries.len() - i,
    {
        proof {
            assert(model.take(i + 1).drop_last() =~= model.take(i as int));
        }
        let entry = &entries[i];
        let item = SnapshotItem {
            key: entry.key.clone(),
            value: render(entry.rendering, instance.get(entry.field)),
        };
        upsert(&mut items, item);
        i += 1;
    }
    assert(model.take(i as int) =~= model);
    items
}

/// The query restricted to the keys of the entries.
pub fn query_of(entries: &Vec<SnapshotEntry>) -> (query: Query)
    ensures
        query@ == keys_of(entries.deep_view()),
{
    let mut columns: Vec<String> = Vec::new();
    let mut i: usize = 0;
    assert(columns.deep_view() =~= keys_of(entries.deep_view()).take(0));
    while i < entries.len()
        invariant
            i <= entries.len(),
            columns.deep_view() == keys_of(entries.deep_view()).take(i as int),
        decreases entries.len() - i,
    {
        let key = entries[i].key.clone();
        let ghost before = columns;
        let ghost pushed = key;
        columns.push(key);
        proof {
            lemma_push_deep_view(before, columns, pushed);
        }
        i += 1;
        assert(columns.deep_view() =~= keys_of(entries.deep_view()).take(i as int));
    }
    assert(keys_of(entries.deep_view()).take(i as int) =~= keys_of(entries.deep_view()));
    Query { columns }
}

} // verus!
