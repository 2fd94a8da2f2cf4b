//! The boundary to the TOML parser. A parsed document comes over it as plain
//! entries, each a key with what the library reads of its value.

use vstd::prelude::*;

use crate::text::same_text;

verus! {

/// A TOML value as far as a daemon definition looks into it.
#[derive(Debug, PartialEq, Eq)]
pub enum Item {
    Text(String),
    Integer(i64),
    /// An array: for each element its text, where the element is a string.
    List(Vec<Option<String>>),
    /// A float, a boolean, a date or a table.
    Other,
}

pub ghost enum ItemView {
    Text(Seq<char>),
    Integer(i64),
    List(Seq<Option<Seq<char>>>),
    Other,
}

impl DeepView for Item {
    type V = ItemView;

    open spec fn deep_view(&self) -> ItemView {
        match self {
            Item::Text(text) => ItemView::Text(text@),
            Item::Integer(number) => ItemView::Integer(*number),
            Item::List(elements) => ItemView::List(elements.deep_view()),
            Item::Other => ItemView::Other,
        }
    }
}

/// One key of a document's top-level table, with its value.
#[derive(Debug, PartialEq, Eq)]
pub struct Entry {
    pub key: String,
    pub item: Item,
}

pub ghost struct EntryView {
    pub key: Seq<char>,
    pub item: ItemView,
}

impl DeepView for Entry {
    type V = EntryView;

    open spec fn deep_view(&self) -> EntryView {
        EntryView { key: self.key@, item: self.item.deep_view() }
    }
}

/// The entries of the top-level table of the document that `text` is, as the
/// parser lists them; where `text` is not a TOML document, the parser's
/// message of what went wrong.
pub uninterp spec fn toml_parsed(text: Seq<char>) -> Result<Seq<EntryView>, Seq<char>>;

/// `toml::from_str`, asked for a table. Gives the entries of the table in the
/// table's own order, each value turned into the item of its kind: a string
/// or an integer as it is, an array element by element, anything else as
/// `Other`. Where the parser fails, gives the message of its error. Either
/// way the result is what `toml_parsed` names for this text; nothing is
/// claimed of which texts parse, nor to what.
#[verifier::external_body]
pub(crate) fn parse_document(text: &str) -> (r: Result<Vec<Entry>, String>)
    ensures
        match r {
            Ok(entries) => toml_parsed(text@) == Ok::<Seq<EntryView>, Seq<char>>(entries.deep_view()),
            Err(message) => toml_parsed(text@) == Err::<Seq<EntryView>, Seq<char>>(message@),
        },
{
    let table = toml::from_str::<toml::Table>(text).map_err(|error| error.message().to_owned())?;
    let entries = table.into_iter().map(|(key, value)| {
        let item = match value {
            toml::Value::String(text) => Item::Text(text),
            toml::Value::Integer(number) => Item::Integer(number),
            toml::Value::Array(elements) => Item::List(elements.into_iter().map(|e| match e {
                toml::Value::String(text) => Some(text),
                _ => None,
            }).collect()),
            _ => Item::Other,
        };
        Entry { key, item }
    });
    Ok(entries.collect())
}

/// The item under `key`: that of the first entry with this key.
pub open spec fn lookup(document: Seq<EntryView>, key: Seq<char>) -> Option<ItemView>
    decreases document.len(),
{
    if document.len() == 0 {
        None
    } else if document[0].key == key {
        Some(document[0].item)
    } else {
        lookup(document.drop_first(), key)
    }
}

/// One field of a definition, as the document gives it.
#[derive(Debug, PartialEq, Eq)]
pub enum Field<T> {
    /// The document has no such key.
    Missing,
    /// The key holds a value of another type than the field has.
    Mistyped,
    Given(T),
}

impl<T: DeepView> DeepView for Field<T> {
    type V = Field<T::V>;

    open spec fn deep_view(&self) -> Field<T::V> {
        match self {
            Field::Missing => Field::Missing,
            Field::Mistyped => Field::Mistyped,
            Field::Given(value) => Field::Given(value.deep_view()),
        }
    }
}

/// The fields of a definition before any of them is validated.
#[derive(Debug, PartialEq, Eq)]
pub struct RawConfig {
    /// The first key of the document that is no field of a definition.
    pub unknown: Option<String>,
    pub desc: Field<String>,
    pub command: Field<String>,
    pub args: Field<Vec<String>>,
    pub env: Field<Vec<String>>,
    pub user: Field<i64>,
    pub run_group: Field<i64>,
    pub kind: Field<String>,
}

pub ghost struct RawView {
    pub unknown: Option<Seq<char>>,
    pub desc: Field<Seq<char>>,
    pub command: Field<Seq<char>>,
    pub args: Field<Seq<Seq<char>>>,
    pub env: Field<Seq<Seq<char>>>,
    pub user: Field<i64>,
    pub run_group: Field<i64>,
    pub kind: Field<Seq<char>>,
}

impl DeepView for RawConfig {
    type V = RawView;

    open spec fn deep_view(&self) -> RawView {
        RawView {
            unknown: self.unknown.deep_view(),
            desc: self.desc.deep_view(),
            command: self.command.deep_view(),
            args: self.args.deep_view(),
            env: self.env.deep_view(),
            user: self.user.deep_view(),
            run_group: self.run_group.deep_view(),
            kind: self.kind.deep_view(),
        }
    }
}

/// The field that an item is where a text is expected.
pub open spec fn text_of(item: Option<ItemView>) -> Field<Seq<char>> {
    match item {
        None => Field::Missing,
        Some(ItemView::Text(text)) => Field::Given(text),
        Some(_) => Field::Mistyped,
    }
}

/// The field that an item is where an integer is expected.
pub open spec fn integer_of(item: Option<ItemView>) -> Field<i64> {
    match item {
        None => Field::Missing,
        Some(ItemView::Integer(number)) => Field::Given(number),
        Some(_) => Field::Mistyped,
    }
}

/// The field that an item is where an array of texts is expected: an array
/// with an element that is no string is of the wrong type.
pub open spec fn list_of(item: Option<ItemView>) -> Field<Seq<Seq<char>>> {
    match item {
        None => Field::Missing,
        Some(ItemView::List(elements)) => if forall|i: int| 0 <= i < elements.len() ==> elements[i] is Some {
            Field::Given(Seq::new(elements.len(), |i: int| elements[i]->0))
        } else {
            Field::Mistyped
        },
        Some(_) => Field::Mistyped,
    }
}

/// `key` is the name of a field of a definition.
pub open spec fn known_key(key: Seq<char>) -> bool {
    ||| key == "desc"@
    ||| key == "command"@
    ||| key == "args"@
    ||| key == "env"@
    ||| key == "user"@
    ||| key == "run_group"@
    ||| key == "kind"@
}

/// The key of the first entry that is no field of a definition.
pub open spec fn first_unknown(document: Seq<EntryView>) -> Option<Seq<char>>
    decreases document.len(),
{
    if document.len() == 0 {
        None
    } else if !known_key(document[0].key) {
        Some(document[0].key)
    } else {
        first_unknown(document.drop_first())
    }
}

/// The fields of a definition as a document gives them.
pub open spec fn raw_of(document: Seq<EntryView>) -> RawView {
    RawView {
        unknown: first_unknown(document),
        desc: text_of(lookup(document, "desc"@)),
        command: text_of(lookup(document, "command"@)),
        args: list_of(lookup(document, "args"@)),
        env: list_of(lookup(document, "env"@)),
        user: integer_of(lookup(document, "user"@)),
        run_group: integer_of(lookup(document, "run_group"@)),
        kind: text_of(lookup(document, "kind"@)),
    }
}

/// Finds the item under `key`.
pub fn find<'a>(document: &'a Vec<Entry>, key: &str) -> (r: Option<&'a Item>)
    ensures
        r.deep_view() == lookup(document.deep_view(), key@),
{
    let ghost all = document.deep_view();
    let mut i: usize = 0;
    assert(all.skip(0) =~= all);
    while i < document.len()
        invariant
            i <= document.len(),
            all == document.deep_view(),
            lookup(all, key@) == lookup(all.skip(i as int), key@),
        decreases document.len() - i,
    {
        assert(all.skip(i as int)[0] == document[i as int].deep_view());
        if same_text(document[i].key.as_str(), key) {
            return Some(&document[i].item);
        }
        assert(all.skip(i as int).drop_first() =~= all.skip(i + 1));
        i += 1;
    }
    None
}

fn is_known(key: &str) -> (r: bool)
    ensures
        r == known_key(key@),
{
    same_text(key, "desc") || same_text(key, "command") || same_text(key, "args") || same_text(key, "env")
        || same_text(key, "user") || same_text(key, "run_group") || same_text(key, "kind")
}

fn unknown_key(document: &Vec<Entry>) -> (r: Option<String>)
    ensures
        r.deep_view() == first_unknown(document.deep_view()),
{
    let ghost all = document.deep_view();
    let mut i: usize = 0;
    assert(all.skip(0) =~= all);
    while i < document.len()
        invariant
            i <= document.len(),
            all == document.deep_view(),
            first_unknown(all) == first_unknown(all.skip(i as int)),
        decreases document.len() - i,
    {
        assert(all.skip(i as int)[0] == document[i as int].deep_view());
        if !is_known(document[i].key.as_str()) {
            return Some(document[i].key.clone());
        }
        assert(all.skip(i as int).drop_first() =~= all.skip(i + 1));
        i += 1;
    }
    None
}

fn text_field(document: &Vec<Entry>, key: &str) -> (r: Field<String>)
    ensures
        r.deep_view() == text_of(lookup(document.deep_view(), key@)),
{
    match find(document, key) {
        None => Field::Missing,
        Some(Item::Text(text)) => Field::Given(text.clone()),
        Some(_) => Field::Mistyped,
    }
}

fn integer_field(document: &Vec<Entry>, key: &str) -> (r: Field<i64>)
    ensures
        r.deep_view() == integer_of(lookup(document.deep_view(), key@)),
{
    match find(document, key) {
        None => Field::Missing,
        Some(Item::Integer(number)) => Field::Given(*number),
        Some(_) => Field::Mistyped,
    }
}

fn list_field(document: &Vec<Entry>, key: &str) -> (r: Field<Vec<String>>)
    ensures
        r.deep_view() == list_of(lookup(document.deep_view(), key@)),
{
    let elements = match find(document, key) {
        None => { return Field::Missing; },
        Some(Item::List(elements)) => elements,
        Some(_) => { return Field::Mistyped; },
    };
    let ghost item = lookup(document.deep_view(), key@);
    let mut list: Vec<String> = Vec::new();
    let mut i: usize = 0;
    while i < elements.len()
        invariant
            i <= elements.len(),
            item == lookup(document.deep_view(), key@),
            item == Some(ItemView::List(elements.deep_view())),
            list.len() == i,
            forall|k: int| 0 <= k < i ==> elements.deep_view()[k] == Some(#[trigger] list[k]@),
        decreases elements.len() - i,
    {
        match &elements[i] {
            None => {
                assert(elements.deep_view()[i as int] is None);
                return Field::Mistyped;
            },
            Some(text) => {
                list.push(text.clone());
            },
        }
        i += 1;
    }
    proof {
        let views = elements.deep_view();
        assert forall|k: int| 0 <= k < views.len() implies views[k] is Some by {
            assert(views[k] == Some(list[k]@));
        }
        assert(list.deep_view() =~= Seq::new(views.len(), |k: int| views[k]->0));
    }
    Field::Given(list)
}

/// Reads the fields of a definition out of a parsed document.
pub fn read_raw(document: &Vec<Entry>) -> (r: RawConfig)
    ensures
        r.deep_view() == raw_of(document.deep_view()),
{
    RawConfig {
        unknown: unknown_key(document),
        desc: text_field(document, "desc"),
        command: text_field(document, "command"),
        args: list_field(document, "args"),
        env: list_field(document, "env"),
        user: integer_field(document, "user"),
        run_group: integer_field(document, "run_group"),
        kind: text_field(document, "kind"),
    }
}

} // verus!
