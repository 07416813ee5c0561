//! Style maps: an ordered mapping from property name to value, and its
//! rendering as inline CSS.

use vstd::prelude::*;
use vstd::string::*;

use crate::fixed::Fixed;
use crate::overrides::{declarations, parse_declarations, Pair};
use crate::regions::{
    container, container_model, handle_custom_model, handle_custon, handle_default,
    handle_default_model, left_arrow, left_arrow_model, left_image, left_image_model, left_label,
    left_label_container, left_label_container_model, left_label_model, line, line_model,
    right_arrow, right_arrow_model, right_image, right_image_model, right_label,
    right_label_container, right_label_container_model, right_label_model, slider, slider_model,
};
use crate::text::{
    collect_chars, lemma_lex_irreflexive, lemma_lex_total, lemma_lex_transitive, lex_less,
    precedes, same_chars, same_text,
};

verus! {

/// The value of a style property.
#[derive(Debug)]
pub enum Value {
    /// A plain text value.
    Text(String),
    /// A text value that may be absent.
    Optional(Option<String>),
    /// A flag.
    Bool(bool),
}

/// What an [`Value`] holds, as mathematical values.
pub enum ValueModel {
    Text(Seq<char>),
    Optional(Option<Seq<char>>),
    Bool(bool),
}

impl View for Value {
    type V = ValueModel;

    open spec fn view(&self) -> ValueModel {
        match self {
            Value::Text(s) => ValueModel::Text(s@),
            Value::Optional(Some(s)) => ValueModel::Optional(Some(s@)),
            Value::Optional(None) => ValueModel::Optional(None),
            Value::Bool(b) => ValueModel::Bool(*b),
        }
    }
}

impl Clone for Value {
    fn clone(&self) -> (copy: Value)
        ensures
            copy@ == self@,
    {
        match self {
            Value::Text(s) => Value::Text(s.clone()),
            Value::Optional(Some(s)) => Value::Optional(Some(s.clone())),
            Value::Optional(None) => Value::Optional(None),
            Value::Bool(b) => Value::Bool(*b),
        }
    }
}

/// The model of a property's value: `None` is a property that is named but
/// has no value to print.
pub open spec fn value_model(value: Option<Value>) -> Option<ValueModel> {
    match value {
        Some(a) => Some(a@),
        None => None,
    }
}

/// A text value.
pub open spec fn text_value(s: Seq<char>) -> Option<ValueModel> {
    Some(ValueModel::Text(s))
}

/// One declaration of a style: the property's name and its value.
pub type Declaration = (Seq<char>, Option<ValueModel>);

/// A style as a mapping.
pub type StyleModel = Map<Seq<char>, Option<ValueModel>>;

/// The text that stands for a value in CSS.
pub open spec fn rendered(a: ValueModel) -> Seq<char> {
    match a {
        ValueModel::Text(s) => s,
        ValueModel::Optional(Some(s)) => s,
        ValueModel::Optional(None) => "null"@,
        ValueModel::Bool(true) => "true"@,
        ValueModel::Bool(false) => "false"@,
    }
}

/// The CSS text of one declaration: `name: value;`, or nothing where the
/// property has no value.
pub open spec fn declaration_text(d: Declaration) -> Seq<char> {
    match d.1 {
        Some(a) => d.0 + ": "@ + rendered(a) + ";"@,
        None => Seq::empty(),
    }
}

/// The CSS text of a run of declarations. Every declaration after the first
/// is preceded by one space, whether or not it prints anything.
pub open spec fn css_text(ds: Seq<Declaration>) -> Seq<char>
    decreases ds.len(),
{
    if ds.len() == 0 {
        Seq::empty()
    } else if ds.len() == 1 {
        declaration_text(ds[0])
    } else {
        css_text(ds.drop_last()) + " "@ + declaration_text(ds.last())
    }
}

/// The names of `ds` strictly increase.
pub open spec fn strictly_sorted(ds: Seq<Declaration>) -> bool {
    forall|i: int, j: int| 0 <= i < j < ds.len() ==> lex_less(#[trigger] ds[i].0, #[trigger] ds[j].0)
}

/// `ds` lists `m`: its names strictly increase, each of its declarations is
/// in `m`, and each name of `m` is declared.
pub open spec fn is_listing_of(ds: Seq<Declaration>, m: StyleModel) -> bool {
    &&& strictly_sorted(ds)
    &&& forall|i: int| 0 <= i < ds.len() ==> m.contains_key(#[trigger] ds[i].0) && m[ds[i].0] == ds[i].1
    &&& forall|k: Seq<char>| m.contains_key(k) ==> exists|i: int| 0 <= i < ds.len() && #[trigger] ds[i].0 == k
}

/// The declarations of `m` in increasing order of name.
pub open spec fn listing(m: StyleModel) -> Seq<Declaration> {
    choose|ds: Seq<Declaration>| is_listing_of(ds, m)
}

/// The CSS text of a style: its declarations in increasing order of name.
pub open spec fn style_css(m: StyleModel) -> Seq<char> {
    css_text(listing(m))
}

/// Whether some declaration of `ds` has the name `k`.
pub open spec fn declares(ds: Seq<Declaration>, k: Seq<char>) -> bool {
    exists|i: int| 0 <= i < ds.len() && #[trigger] ds[i].0 == k
}

/// The place of the declaration named `k`.
pub open spec fn slot(ds: Seq<Declaration>, k: Seq<char>) -> int {
    choose|i: int| 0 <= i < ds.len() && #[trigger] ds[i].0 == k
}

/// The mapping that a run of declarations stands for.
pub open spec fn declared_map(ds: Seq<Declaration>) -> StyleModel {
    Map::new(|k: Seq<char>| declares(ds, k), |k: Seq<char>| ds[slot(ds, k)].1)
}

/// In a sorted run no name occurs twice.
pub proof fn lemma_sorted_distinct(ds: Seq<Declaration>, i: int, j: int)
    requires
        strictly_sorted(ds),
        0 <= i < ds.len(),
        0 <= j < ds.len(),
        ds[i].0 == ds[j].0,
    ensures
        i == j,
{
    lemma_lex_irreflexive(ds[i].0);
    if i < j {
        assert(lex_less(ds[i].0, ds[j].0));
    } else if j < i {
        assert(lex_less(ds[j].0, ds[i].0));
    }
}

/// A sorted run lists the mapping it stands for.
pub proof fn lemma_sorted_lists_its_map(ds: Seq<Declaration>)
    requires
        strictly_sorted(ds),
    ensures
        is_listing_of(ds, declared_map(ds)),
{
    let m = declared_map(ds);
    assert forall|i: int| 0 <= i < ds.len() implies m.contains_key(#[trigger] ds[i].0) && m[ds[i].0]
        == ds[i].1 by {
        assert(declares(ds, ds[i].0));
        lemma_sorted_distinct(ds, i, slot(ds, ds[i].0));
    }
}

/// A listing without its last declaration lists the mapping without the
/// last name.
proof fn lemma_listing_without_last(ds: Seq<Declaration>, m: StyleModel)
    requires
        is_listing_of(ds, m),
        ds.len() > 0,
    ensures
        is_listing_of(ds.drop_last(), m.remove(ds.last().0)),
{
    let last = ds.len() - 1;
    let top = ds[last].0;
    let rest = m.remove(top);
    let front = ds.drop_last();
    assert forall|i: int| 0 <= i < front.len() implies rest.contains_key(#[trigger] front[i].0)
        && rest[front[i].0] == front[i].1 by {
        assert(front[i] == ds[i]);
        if ds[i].0 == top {
            lemma_sorted_distinct(ds, i, last);
        }
    }
    assert forall|k: Seq<char>| rest.contains_key(k) implies exists|i: int|
        0 <= i < front.len() && #[trigger] front[i].0 == k by {
        let i = choose|i: int| 0 <= i < ds.len() && #[trigger] ds[i].0 == k;
        assert(front[i] == ds[i]);
    }
    assert forall|i: int, j: int| 0 <= i < j < front.len() implies lex_less(
        #[trigger] front[i].0,
        #[trigger] front[j].0,
    ) by {
        assert(front[i] == ds[i] && front[j] == ds[j]);
    }
}

/// The last name of a listing is the greatest name of its mapping: no
/// other listing of the mapping ends with a smaller one.
proof fn lemma_last_name_is_greatest(a: Seq<Declaration>, b: Seq<Declaration>, m: StyleModel)
    requires
        is_listing_of(a, m),
        is_listing_of(b, m),
        a.len() > 0,
        b.len() > 0,
    ensures
        !lex_less(a.last().0, b.last().0),
{
    let top = a.last().0;
    assert(m.contains_key(b[b.len() - 1].0));
    assert(m.contains_key(a[a.len() - 1].0));
    let i = choose|i: int| 0 <= i < a.len() && #[trigger] a[i].0 == b.last().0;
    lemma_lex_irreflexive(top);
    if i < a.len() - 1 {
        assert(lex_less(a[i].0, a[a.len() - 1].0));
        lemma_lex_total(a[i].0, top);
    }
}

/// A mapping has at most one listing.
pub proof fn lemma_listing_unique(a: Seq<Declaration>, b: Seq<Declaration>, m: StyleModel)
    requires
        is_listing_of(a, m),
        is_listing_of(b, m),
    ensures
        a == b,
    decreases a.len(),
{
    if a.len() == 0 {
        if b.len() > 0 {
            assert(m.contains_key(b[0].0));
        }
        assert(a =~= b);
    } else if b.len() == 0 {
        assert(m.contains_key(a[0].0));
    } else {
        lemma_last_name_is_greatest(a, b, m);
        lemma_last_name_is_greatest(b, a, m);
        lemma_lex_total(a.last().0, b.last().0);
        assert(m.contains_key(a[a.len() - 1].0));
        assert(a.last() == b.last());
        lemma_listing_without_last(a, m);
        lemma_listing_without_last(b, m);
        lemma_listing_unique(a.drop_last(), b.drop_last(), m.remove(a.last().0));
        assert(a =~= a.drop_last().push(a.last()));
        assert(b =~= b.drop_last().push(b.last()));
    }
}

/// A sorted run is the listing of the mapping it stands for.
pub proof fn lemma_listing_of_declared(ds: Seq<Declaration>)
    requires
        strictly_sorted(ds),
    ensures
        listing(declared_map(ds)) == ds,
{
    lemma_sorted_lists_its_map(ds);
    lemma_listing_unique(listing(declared_map(ds)), ds, declared_map(ds));
}


/// What a run of properties holds.
pub open spec fn properties_model(list: Seq<(String, Option<Value>)>) -> Seq<Declaration> {
    Seq::new(list.len(), |i: int| (list[i].0@, value_model(list[i].1)))
}

/// One property of a style.
#[derive(Debug)]
struct Entry {
    name: String,
    value: Option<Value>,
}

impl Entry {
    fn duplicate(&self) -> (copy: Entry)
        ensures
            copy.name@ == self.name@,
            value_model(copy.value) == value_model(self.value),
    {
        let value = match &self.value {
            Some(held) => Some(held.clone()),
            None => None,
        };
        Entry { name: self.name.clone(), value }
    }
}

/// The declarations that a run of entries holds.
spec fn declarations_of(entries: Seq<Entry>) -> Seq<Declaration> {
    Seq::new(entries.len(), |i: int| (entries[i].name@, value_model(entries[i].value)))
}

/// The place of `key` among sorted entries: the index of the first entry
/// whose name does not precede it, and whether that entry bears the name.
fn locate(entries: &Vec<Entry>, key: &Vec<char>) -> (place: (usize, bool))
    ensures
        place.0 <= entries.len(),
        forall|j: int|
            0 <= j < place.0 ==> lex_less(#[trigger] declarations_of(entries@)[j].0, key@),
        place.1 <==> place.0 < entries.len() && declarations_of(entries@)[place.0 as int].0
            == key@,
        place.0 < entries.len() ==> !lex_less(
            declarations_of(entries@)[place.0 as int].0,
            key@,
        ),
{
    let mut i: usize = 0;
    let mut found: bool = false;
    let mut searching: bool = true;
    while searching && i < entries.len()
        invariant
            i <= entries.len(),
            forall|j: int| 0 <= j < i ==> lex_less(#[trigger] declarations_of(entries@)[j].0, key@),
            !searching ==> i < entries.len() && !lex_less(
                declarations_of(entries@)[i as int].0,
                key@,
            ),
            !searching ==> (found <==> declarations_of(entries@)[i as int].0 == key@),
            searching ==> !found,
        decreases entries.len() - i + (if searching { 1int } else { 0int }),
    {
        let name: Vec<char> = collect_chars(entries[i].name.as_str());
        if precedes(&name, key) {
            i += 1;
        } else {
            found = same_chars(&name, key);
            searching = false;
        }
    }
    (i, found)
}

/// An ordered mapping from property name to value. Names are kept in
/// increasing lexicographic order, which is the order in which the style is
/// printed.
#[derive(Debug)]
pub struct Style {
    entries: Vec<Entry>,
}

impl View for Style {
    type V = StyleModel;

    closed spec fn view(&self) -> StyleModel {
        declared_map(declarations_of(self.entries@))
    }
}

impl Style {
    #[verifier::type_invariant]
    spec fn ordered(&self) -> bool {
        strictly_sorted(declarations_of(self.entries@))
    }

    /// The style without properties.
    pub fn new() -> (style: Style)
        ensures
            style@ == Map::<Seq<char>, Option<ValueModel>>::empty(),
    {
        let style = Style { entries: Vec::new() };
        assert(style@ =~= Map::<Seq<char>, Option<ValueModel>>::empty());
        style
    }

    /// The number of properties.
    pub fn len(&self) -> (n: usize)
        ensures
            n == self@.dom().len(),
            self@.dom().finite(),
    {
        proof {
            use_type_invariant(self);
            lemma_declared_len(declarations_of(self.entries@));
        }
        self.entries.len()
    }

    /// Sets the property `name` to `value`, whether or not it was set.
    pub fn insert(&mut self, name: &str, value: Option<Value>)
        ensures
            final(self)@ == old(self)@.insert(name@, value_model(value)),
    {
        proof {
            use_type_invariant(&*self);
        }
        let key: Vec<char> = collect_chars(name);
        let mut entries: Vec<Entry> = Vec::new();
        std::mem::swap(&mut entries, &mut self.entries);
        let ghost before = declarations_of(entries@);
        let ghost declaration = (name@, value_model(value));
        let (i, found) = locate(&entries, &key);
        let entry = Entry { name: String::from_str(name), value };
        if found {
            entries.set(i, entry);
            proof {
                assert(declarations_of(entries@) =~= before.update(i as int, declaration));
                lemma_update_declared(before, i as int, declaration.1);
            }
        } else {
            entries.insert(i, entry);
            proof {
                assert(declarations_of(entries@) =~= before.insert(i as int, declaration));
                if i < before.len() {
                    lemma_lex_total(before[i as int].0, name@);
                }
                lemma_insert_declared(before, i as int, declaration);
            }
        }
        self.entries = entries;
    }

    /// The value of the property `name`, if the style has it.
    pub fn get(&self, name: &str) -> (value: Option<&Option<Value>>)
        ensures
            value is Some <==> self@.contains_key(name@),
            value matches Some(v) ==> value_model(*v) == self@[name@],
    {
        proof {
            use_type_invariant(self);
            lemma_sorted_lists_its_map(declarations_of(self.entries@));
        }
        let key: Vec<char> = collect_chars(name);
        let (i, found) = locate(&self.entries, &key);
        let ghost ds = declarations_of(self.entries@);
        if found {
            proof {
                assert(self@.contains_key(ds[i as int].0));
            }
            Some(&self.entries[i].value)
        } else {
            proof {
                if self@.contains_key(name@) {
                    let j = choose|j: int| 0 <= j < ds.len() && #[trigger] ds[j].0 == name@;
                    lemma_lex_irreflexive(name@);
                    if j < i {
                        assert(lex_less(ds[j].0, name@));
                    } else if j > i {
                        lemma_lex_total(ds[i as int].0, name@);
                        assert(lex_less(ds[i as int].0, ds[j].0));
                    }
                }
            }
            None
        }
    }

    /// Whether the style has the property `name`.
    pub fn contains_key(&self, name: &str) -> (present: bool)
        ensures
            present == self@.contains_key(name@),
    {
        self.get(name).is_some()
    }

    /// The properties with their values, in increasing order of name.
    pub fn to_vec(&self) -> (list: Vec<(String, Option<Value>)>)
        ensures
            properties_model(list@) == listing(self@),
    {
        proof {
            use_type_invariant(self);
            lemma_listing_of_declared(declarations_of(self.entries@));
        }
        let ghost ds = declarations_of(self.entries@);
        let mut list: Vec<(String, Option<Value>)> = Vec::new();
        let mut i: usize = 0;
        while i < self.entries.len()
            invariant
                i <= self.entries.len(),
                list.len() == i,
                ds == declarations_of(self.entries@),
                properties_model(list@) == ds.take(i as int),
            decreases self.entries.len() - i,
        {
            let ghost listed = properties_model(list@);
            let copy = self.entries[i].duplicate();
            list.push((copy.name, copy.value));
            proof {
                assert forall|j: int| 0 <= j < i + 1 implies properties_model(list@)[j]
                    == ds[j] by {
                    if j < i {
                        assert(listed[j] == ds.take(i as int)[j]);
                    }
                }
                assert(properties_model(list@) =~= ds.take(i + 1));
            }
            i += 1;
        }
        proof {
            assert(ds.take(self.entries.len() as int) =~= ds);
        }
        list
    }

    /// The style as inline CSS: `name: value;` for each property that has a
    /// value, in increasing order of name, with one space before every
    /// property but the first.
    #[must_use]
    pub fn as_css(&self) -> (css: String)
        ensures
            css@ == style_css(self@),
    {
        proof {
            use_type_invariant(self);
            lemma_listing_of_declared(declarations_of(self.entries@));
        }
        let ghost ds = declarations_of(self.entries@);
        let mut buf = String::new();
        let mut i: usize = 0;
        while i < self.entries.len()
            invariant
                i <= self.entries.len(),
                ds == declarations_of(self.entries@),
                buf@ == css_text(ds.take(i as int)),
            decreases self.entries.len() - i,
        {
            let ghost so_far = buf@;
            if i != 0 {
                buf.append(" ");
            }
            let entry = &self.entries[i];
            match &entry.value {
                Some(held) => {
                    buf.append(entry.name.as_str());
                    buf.append(": ");
                    match held {
                        Value::Text(s) => buf.append(s.as_str()),
                        Value::Optional(Some(s)) => buf.append(s.as_str()),
                        Value::Optional(None) => buf.append("null"),
                        Value::Bool(true) => buf.append("true"),
                        Value::Bool(false) => buf.append("false"),
                    }
                    buf.append(";");
                },
                None => {},
            }
            proof {
                let next = ds.take(i + 1);
                assert(next.drop_last() =~= ds.take(i as int));
                assert(next.last() == ds[i as int]);
                assert(ds[i as int] == (entry.name@, value_model(entry.value)));
                if i == 0 {
                    assert(so_far =~= Seq::<char>::empty());
                }
                assert(buf@ =~= css_text(next));
            }
            i += 1;
        }
        proof {
            assert(ds.take(self.entries.len() as int) =~= ds);
        }
        buf
    }
}

impl Clone for Style {
    fn clone(&self) -> (copy: Style)
        ensures
            copy@ == self@,
    {
        proof {
            use_type_invariant(self);
        }
        let mut entries: Vec<Entry> = Vec::new();
        let mut i: usize = 0;
        while i < self.entries.len()
            invariant
                i <= self.entries.len(),
                entries.len() == i,
                declarations_of(entries@) == declarations_of(self.entries@).take(i as int),
            decreases self.entries.len() - i,
        {
            let ghost copied = declarations_of(entries@);
            entries.push(self.entries[i].duplicate());
            proof {
                let source = declarations_of(self.entries@);
                assert forall|j: int| 0 <= j < i + 1 implies declarations_of(entries@)[j]
                    == source[j] by {
                    if j < i {
                        assert(copied[j] == source.take(i as int)[j]);
                    }
                }
                assert(declarations_of(entries@) =~= source.take(i + 1));
            }
            i += 1;
        }
        proof {
            assert(declarations_of(self.entries@).take(self.entries.len() as int)
                =~= declarations_of(self.entries@));
        }
        Style { entries }
    }
}

impl Default for Style {
    fn default() -> (style: Style)
        ensures
            style@ == Map::<Seq<char>, Option<ValueModel>>::empty(),
    {
        Style::new()
    }
}

/// Replacing the value of a declared name keeps the run sorted and sets the
/// name in the mapping.
proof fn lemma_update_declared(ds: Seq<Declaration>, i: int, value: Option<ValueModel>)
    requires
        strictly_sorted(ds),
        0 <= i < ds.len(),
    ensures
        strictly_sorted(ds.update(i, (ds[i].0, value))),
        declared_map(ds.update(i, (ds[i].0, value))) == declared_map(ds).insert(ds[i].0, value),
{
    let after = ds.update(i, (ds[i].0, value));
    assert forall|a: int, b: int| 0 <= a < b < after.len() implies lex_less(
        #[trigger] after[a].0,
        #[trigger] after[b].0,
    ) by {
        assert(after[a].0 == ds[a].0 && after[b].0 == ds[b].0);
    }
    lemma_sorted_lists_its_map(ds);
    lemma_sorted_lists_its_map(after);
    let m = declared_map(ds).insert(ds[i].0, value);
    assert forall|k: Seq<char>| declared_map(after).contains_key(k) == m.contains_key(k) by {
        if declares(after, k) {
            let j = choose|j: int| 0 <= j < after.len() && #[trigger] after[j].0 == k;
            assert(ds[j].0 == k);
        }
        if declares(ds, k) {
            let j = choose|j: int| 0 <= j < ds.len() && #[trigger] ds[j].0 == k;
            assert(after[j].0 == k);
        }
        if k == ds[i].0 {
            assert(after[i].0 == k);
        }
    }
    assert forall|k: Seq<char>| declared_map(after).contains_key(k) implies declared_map(after)[k]
        == m[k] by {
        let j = choose|j: int| 0 <= j < after.len() && #[trigger] after[j].0 == k;
        assert(declared_map(after)[after[j].0] == after[j].1);
        if j != i {
            assert(ds[j].0 == k);
            assert(declared_map(ds)[ds[j].0] == ds[j].1);
            if k == ds[i].0 {
                lemma_sorted_distinct(ds, i, j);
            }
        }
    }
    assert(declared_map(after) =~= m);
}

/// Inserting a new name at its place keeps the run sorted and sets the name
/// in the mapping.
proof fn lemma_insert_declared(ds: Seq<Declaration>, i: int, d: Declaration)
    requires
        strictly_sorted(ds),
        0 <= i <= ds.len(),
        forall|j: int| 0 <= j < i ==> lex_less(#[trigger] ds[j].0, d.0),
        i < ds.len() ==> lex_less(d.0, ds[i].0),
    ensures
        strictly_sorted(ds.insert(i, d)),
        declared_map(ds.insert(i, d)) == declared_map(ds).insert(d.0, d.1),
{
    let after = ds.insert(i, d);
    assert forall|a: int, b: int| 0 <= a < b < after.len() implies lex_less(
        #[trigger] after[a].0,
        #[trigger] after[b].0,
    ) by {
        if b < i {
            assert(after[a] == ds[a] && after[b] == ds[b]);
        } else if b == i {
            assert(after[a] == ds[a]);
        } else if a == i {
            assert(after[b] == ds[b - 1]);
            if b - 1 > i {
                assert(lex_less(ds[i].0, ds[b - 1].0));
                lemma_lex_transitive(d.0, ds[i].0, ds[b - 1].0);
            }
        } else if a < i {
            assert(after[a] == ds[a] && after[b] == ds[b - 1]);
        } else {
            assert(after[a] == ds[a - 1] && after[b] == ds[b - 1]);
        }
    }
    lemma_sorted_lists_its_map(ds);
    lemma_sorted_lists_its_map(after);
    let m = declared_map(ds).insert(d.0, d.1);
    assert forall|k: Seq<char>| declared_map(after).contains_key(k) == m.contains_key(k) by {
        if declares(after, k) {
            let j = choose|j: int| 0 <= j < after.len() && #[trigger] after[j].0 == k;
            if j < i {
                assert(ds[j].0 == k);
            } else if j > i {
                assert(ds[j - 1].0 == k);
            }
        }
        if declares(ds, k) {
            let j = choose|j: int| 0 <= j < ds.len() && #[trigger] ds[j].0 == k;
            if j < i {
                assert(after[j].0 == k);
            } else {
                assert(after[j + 1].0 == k);
            }
        }
        if k == d.0 {
            assert(after[i].0 == k);
        }
    }
    assert forall|k: Seq<char>| declared_map(after).contains_key(k) implies declared_map(after)[k]
        == m[k] by {
        let j = choose|j: int| 0 <= j < after.len() && #[trigger] after[j].0 == k;
        assert(declared_map(after)[after[j].0] == after[j].1);
        assert(after[i] == d);
        if j != i && k == d.0 {
            lemma_sorted_distinct(after, i, j);
        }
        if j < i {
            assert(ds[j] == after[j]);
            assert(declared_map(ds)[ds[j].0] == ds[j].1);
        } else if j > i {
            assert(ds[j - 1] == after[j]);
            assert(declared_map(ds)[ds[j - 1].0] == ds[j - 1].1);
        }
    }
    assert(declared_map(after) =~= m);
}

/// A sorted run has as many declarations as its mapping has names.
proof fn lemma_declared_len(ds: Seq<Declaration>)
    requires
        strictly_sorted(ds),
    ensures
        declared_map(ds).dom().finite(),
        declared_map(ds).dom().len() == ds.len(),
    decreases ds.len(),
{
    if ds.len() == 0 {
        assert(declared_map(ds).dom() =~= Set::<Seq<char>>::empty());
    } else {
        let rest = ds.drop_last();
        let last = ds.last();
        assert forall|a: int, b: int| 0 <= a < b < rest.len() implies lex_less(
            #[trigger] rest[a].0,
            #[trigger] rest[b].0,
        ) by {
            assert(rest[a] == ds[a] && rest[b] == ds[b]);
        }
        lemma_declared_len(rest);
        assert(!declares(rest, last.0)) by {
            if declares(rest, last.0) {
                let j = choose|j: int| 0 <= j < rest.len() && #[trigger] rest[j].0 == last.0;
                assert(rest[j] == ds[j]);
                lemma_sorted_distinct(ds, j, ds.len() - 1);
            }
        }
        assert(declared_map(ds).dom() =~= declared_map(rest).dom().insert(last.0)) by {
            assert forall|k: Seq<char>| declares(ds, k) == (declares(rest, k) || k == last.0) by {
                if declares(ds, k) {
                    let j = choose|j: int| 0 <= j < ds.len() && #[trigger] ds[j].0 == k;
                    if j < rest.len() {
                        assert(rest[j].0 == k);
                    }
                }
                if declares(rest, k) {
                    let j = choose|j: int| 0 <= j < rest.len() && #[trigger] rest[j].0 == k;
                    assert(ds[j].0 == k);
                }
                if k == last.0 {
                    assert(ds[ds.len() - 1].0 == k);
                }
            }
        }
    }
}


/// The styles of all regions of the slider.
#[derive(Clone, Debug)]
pub struct StyleSheet {
    pub container: Style,
    pub right_image: Style,
    pub left_image: Style,
    pub slider: Style,
    pub line: Style,
    pub handle_custom: Style,
    pub handle_default: Style,
    pub left_arrow: Style,
    pub right_arrow: Style,
    pub left_label: Style,
    pub right_label: Style,
    pub left_label_container: Style,
    pub right_label_container: Style,
}

/// The styles of all regions, as mappings.
pub struct StyleSheetModel {
    pub container: StyleModel,
    pub right_image: StyleModel,
    pub left_image: StyleModel,
    pub slider: StyleModel,
    pub line: StyleModel,
    pub handle_custom: StyleModel,
    pub handle_default: StyleModel,
    pub left_arrow: StyleModel,
    pub right_arrow: StyleModel,
    pub left_label: StyleModel,
    pub right_label: StyleModel,
    pub left_label_container: StyleModel,
    pub right_label_container: StyleModel,
}

impl View for StyleSheet {
    type V = StyleSheetModel;

    open spec fn view(&self) -> StyleSheetModel {
        StyleSheetModel {
            container: self.container@,
            right_image: self.right_image@,
            left_image: self.left_image@,
            slider: self.slider@,
            line: self.line@,
            handle_custom: self.handle_custom@,
            handle_default: self.handle_default@,
            left_arrow: self.left_arrow@,
            right_arrow: self.right_arrow@,
            left_label: self.left_label@,
            right_label: self.right_label@,
            left_label_container: self.left_label_container@,
            right_label_container: self.right_label_container@,
        }
    }
}

/// The style that a sheet holds under a region's name.
pub open spec fn region(sheet: StyleSheetModel, name: Seq<char>) -> Option<StyleModel> {
    if name == "container"@ {
        Some(sheet.container)
    } else if name == "right_image"@ {
        Some(sheet.right_image)
    } else if name == "left_image"@ {
        Some(sheet.left_image)
    } else if name == "slider"@ {
        Some(sheet.slider)
    } else if name == "line"@ {
        Some(sheet.line)
    } else if name == "handle_custom"@ {
        Some(sheet.handle_custom)
    } else if name == "handle_default"@ {
        Some(sheet.handle_default)
    } else if name == "left_arrow"@ {
        Some(sheet.left_arrow)
    } else if name == "right_arrow"@ {
        Some(sheet.right_arrow)
    } else if name == "left_label"@ {
        Some(sheet.left_label)
    } else if name == "right_label"@ {
        Some(sheet.right_label)
    } else if name == "left_label_container"@ {
        Some(sheet.left_label_container)
    } else if name == "right_label_container"@ {
        Some(sheet.right_label_container)
    } else {
        None
    }
}

impl StyleSheet {
    /// The style of the region `name`, if the sheet has such a region.
    pub fn get(&self, name: &str) -> (style: Option<&Style>)
        ensures
            style is Some <==> region(self@, name@) is Some,
            style matches Some(found) ==> Some(found@) == region(self@, name@),
    {
        if same_text(name, "container") {
            Some(&self.container)
        } else if same_text(name, "right_image") {
            Some(&self.right_image)
        } else if same_text(name, "left_image") {
            Some(&self.left_image)
        } else if same_text(name, "slider") {
            Some(&self.slider)
        } else if same_text(name, "line") {
            Some(&self.line)
        } else if same_text(name, "handle_custom") {
            Some(&self.handle_custom)
        } else if same_text(name, "handle_default") {
            Some(&self.handle_default)
        } else if same_text(name, "left_arrow") {
            Some(&self.left_arrow)
        } else if same_text(name, "right_arrow") {
            Some(&self.right_arrow)
        } else if same_text(name, "left_label") {
            Some(&self.left_label)
        } else if same_text(name, "right_label") {
            Some(&self.right_label)
        } else if same_text(name, "left_label_container") {
            Some(&self.left_label_container)
        } else if same_text(name, "right_label_container") {
            Some(&self.right_label_container)
        } else {
            None
        }
    }
}

/// The overrides that an inline CSS text declares, if there is one.
pub open spec fn css_overrides(css: Option<Seq<char>>) -> Option<Seq<Pair>> {
    match css {
        Some(text) => Some(declarations(text)),
        None => None,
    }
}

/// The styles of all regions for a geometry, an interaction state and the
/// overrides of the two images.
pub open spec fn style_sheet_model(
    handle_size: u32,
    container_height: Fixed,
    container_width: Fixed,
    slider_position: Fixed,
    slider_line_width: Fixed,
    slider_line_color: Seq<char>,
    is_sliding: bool,
    horizontal: bool,
    hover: bool,
    left_overrides: Option<Seq<Pair>>,
    right_overrides: Option<Seq<Pair>>,
) -> StyleSheetModel {
    StyleSheetModel {
        container: container_model(container_height),
        right_image: right_image_model(
            horizontal,
            container_width,
            slider_position,
            container_height,
            right_overrides,
        ),
        left_image: left_image_model(
            horizontal,
            container_width,
            slider_position,
            container_height,
            left_overrides,
        ),
        slider: slider_model(
            horizontal,
            hover,
            container_width,
            slider_position,
            handle_size,
            container_height,
        ),
        line: line_model(slider_line_color, horizontal, slider_line_width),
        handle_custom: handle_custom_model(),
        handle_default: handle_default_model(
            horizontal,
            slider_line_width,
            slider_line_color,
            handle_size,
        ),
        left_arrow: left_arrow_model(handle_size, slider_line_color),
        right_arrow: right_arrow_model(handle_size, slider_line_color),
        left_label: left_label_model(horizontal, is_sliding),
        right_label: right_label_model(horizontal, is_sliding),
        left_label_container: left_label_container_model(
            horizontal,
            container_width,
            slider_position,
            container_height,
        ),
        right_label_container: right_label_container_model(
            horizontal,
            container_width,
            slider_position,
            container_height,
        ),
    }
}

/// The declarations of an optional inline CSS text.
fn parse_overrides(css: Option<&str>) -> (pairs: Option<Vec<(String, String)>>)
    ensures
        crate::regions::overrides_model(pairs) == css_overrides(
            match css {
                Some(text) => Some(text@),
                None => None,
            },
        ),
{
    match css {
        Some(text) => Some(parse_declarations(text)),
        None => None,
    }
}

/// The view of an optional text.
pub open spec fn optional_text(css: Option<&str>) -> Option<Seq<char>> {
    match css {
        Some(text) => Some(text@),
        None => None,
    }
}

/// The styles of all regions, computed from the geometry, the interaction
/// state and the inline CSS with which the caller overrides the images'
/// styles.
#[must_use]
pub fn create_styles(
    handle_size: u32,
    container_height: Fixed,
    container_width: Fixed,
    slider_position: Fixed,
    slider_line_width: Fixed,
    slider_line_color: &str,
    is_sliding: bool,
    horizontal: bool,
    hover: bool,
    left_image_css: Option<&str>,
    right_image_css: Option<&str>,
) -> (styles: StyleSheet)
    ensures
        styles@ == style_sheet_model(
            handle_size,
            container_height,
            container_width,
            slider_position,
            slider_line_width,
            slider_line_color@,
            is_sliding,
            horizontal,
            hover,
            css_overrides(optional_text(left_image_css)),
            css_overrides(optional_text(right_image_css)),
        ),
{
    let left_overrides = parse_overrides(left_image_css);
    let right_overrides = parse_overrides(right_image_css);
    StyleSheet {
        container: container(container_height),
        right_image: right_image(
            horizontal,
            container_width,
            slider_position,
            container_height,
            right_overrides,
        ),
        left_image: left_image(
            horizontal,
            container_width,
            slider_position,
            container_height,
            left_overrides,
        ),
        slider: slider(
            horizontal,
            hover,
            container_width,
            slider_position,
            handle_size,
            container_height,
        ),
        line: line(slider_line_color, horizontal, slider_line_width),
        handle_custom: handle_custon(),
        handle_default: handle_default(
            horizontal,
            slider_line_width,
            slider_line_color,
            handle_size,
        ),
        left_arrow: left_arrow(handle_size, slider_line_color),
        right_arrow: right_arrow(handle_size, slider_line_color),
        left_label: left_label(horizontal, is_sliding),
        right_label: right_label(horizontal, is_sliding),
        left_label_container: left_label_container(
            horizontal,
            container_width,
            slider_position,
            container_height,
        ),
        right_label_container: right_label_container(
            horizontal,
            container_width,
            slider_position,
            container_height,
        ),
    }
}

/// The CSS text of each region of a sheet, in the order container, right
/// image, left image, slider, line, custom handle, default handle, left
/// arrow, right arrow, left label, right label, left label container,
/// right label container.
pub open spec fn sheet_css(sheet: StyleSheetModel) -> Seq<Seq<char>> {
    seq![
        style_css(sheet.container),
        style_css(sheet.right_image),
        style_css(sheet.left_image),
        style_css(sheet.slider),
        style_css(sheet.line),
        style_css(sheet.handle_custom),
        style_css(sheet.handle_default),
        style_css(sheet.left_arrow),
        style_css(sheet.right_arrow),
        style_css(sheet.left_label),
        style_css(sheet.right_label),
        style_css(sheet.left_label_container),
        style_css(sheet.right_label_container),
    ]
}

/// Computing the styles is a function of its inputs: two sheets computed
/// from the same geometry, state and overrides hold the same mappings, and
/// every region prints the same text.
pub proof fn lemma_styles_are_determined(
    first: StyleSheet,
    second: StyleSheet,
    handle_size: u32,
    container_height: Fixed,
    container_width: Fixed,
    slider_position: Fixed,
    slider_line_width: Fixed,
    slider_line_color: Seq<char>,
    is_sliding: bool,
    horizontal: bool,
    hover: bool,
    left_image_css: Option<Seq<char>>,
    right_image_css: Option<Seq<char>>,
)
    requires
        first@ == style_sheet_model(
            handle_size,
            container_height,
            container_width,
            slider_position,
            slider_line_width,
            slider_line_color,
            is_sliding,
            horizontal,
            hover,
            css_overrides(left_image_css),
            css_overrides(right_image_css),
        ),
        second@ == style_sheet_model(
            handle_size,
            container_height,
            container_width,
            slider_position,
            slider_line_width,
            slider_line_color,
            is_sliding,
            horizontal,
            hover,
            css_overrides(left_image_css),
            css_overrides(right_image_css),
        ),
    ensures
        first@ == second@,
        sheet_css(first@) == sheet_css(second@),
        forall|name: Seq<char>| region(first@, name) == region(second@, name),
{
}

/// Two styles that hold the same mapping print the same text, however
/// they were built.
pub proof fn lemma_equal_styles_print_alike(first: Style, second: Style)
    requires
        first@ == second@,
    ensures
        style_css(first@) == style_css(second@),
{
}

} // verus!
