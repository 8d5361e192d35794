//! TOML documents as trees, read and written by the `toml` crate.

use crate::nesting::spec_nesting;
use crate::text::str_eq;
use vstd::prelude::*;
use vstd::string::*;

verus! {

#[verifier::external_type_specification]
#[verifier::external_body]
pub struct ExTomlValue(toml::Value);

#[verifier::external_type_specification]
#[verifier::external_body]
pub struct ExTomlDeError(toml::de::Error);

#[verifier::external_type_specification]
#[verifier::external_body]
pub struct ExTomlSerError(toml::ser::Error);

/// A value of a TOML document.
#[derive(Debug)]
pub enum TomlValue {
    /// A string.
    String(String),
    /// An integer.
    Integer(i64),
    /// A float, held as its decimal text.
    Float(String),
    /// A boolean.
    Boolean(bool),
    /// A date and time, held as its text.
    Datetime(String),
    /// An array of values.
    Array(Vec<TomlValue>),
    /// A table of values.
    Table(TomlTable),
}

/// A table of a TOML document: values under keys, no key twice.
#[derive(Debug)]
pub struct TomlTable {
    entries: Vec<(String, TomlValue)>,
}

/// What a `TomlValue` stands for.
pub ghost enum ValueView {
    String(Seq<char>),
    Integer(i64),
    Float(Seq<char>),
    Boolean(bool),
    Datetime(Seq<char>),
    Array(Seq<ValueView>),
    Table(Map<Seq<char>, ValueView>),
}

/// How deeply a document may be nested to be read or written. Reading and writing take
/// stack for each level of nesting.
pub const MAX_NESTING: usize = 256;

/// Whether a tree has at most `budget` levels: a value that is no array and no table is
/// one level, and an array or a table is one level above its values.
pub open spec fn within(v: ValueView, budget: nat) -> bool
    decreases budget,
{
    if budget == 0 {
        false
    } else {
        match v {
            ValueView::Array(a) => forall|i: int|
                0 <= i < a.len() ==> within(#[trigger] a[i], (budget - 1) as nat),
            ValueView::Table(m) => forall|k: Seq<char>| #[trigger]
                m.dom().contains(k) ==> within(m[k], (budget - 1) as nat),
            _ => true,
        }
    }
}

/// A tree that has at most `a` levels has at most `b` levels, for any larger `b`.
pub proof fn lemma_within_more(v: ValueView, a: nat, b: nat)
    requires
        within(v, a),
        a <= b,
    ensures
        within(v, b),
    decreases a,
{
    match v {
        ValueView::Array(items) => {
            assert forall|i: int| 0 <= i < items.len() implies within(
                #[trigger] items[i],
                (b - 1) as nat,
            ) by {
                lemma_within_more(items[i], (a - 1) as nat, (b - 1) as nat);
            }
        },
        ValueView::Table(m) => {
            assert forall|k: Seq<char>| #[trigger] m.dom().contains(k) implies within(
                m[k],
                (b - 1) as nat,
            ) by {
                lemma_within_more(m[k], (a - 1) as nat, (b - 1) as nat);
            }
        },
        _ => {},
    }
}

/// The tree of the document that a text holds, as `toml` reads it; `None` for a text that
/// is no TOML document.
pub uninterp spec fn toml_parse(text: Seq<char>) -> Option<ValueView>;

/// The text that `toml` writes for a tree; `None` for a tree that it does not write.
pub uninterp spec fn toml_render(tree: ValueView) -> Option<Seq<char>>;

/// Turns a value of `toml` into the library's own, kind by kind; a float and a date are
/// kept as the text that their `Display` writes. A table of `toml` is a map, which holds
/// each key once, so each table of the result does.
#[verifier::external_body]
fn from_toml(v: toml::Value) -> TomlValue {
    match v {
        toml::Value::String(s) => TomlValue::String(s),
        toml::Value::Integer(i) => TomlValue::Integer(i),
        toml::Value::Float(f) => TomlValue::Float(f.to_string()),
        toml::Value::Boolean(b) => TomlValue::Boolean(b),
        toml::Value::Datetime(d) => TomlValue::Datetime(d.to_string()),
        toml::Value::Array(a) => TomlValue::Array(a.into_iter().map(from_toml).collect()),
        toml::Value::Table(t) => TomlValue::Table(
            TomlTable { entries: t.into_iter().map(|(k, v)| (k, from_toml(v))).collect() },
        ),
    }
}

/// Turns a value of the library into one of `toml`, kind by kind; the text of a float or of
/// a date is read back, and a text that is none is an invalid number or date of `toml`.
#[verifier::external_body]
fn to_toml(v: &TomlValue) -> Result<toml::Value, toml::ser::Error> {
    let number = |_| toml::ser::Error::NumberInvalid;
    let date = |_| toml::ser::Error::DateInvalid;
    Ok(match v {
        TomlValue::String(s) => toml::Value::String(s.clone()),
        TomlValue::Integer(i) => toml::Value::Integer(*i),
        TomlValue::Float(s) => s.parse().map(toml::Value::Float).map_err(number)?,
        TomlValue::Boolean(b) => toml::Value::Boolean(*b),
        TomlValue::Datetime(s) => s.parse().map(toml::Value::Datetime).map_err(date)?,
        TomlValue::Array(a) => toml::Value::Array(a.iter().map(to_toml).collect::<Result<_, _>>()?),
        TomlValue::Table(t) => table_to_toml(t)?,
    })
}

/// Turns a table of the library into one of `toml`, entry by entry.
#[verifier::external_body]
fn table_to_toml(t: &TomlTable) -> Result<toml::Value, toml::ser::Error> {
    let entries = t.entries.iter().map(|(k, v)| to_toml(v).map(|x| (k.clone(), x)));
    entries.collect::<Result<_, _>>().map(toml::Value::Table)
}

/// Reads a document with the `FromStr` of `toml::Value`, which parses the whole text as a
/// TOML document and fails on any text that is none. The result depends on the text alone.
/// The parser calls itself for each array and inline table within another and for each
/// part of a dotted key, and what it returns is as deep as the headers, keys and values of
/// the text make it. These are the levels that `spec_nesting` counts, reading comments and
/// strings as the tokenizer of `toml` does, so a text that is nested too deeply is kept
/// from the parser.
#[verifier::external_body]
pub(crate) fn toml_from_str(text: &str) -> (r: Result<TomlValue, toml::de::Error>)
    requires
        spec_nesting(text.spec_bytes()) <= MAX_NESTING,
    ensures
        r is Ok <==> toml_parse(text@) is Some,
        r matches Ok(v) ==> Some(v.view()) == toml_parse(text@),
{
    text.parse::<toml::Value>().map(from_toml)
}

/// Writes a document with `toml::to_string`, which fails on a tree that it cannot lay out
/// as a TOML document; so does a tree with a float or a date whose text is none. The keys
/// of a table are written in their sorted order, so the result depends on the tree alone.
/// The writer calls itself for each level of the tree, so a tree with too many levels is
/// kept from it.
#[verifier::external_body]
pub(crate) fn toml_to_string(v: &TomlValue) -> (r: Result<String, toml::ser::Error>)
    requires
        within(v.view(), MAX_NESTING as nat),
    ensures
        r is Ok <==> toml_render(v.view()) is Some,
        r matches Ok(s) ==> Some(s@) == toml_render(v.view()),
{
    to_toml(v).and_then(|value| toml::to_string(&value))
}

/// The message of an error of `toml::from_str`, as its `Display` writes it.
#[verifier::external_body]
pub(crate) fn de_error_message(e: &toml::de::Error) -> String {
    e.to_string()
}

/// The message of an error of `toml::to_string`, as its `Display` writes it.
#[verifier::external_body]
pub(crate) fn ser_error_message(e: &toml::ser::Error) -> String {
    e.to_string()
}

/// Some position of a key among the entries of a table.
spec fn key_index(entries: Seq<(String, TomlValue)>, k: Seq<char>) -> int {
    choose|i: int| 0 <= i < entries.len() && entries[i].0@ == k
}

impl TomlValue {
    /// The tree that the value stands for.
    pub closed spec fn view(&self) -> ValueView
        decreases self,
    {
        match self {
            TomlValue::String(s) => ValueView::String(s@),
            TomlValue::Integer(i) => ValueView::Integer(*i),
            TomlValue::Float(s) => ValueView::Float(s@),
            TomlValue::Boolean(b) => ValueView::Boolean(*b),
            TomlValue::Datetime(s) => ValueView::Datetime(s@),
            TomlValue::Array(a) => ValueView::Array(
                Seq::new(
                    a@.len(),
                    |i: int|
                        if 0 <= i < a@.len() {
                            a@[i].view()
                        } else {
                            ValueView::Boolean(false)
                        },
                ),
            ),
            TomlValue::Table(t) => ValueView::Table(
                Map::new(
                    |k: Seq<char>|
                        exists|i: int| 0 <= i < t.entries@.len() && t.entries@[i].0@ == k,
                    |k: Seq<char>|
                        {
                            let i = key_index(t.entries@, k);
                            if 0 <= i < t.entries@.len() {
                                t.entries@[i].1.view()
                            } else {
                                ValueView::Boolean(false)
                            }
                        },
                ),
            ),
        }
    }

    /// What each kind of value stands for.
    pub proof fn lemma_view(&self)
        ensures
            match *self {
                TomlValue::String(s) => self.view() == ValueView::String(s@),
                TomlValue::Integer(i) => self.view() == ValueView::Integer(i),
                TomlValue::Float(s) => self.view() == ValueView::Float(s@),
                TomlValue::Boolean(b) => self.view() == ValueView::Boolean(b),
                TomlValue::Datetime(s) => self.view() == ValueView::Datetime(s@),
                TomlValue::Array(a) => self.view() == ValueView::Array(
                    Seq::new(a@.len(), |i: int| a@[i].view()),
                ),
                TomlValue::Table(t) => self.view() == ValueView::Table(t@),
            },
    {
        match *self {
            TomlValue::Array(a) => {
                assert(self.view()->Array_0 =~= Seq::new(a@.len(), |i: int| a@[i].view()));
            },
            _ => {},
        }
    }
}

impl View for TomlTable {
    type V = Map<Seq<char>, ValueView>;

    closed spec fn view(&self) -> Map<Seq<char>, ValueView> {
        TomlValue::Table(*self).view()->Table_0
    }
}

impl TomlTable {
    /// The keys, in the order in which the table holds them.
    pub closed spec fn keys(&self) -> Seq<Seq<char>> {
        Seq::new(self.entries@.len(), |i: int| self.entries@[i].0@)
    }

    /// The values, each at the position of its key.
    pub closed spec fn values(&self) -> Seq<ValueView> {
        Seq::new(self.entries@.len(), |i: int| self.entries@[i].1.view())
    }

    /// No key occurs twice.
    #[verifier::type_invariant]
    pub open spec fn wf(&self) -> bool {
        &&& self.keys().no_duplicates()
        &&& self.keys().len() == self.values().len()
    }

    /// The keys of the map are the keys of the table, and in a valid table the key at a
    /// position maps to the value at that position.
    pub proof fn lemma_view_at(&self, i: int)
        requires
            self.wf(),
            0 <= i < self.keys().len(),
        ensures
            self@.dom().contains(self.keys()[i]),
            self@[self.keys()[i]] == self.values()[i],
    {
        let k = self.keys()[i];
        assert(self.entries@[i].0@ == k);
        let j = key_index(self.entries@, k);
        assert(0 <= j < self.entries@.len() && self.entries@[j].0@ == k);
        assert(self.keys()[j] == k);
    }

    /// A key of the map is a key of the table.
    pub proof fn lemma_dom(&self, k: Seq<char>)
        ensures
            self@.dom().contains(k) <==> self.keys().contains(k),
    {
        if self@.dom().contains(k) {
            let i = choose|i: int| 0 <= i < self.entries@.len() && self.entries@[i].0@ == k;
            assert(self.keys()[i] == k);
        }
        if self.keys().contains(k) {
            let i = choose|i: int| 0 <= i < self.keys().len() && self.keys()[i] == k;
            assert(self.entries@[i].0@ == k);
        }
    }

    /// A table without entries.
    pub fn new() -> (r: TomlTable)
        ensures
            r@ == Map::<Seq<char>, ValueView>::empty(),
            r.keys() == Seq::<Seq<char>>::empty(),
    {
        let r = TomlTable { entries: Vec::new() };
        assert(r@ =~= Map::<Seq<char>, ValueView>::empty());
        assert(r.keys() =~= Seq::<Seq<char>>::empty());
        r
    }

    /// The number of entries.
    pub fn len(&self) -> (n: usize)
        ensures
            n == self.keys().len(),
            n == self.values().len(),
    {
        self.entries.len()
    }

    /// The key at a position.
    pub fn key_at(&self, i: usize) -> (r: &str)
        requires
            i < self.keys().len(),
        ensures
            r@ == self.keys()[i as int],
    {
        self.entries[i].0.as_str()
    }

    /// The value at a position.
    pub fn value_at(&self, i: usize) -> (r: &TomlValue)
        requires
            i < self.values().len(),
        ensures
            r.view() == self.values()[i as int],
    {
        &self.entries[i].1
    }

    /// The position of a key.
    fn position(&self, key: &str) -> (r: Option<usize>)
        ensures
            r is Some <==> self.keys().contains(key@),
            r matches Some(i) ==> i < self.keys().len() && self.keys()[i as int] == key@,
    {
        let mut i: usize = 0;
        while i < self.entries.len()
            invariant
                i <= self.entries@.len(),
                forall|j: int| 0 <= j < i ==> self.keys()[j] != key@,
            decreases self.entries@.len() - i,
        {
            if str_eq(self.entries[i].0.as_str(), key) {
                assert(self.keys()[i as int] == key@);
                return Some(i);
            }
            i += 1;
        }
        None
    }

    /// The value under a key.
    pub fn get(&self, key: &str) -> (r: Option<&TomlValue>)
        ensures
            r is Some <==> self@.dom().contains(key@),
            r matches Some(v) ==> v.view() == self@[key@],
    {
        proof {
            use_type_invariant(self);
            self.lemma_dom(key@);
        }
        match self.position(key) {
            Some(i) => {
                proof {
                    self.lemma_view_at(i as int);
                }
                Some(&self.entries[i].1)
            },
            None => None,
        }
    }

    /// Puts a value under a key, in place of the value that the key had.
    pub fn insert(&mut self, key: String, value: TomlValue)
        ensures
            final(self)@ == old(self)@.insert(key@, value.view()),
    {
        proof {
            use_type_invariant(&*self);
        }
        let ghost before = *self;
        let ghost k = key@;
        let ghost v = value.view();
        let found = self.position(key.as_str());
        let mut entries: Vec<(String, TomlValue)> = Vec::new();
        std::mem::swap(&mut self.entries, &mut entries);
        match found {
            Some(i) => {
                entries.remove(i);
                entries.insert(i, (key, value));
            },
            None => {
                entries.push((key, value));
            },
        }
        proof {
            let after = TomlTable { entries: entries };
            let n = before.keys().len() as int;
            match found {
                Some(i) => {
                    assert(after.keys() =~= before.keys());
                    assert(after.values() =~= before.values().update(i as int, v));
                },
                None => {
                    assert(after.keys() =~= before.keys().push(k));
                    assert(after.values() =~= before.values().push(v));
                    assert forall|i: int, j: int|
                        0 <= i < after.keys().len() && 0 <= j < after.keys().len() && i
                            != j implies after.keys()[i] != after.keys()[j] by {
                        if i < n && j < n {
                            assert(before.keys()[i] != before.keys()[j]);
                        } else if i < n {
                            assert(before.keys()[i] == after.keys()[i]);
                        } else {
                            assert(before.keys()[j] == after.keys()[j]);
                        }
                    }
                },
            }
            assert(after.wf());
            let want = before@.insert(k, v);
            assert forall|q: Seq<char>| #[trigger] after@.dom().contains(q) <==> want.dom().contains(
                q,
            ) by {
                after.lemma_dom(q);
                before.lemma_dom(q);
                if before.keys().contains(q) {
                    let j = choose|j: int| 0 <= j < n && before.keys()[j] == q;
                    assert(after.keys()[j] == q);
                }
                if q == k {
                    match found {
                        Some(i) => {
                            assert(after.keys()[i as int] == q);
                        },
                        None => {
                            assert(after.keys()[n] == q);
                        },
                    }
                }
                if after.keys().contains(q) {
                    let j = choose|j: int| 0 <= j < after.keys().len() && after.keys()[j] == q;
                    if j < n {
                        assert(before.keys()[j] == q);
                    }
                }
            }
            assert forall|q: Seq<char>| after@.dom().contains(q) implies #[trigger] after@[q]
                == want[q] by {
                after.lemma_dom(q);
                let j = choose|j: int| 0 <= j < after.keys().len() && after.keys()[j] == q;
                after.lemma_view_at(j);
                if q != k {
                    assert(j < n && before.keys()[j] == q);
                    before.lemma_view_at(j);
                } else {
                    match found {
                        Some(i) => {
                            assert(j == i);
                        },
                        None => {
                            if j < n {
                                assert(before.keys()[j] == q);
                            }
                        },
                    }
                }
            }
            assert(after@ =~= want);
        }
        self.entries = entries;
    }
}

impl TomlValue {
    /// The string that the value is, where it is one.
    pub fn as_str(&self) -> (r: Option<&str>)
        ensures
            r is Some <==> self.view() is String,
            r matches Some(s) ==> self.view() == ValueView::String(s@),
    {
        proof {
            self.lemma_view();
        }
        match self {
            TomlValue::String(s) => Some(s.as_str()),
            _ => None,
        }
    }

    /// The integer that the value is, where it is one.
    pub fn as_integer(&self) -> (r: Option<i64>)
        ensures
            r is Some <==> self.view() is Integer,
            r matches Some(i) ==> self.view() == ValueView::Integer(i),
    {
        proof {
            self.lemma_view();
        }
        match self {
            TomlValue::Integer(i) => Some(*i),
            _ => None,
        }
    }

    /// The values of the array that the value is, where it is one.
    pub fn as_array(&self) -> (r: Option<&Vec<TomlValue>>)
        ensures
            r is Some <==> self.view() is Array,
            r matches Some(a) ==> self.view() == ValueView::Array(
                Seq::new(a@.len(), |i: int| a@[i].view()),
            ),
    {
        proof {
            self.lemma_view();
        }
        match self {
            TomlValue::Array(a) => Some(a),
            _ => None,
        }
    }

    /// The table that the value is, where it is one.
    pub fn as_table(&self) -> (r: Option<&TomlTable>)
        ensures
            r is Some <==> self.view() is Table,
            r matches Some(t) ==> self.view() == ValueView::Table(t@),
    {
        proof {
            self.lemma_view();
        }
        match self {
            TomlValue::Table(t) => Some(t),
            _ => None,
        }
    }
}

impl TomlValue {
    /// Whether the tree has at most `budget` levels.
    pub fn fits(&self, budget: usize) -> (r: bool)
        ensures
            r == within(self.view(), budget as nat),
        decreases budget,
    {
        proof {
            self.lemma_view();
        }
        if budget == 0 {
            return false;
        }
        match self {
            TomlValue::Array(a) => {
                let ghost items = Seq::new(a@.len(), |i: int| a@[i].view());
                let mut i: usize = 0;
                while i < a.len()
                    invariant
                        i <= a@.len(),
                        budget > 0,
                        items == Seq::new(a@.len(), |i: int| a@[i].view()),
                        self.view() == ValueView::Array(items),
                        forall|j: int|
                            0 <= j < i ==> within(#[trigger] items[j], (budget - 1) as nat),
                    decreases a@.len() - i,
                {
                    if !a[i].fits(budget - 1) {
                        proof {
                            let v = ValueView::Array(items);
                            assert(!within(items[i as int], (budget - 1) as nat));
                            if within(v, budget as nat) {
                                assert(within(v->Array_0[i as int], (budget - 1) as nat));
                            }
                        }
                        return false;
                    }
                    i += 1;
                }
                true
            },
            TomlValue::Table(t) => {
                proof {
                    use_type_invariant(t);
                }
                let n = t.len();
                let mut i: usize = 0;
                while i < n
                    invariant
                        i <= n,
                        budget > 0,
                        t.wf(),
                        self.view() == ValueView::Table(t@),
                        n == t.keys().len(),
                        n == t.values().len(),
                        forall|j: int|
                            0 <= j < i ==> within(#[trigger] t.values()[j], (budget - 1) as nat),
                    decreases n - i,
                {
                    if !t.value_at(i).fits(budget - 1) {
                        proof {
                            t.lemma_view_at(i as int);
                        }
                        return false;
                    }
                    i += 1;
                }
                proof {
                    assert forall|k: Seq<char>| #[trigger] t@.dom().contains(k) implies within(
                        t@[k],
                        (budget - 1) as nat,
                    ) by {
                        t.lemma_dom(k);
                        let j = choose|j: int| 0 <= j < t.keys().len() && t.keys()[j] == k;
                        t.lemma_view_at(j);
                    }
                }
                true
            },
            _ => true,
        }
    }
}

} // verus!
