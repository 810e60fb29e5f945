//! Documents of the key-value encoding, as plain values.
use vstd::prelude::*;

verus! {

/// A number of a document, as the key-value encoding tells them apart.
#[derive(Clone, Copy, Debug, PartialEq, Eq, Hash)]
pub enum Number {
    /// A whole number that is not negative.
    PosInt(u64),
    /// A whole number, most often a negative one.
    NegInt(i64),
    /// A binary64 floating-point number, by its bit pattern.
    Float(u64),
}

/// A value of a document.
#[derive(Debug, PartialEq, Eq, Hash)]
pub enum Json {
    Null,
    Bool(bool),
    Number(Number),
    Text(String),
    Array(Vec<Json>),
    /// A record: its entries, in the order in which they were handed over.
    Object(Vec<(String, Json)>),
}

/// What a [`Number`] stands for.
pub enum Numeral {
    /// A whole number.
    Int(int),
    /// The bit pattern of a binary64 floating-point number.
    Float(u64),
}

/// What a [`Json`] stands for.
pub enum Tree {
    Null,
    Bool(bool),
    Number(Numeral),
    Text(Seq<char>),
    Array(Seq<Tree>),
    Object(Seq<(Seq<char>, Tree)>),
}

impl View for Number {
    type V = Numeral;

    open spec fn view(&self) -> Numeral {
        match *self {
            Number::PosInt(u) => Numeral::Int(u as int),
            Number::NegInt(i) => Numeral::Int(i as int),
            Number::Float(bits) => Numeral::Float(bits),
        }
    }
}

impl View for Json {
    type V = Tree;

    open spec fn view(&self) -> Tree
        decreases self,
    {
        match self {
            Json::Null => Tree::Null,
            Json::Bool(b) => Tree::Bool(*b),
            Json::Number(n) => Tree::Number(n@),
            Json::Text(s) => Tree::Text(s@),
            Json::Array(items) => Tree::Array(
                Seq::new(
                    items@.len(),
                    |i: int|
                        if 0 <= i < items@.len() {
                            items@[i]@
                        } else {
                            Tree::Null
                        },
                ),
            ),
            Json::Object(entries) => Tree::Object(
                Seq::new(
                    entries@.len(),
                    |i: int|
                        if 0 <= i < entries@.len() {
                            (entries@[i].0@, entries@[i].1@)
                        } else {
                            (Seq::empty(), Tree::Null)
                        },
                ),
            ),
        }
    }
}

/// The view of an array holds the views of its items, in their order.
pub proof fn lemma_array_view(items: Vec<Json>)
    ensures
        Json::Array(items)@ is Array,
        Json::Array(items)@->Array_0.len() == items@.len(),
        forall|k: int|
            0 <= k < items@.len() ==> (#[trigger] Json::Array(items)@->Array_0[k]) == items@[k]@,
{
    reveal_with_fuel(<Json as View>::view, 2);
}

/// The view of a record holds the views of its entries, in their order.
pub proof fn lemma_object_view(entries: Vec<(String, Json)>)
    ensures
        Json::Object(entries)@ is Object,
        Json::Object(entries)@.entries() == Json::Object(entries)@->Object_0,
        Json::Object(entries)@.entries().len() == entries@.len(),
        forall|k: int|
            0 <= k < entries@.len() ==> (#[trigger] Json::Object(entries)@.entries()[k]) == (
                entries@[k].0@,
                entries@[k].1@,
            ),
{
    reveal_with_fuel(<Json as View>::view, 2);
}

/// The value of the first entry, from `from` on, whose key is `key`.
pub open spec fn lookup_from(entries: Seq<(Seq<char>, Tree)>, key: Seq<char>, from: int) -> Option<
    Tree,
>
    decreases entries.len() - from,
{
    if from < 0 || from >= entries.len() {
        None
    } else if entries[from].0 == key {
        Some(entries[from].1)
    } else {
        lookup_from(entries, key, from + 1)
    }
}

impl Tree {
    /// The entries of a record; none for every other value.
    pub open spec fn entries(self) -> Seq<(Seq<char>, Tree)> {
        match self {
            Tree::Object(entries) => entries,
            _ => Seq::empty(),
        }
    }

    /// The value of the first entry of a record whose key is `key`.
    pub open spec fn get(self, key: Seq<char>) -> Option<Tree> {
        lookup_from(self.entries(), key, 0)
    }

    /// The value under `key`, or else the one under `alias`.
    pub open spec fn get_either(self, key: Seq<char>, alias: Seq<char>) -> Option<Tree> {
        match self.get(key) {
            Some(t) => Some(t),
            None => self.get(alias),
        }
    }
}

impl Json {
    /// Reads a document of the key-value encoding from a text. The entries
    /// of its records come in the order of their keys, and of two entries
    /// with one key the last is kept.
    pub fn parse(text: &str) -> (r: Option<Json>)
        ensures
            match r {
                Some(document) => crate::wire::parsed(text@) == Some(document@),
                None => crate::wire::parsed(text@) is None,
            },
    {
        match crate::wire::parse_text(text) {
            Some(value) => Some(crate::wire::lift(&value)),
            None => None,
        }
    }

    /// The value of the first entry of a record whose key is `key`.
    pub fn get(&self, key: &str) -> (r: Option<&Json>)
        ensures
            match r {
                Some(j) => self@.get(key@) == Some(j@),
                None => self@.get(key@) is None,
            },
    {
        match self {
            Json::Object(entries) => {
                proof {
                    lemma_object_view(*entries);
                }
                let mut i: usize = 0;
                while i < entries.len()
                    invariant
                        i <= entries.len(),
                        self@ == Tree::Object(self@.entries()),
                        self@.entries().len() == entries.len(),
                        forall|k: int|
                            0 <= k < entries.len() ==> #[trigger] self@.entries()[k] == (
                                entries@[k].0@,
                                entries@[k].1@,
                            ),
                        lookup_from(self@.entries(), key@, 0) == lookup_from(
                            self@.entries(),
                            key@,
                            i as int,
                        ),
                    decreases entries.len() - i,
                {
                    if crate::text::same_text(entries[i].0.as_str(), key) {
                        return Some(&entries[i].1);
                    }
                    i += 1;
                }
                None
            },
            _ => None,
        }
    }

    /// The value under `key`, or else the one under `alias`.
    pub fn get_either(&self, key: &str, alias: &str) -> (r: Option<&Json>)
        ensures
            match r {
                Some(j) => self@.get_either(key@, alias@) == Some(j@),
                None => self@.get_either(key@, alias@) is None,
            },
    {
        match self.get(key) {
            Some(j) => Some(j),
            None => self.get(alias),
        }
    }

    /// Whether the value is a record.
    pub fn is_object(&self) -> (r: bool)
        ensures
            r == (self@ is Object),
    {
        match self {
            Json::Object(_) => true,
            _ => false,
        }
    }

    /// The items of an array.
    pub fn items(&self) -> (r: Option<&Vec<Json>>)
        ensures
            match r {
                Some(items) => self@ is Array && self@->Array_0 == crate::coerce::views(items@),
                None => !(self@ is Array),
            },
    {
        match self {
            Json::Array(items) => {
                proof {
                    lemma_array_view(*items);
                    assert(self@->Array_0 =~= crate::coerce::views(items@));
                }
                Some(items)
            },
            _ => None,
        }
    }

    /// A copy that holds the same document.
    pub fn duplicate(&self) -> (r: Json)
        ensures
            r@ == self@,
        decreases self,
    {
        match self {
            Json::Null => Json::Null,
            Json::Bool(b) => Json::Bool(*b),
            Json::Number(n) => Json::Number(*n),
            Json::Text(s) => Json::Text(s.clone()),
            Json::Array(items) => {
                let mut out: Vec<Json> = Vec::new();
                let mut i: usize = 0;
                while i < items.len()
                    invariant
                        i <= items.len(),
                        out.len() == i,
                        *self == Json::Array(*items),
                        forall|k: int| 0 <= k < i ==> (#[trigger] out@[k])@ == items@[k]@,
                    decreases items.len() - i,
                {
                    proof {
                        vstd::std_specs::vec::axiom_vec_index_decreases(*items, i as int);
                        assert(*self is Array && self->Array_0 == *items);
                    }
                    out.push(items[i].duplicate());
                    i += 1;
                }
                proof {
                    lemma_array_view(*items);
                    lemma_array_view(out);
                    assert(Json::Array(out)@->Array_0 =~= Json::Array(*items)@->Array_0);
                }
                Json::Array(out)
            },
            Json::Object(entries) => {
                let mut out: Vec<(String, Json)> = Vec::new();
                let mut i: usize = 0;
                while i < entries.len()
                    invariant
                        i <= entries.len(),
                        out.len() == i,
                        *self == Json::Object(*entries),
                        forall|k: int|
                            0 <= k < i ==> (#[trigger] out@[k]).0@ == entries@[k].0@ && out@[k].1@
                                == entries@[k].1@,
                    decreases entries.len() - i,
                {
                    proof {
                        vstd::std_specs::vec::axiom_vec_index_decreases(*entries, i as int);
                        assert(*self is Object && self->Object_0 == *entries);
                    }
                    out.push((entries[i].0.clone(), entries[i].1.duplicate()));
                    i += 1;
                }
                proof {
                    lemma_object_view(*entries);
                    lemma_object_view(out);
                    assert(Json::Object(out)@->Object_0 =~= Json::Object(*entries)@->Object_0);
                }
                Json::Object(out)
            },
        }
    }
}

impl Clone for Json {
    fn clone(&self) -> (r: Json)
        ensures
            r@ == self@,
    {
        self.duplicate()
    }
}

} // verus!
