//! JSON documents as trees.
use vstd::prelude::*;

use crate::text::same;

verus! {

/// A number in a document: its value as the reader of the document holds it, and whether it is a
/// whole number from zero to the largest of 64 bits.
#[derive(Debug, PartialEq)]
pub struct JsonNumber<N> {
    pub unsigned: Option<u64>,
    pub value: N,
}

/// A JSON document. The names in an object stand once.
#[derive(Debug, PartialEq)]
pub enum Json<N> {
    Null,
    Bool(bool),
    Number(JsonNumber<N>),
    Text(String),
    Array(Vec<Json<N>>),
    Object(Vec<(String, Json<N>)>),
}

/// The value of the first entry with that name.
pub open spec fn find_member<N>(entries: Seq<(String, Json<N>)>, name: Seq<char>) -> Option<Json<N>>
    decreases entries.len(),
{
    if entries.len() == 0 {
        None
    } else if entries[0].0@ == name {
        Some(entries[0].1)
    } else {
        find_member(entries.skip(1), name)
    }
}

impl<N> Json<N> {
    /// The member of an object with that name.
    pub open spec fn member(self, name: Seq<char>) -> Option<Json<N>> {
        match self {
            Json::Object(entries) => find_member(entries@, name),
            _ => None,
        }
    }

    /// The elements of an array.
    pub open spec fn elements(self) -> Option<Seq<Json<N>>> {
        match self {
            Json::Array(items) => Some(items@),
            _ => None,
        }
    }

    /// The text of a string.
    pub open spec fn string(self) -> Option<Seq<char>> {
        match self {
            Json::Text(s) => Some(s@),
            _ => None,
        }
    }

    /// A whole number from zero on.
    pub open spec fn whole(self) -> Option<u64> {
        match self {
            Json::Number(n) => n.unsigned,
            _ => None,
        }
    }

    /// The elements of the array that is the member with that name.
    pub open spec fn member_elements(self, name: Seq<char>) -> Option<Seq<Json<N>>> {
        match self.member(name) {
            Some(m) => m.elements(),
            None => None,
        }
    }

    /// The whole number that is the member with that name.
    pub open spec fn member_whole(self, name: Seq<char>) -> Option<u64> {
        match self.member(name) {
            Some(m) => m.whole(),
            None => None,
        }
    }

    /// The text that is the member with that name.
    pub open spec fn member_string(self, name: Seq<char>) -> Option<Seq<char>> {
        match self.member(name) {
            Some(m) => m.string(),
            None => None,
        }
    }

    /// The member of an object with that name.
    pub fn get(&self, name: &str) -> (r: Option<&Json<N>>)
        ensures
            r is Some <==> self.member(name@) is Some,
            r matches Some(m) ==> self.member(name@) == Some(*m),
    {
        match self {
            Json::Object(entries) => {
                let mut i: usize = 0;
                proof {
                    assert(entries@.skip(0) =~= entries@);
                }
                while i < entries.len()
                    invariant
                        i <= entries.len(),
                        self.member(name@) == find_member(entries@, name@),
                        find_member(entries@, name@) == find_member(
                            entries@.skip(i as int),
                            name@,
                        ),
                    decreases entries.len() - i,
                {
                    proof {
                        assert(entries@.skip(i as int)[0] == entries@[i as int]);
                        assert(entries@.skip(i as int).skip(1) =~= entries@.skip(i + 1));
                    }
                    if same(entries[i].0.as_str(), name) {
                        return Some(&entries[i].1);
                    }
                    i = i + 1;
                }
                None
            },
            _ => None,
        }
    }

    /// The elements of an array.
    pub fn as_array(&self) -> (r: Option<&Vec<Json<N>>>)
        ensures
            r is Some <==> self.elements() is Some,
            r matches Some(v) ==> self.elements() == Some(v@),
    {
        match self {
            Json::Array(items) => Some(items),
            _ => None,
        }
    }

    /// The text of a string.
    pub fn as_str(&self) -> (r: Option<&str>)
        ensures
            r is Some <==> self.string() is Some,
            r matches Some(s) ==> self.string() == Some(s@),
    {
        match self {
            Json::Text(s) => Some(s.as_str()),
            _ => None,
        }
    }

    /// A whole number from zero on.
    pub fn as_u64(&self) -> (r: Option<u64>)
        ensures
            r == self.whole(),
    {
        match self {
            Json::Number(n) => n.unsigned,
            _ => None,
        }
    }

    /// The elements of the array that is the member with that name.
    pub fn get_array(&self, name: &str) -> (r: Option<&Vec<Json<N>>>)
        ensures
            r is Some <==> self.member_elements(name@) is Some,
            r matches Some(v) ==> self.member_elements(name@) == Some(v@),
    {
        match self.get(name) {
            Some(m) => m.as_array(),
            None => None,
        }
    }

    /// The whole number that is the member with that name.
    pub fn get_u64(&self, name: &str) -> (r: Option<u64>)
        ensures
            r == self.member_whole(name@),
    {
        match self.get(name) {
            Some(m) => m.as_u64(),
            None => None,
        }
    }

    /// The text that is the member with that name.
    pub fn get_str(&self, name: &str) -> (r: Option<&str>)
        ensures
            r is Some <==> self.member_string(name@) is Some,
            r matches Some(s) ==> self.member_string(name@) == Some(s@),
    {
        match self.get(name) {
            Some(m) => m.as_str(),
            None => None,
        }
    }
}

/// The numbers among the elements of an array, in order.
pub open spec fn numbers_in<N>(items: Seq<Json<N>>) -> Seq<N>
    decreases items.len(),
{
    if items.len() == 0 {
        Seq::empty()
    } else {
        let head = numbers_in(items.drop_last());
        match items.last() {
            Json::Number(n) => head.push(n.value),
            _ => head,
        }
    }
}

/// The numbers among the elements of an array, in order.
pub fn numbers_of<N: Copy>(items: &Vec<Json<N>>) -> (r: Vec<N>)
    ensures
        r@ == numbers_in(items@),
{
    let mut r: Vec<N> = Vec::new();
    let mut i: usize = 0;
    proof {
        assert(items@.take(0) =~= Seq::<Json<N>>::empty());
    }
    while i < items.len()
        invariant
            i <= items.len(),
            r@ == numbers_in(items@.take(i as int)),
        decreases items.len() - i,
    {
        proof {
            assert(items@.take(i + 1).drop_last() =~= items@.take(i as int));
            assert(items@.take(i + 1).last() == items@[i as int]);
        }
        match &items[i] {
            Json::Number(n) => {
                r.push(n.value);
            },
            _ => {},
        }
        i = i + 1;
    }
    assert(items@.take(items@.len() as int) =~= items@);
    r
}

/// A member is the value of the first entry of its name; without such an entry there is none.
pub proof fn law_members_are_found_by_name<N>(
    entries: Seq<(String, Json<N>)>,
    k: int,
    name: Seq<char>,
)
    requires
        forall|i: int| 0 <= i < k && i < entries.len() ==> (#[trigger] entries[i]).0@ != name,
        0 <= k <= entries.len(),
    ensures
        k < entries.len() && entries[k].0@ == name ==> find_member(entries, name) == Some(
            entries[k].1,
        ),
        k == entries.len() ==> find_member(entries, name) is None,
    decreases entries.len(),
{
    if k > 0 {
        assert(entries[0].0@ != name);
        let rest = entries.skip(1);
        assert forall|i: int| 0 <= i < k - 1 && i < rest.len() implies (#[trigger] rest[i]).0@
            != name by {
            assert(rest[i] == entries[i + 1]);
        }
        law_members_are_found_by_name(rest, k - 1, name);
    }
}

/// A value is taken for what it is: only objects have members, only arrays elements, only strings a
/// text, and only whole numbers from zero on are whole.
pub proof fn law_values_are_what_they_are<N>(
    entries: Vec<(String, Json<N>)>,
    items: Vec<Json<N>>,
    text: String,
    n: JsonNumber<N>,
    b: bool,
    name: Seq<char>,
)
    ensures
        Json::Object(entries).member(name) == find_member(entries@, name),
        Json::Array(items).member(name) is None,
        Json::<N>::Text(text).member(name) is None,
        Json::Array(items).elements() == Some(items@),
        Json::Object(entries).elements() is None,
        Json::<N>::Text(text).string() == Some(text@),
        Json::Number(n).string() is None,
        Json::Number(n).whole() == n.unsigned,
        Json::<N>::Text(text).whole() is None,
        Json::<N>::Bool(b).whole() is None,
        Json::<N>::Null.elements() is None,
        Json::<N>::Null.string() is None,
        Json::<N>::Null.member(name) is None,
{
}

/// A member is looked at as what it is asked for.
pub proof fn law_members_are_looked_at<N>(doc: Json<N>, name: Seq<char>)
    ensures
        doc.member(name) is None ==> doc.member_elements(name) is None && doc.member_whole(name)
            is None && doc.member_string(name) is None,
        doc.member(name) is Some ==> doc.member_elements(name) == doc.member(name)->0.elements(),
        doc.member(name) is Some ==> doc.member_whole(name) == doc.member(name)->0.whole(),
        doc.member(name) is Some ==> doc.member_string(name) == doc.member(name)->0.string(),
{
}

/// The numbers of an array are all of them, in order, each with its own value; what is no number is
/// left out.
pub proof fn law_numbers_are_kept_in_order<N>(before: Seq<Json<N>>, item: Json<N>)
    ensures
        numbers_in(Seq::<Json<N>>::empty()) == Seq::<N>::empty(),
        item is Number ==> numbers_in(before.push(item)) == numbers_in(before).push(
            item->Number_0.value,
        ),
        !(item is Number) ==> numbers_in(before.push(item)) == numbers_in(before),
{
    assert(before.push(item).drop_last() =~= before);
}

} // verus!
