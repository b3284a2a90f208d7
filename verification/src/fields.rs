//! The members of a JSON object as plain values, and how one is found by
//! its key.

use crate::text::same_text;
use vstd::prelude::*;

verus! {

/// One member of a JSON object, as far as a record is made from it.
#[derive(Debug)]
pub struct Field {
    pub key: String,
    /// The value's content where the value is a JSON string.
    pub text: Option<String>,
    /// The value in compact JSON.
    pub json: String,
}

/// A `Field` as plain values.
pub struct FieldView {
    pub key: Seq<char>,
    pub text: Option<Seq<char>>,
    pub json: Seq<char>,
}

impl View for Field {
    type V = FieldView;

    open spec fn view(&self) -> FieldView {
        FieldView {
            key: self.key@,
            text: match self.text {
                Some(t) => Some(t@),
                None => None,
            },
            json: self.json@,
        }
    }
}

impl Clone for Field {
    fn clone(&self) -> (r: Self)
        ensures
            r@ == self@,
    {
        Field {
            key: self.key.clone(),
            text: match &self.text {
                Some(t) => Some(t.clone()),
                None => None,
            },
            json: self.json.clone(),
        }
    }
}

/// The members of a list of fields as plain values.
pub open spec fn fields_view(fields: Seq<Field>) -> Seq<FieldView> {
    fields.map_values(|f: Field| f@)
}

/// No two members have the same key.
pub open spec fn distinct_keys(s: Seq<FieldView>) -> bool {
    forall|i: int, j: int| 0 <= i < j < s.len() ==> s[i].key != s[j].key
}

/// Two lists hold the same members, in whatever order.
pub open spec fn same_members(a: Seq<FieldView>, b: Seq<FieldView>) -> bool {
    forall|f: FieldView|
        #![trigger a.contains(f)]
        #![trigger b.contains(f)]
        a.contains(f) <==> b.contains(f)
}

/// The member under a key; of several, the last.
pub open spec fn lookup(fields: Seq<FieldView>, key: Seq<char>) -> Option<FieldView>
    decreases fields.len(),
{
    if fields.len() == 0 {
        None
    } else if fields.last().key == key {
        Some(fields.last())
    } else {
        lookup(fields.drop_last(), key)
    }
}

/// Among members with distinct keys, the member under a key is the one
/// member that has it.
pub proof fn lookup_of_distinct(s: Seq<FieldView>, f: FieldView)
    requires
        distinct_keys(s),
        s.contains(f),
    ensures
        lookup(s, f.key) == Some(f),
    decreases s.len(),
{
    let k = choose|k: int| 0 <= k < s.len() && s[k] == f;
    if s.last().key == f.key {
        if k < s.len() - 1 {
            assert(s[k].key != s[s.len() - 1].key);
        }
    } else {
        let head = s.drop_last();
        assert(head[k] == f);
        assert forall|i: int, j: int| 0 <= i < j < head.len() implies head[i].key
            != head[j].key by {
            assert(s[i].key != s[j].key);
        }
        lookup_of_distinct(head, f);
    }
}

/// No member is found under a key that no member has.
pub proof fn lookup_of_absent(s: Seq<FieldView>, key: Seq<char>)
    requires
        forall|i: int| 0 <= i < s.len() ==> (#[trigger] s[i]).key != key,
    ensures
        lookup(s, key).is_none(),
    decreases s.len(),
{
    if s.len() > 0 {
        let head = s.drop_last();
        assert(s[s.len() - 1].key != key);
        assert forall|i: int| 0 <= i < head.len() implies (#[trigger] head[i]).key != key by {
            assert(s[i].key != key);
        }
        lookup_of_absent(head, key);
    }
}

/// What is found under a key does not depend on the order of the members.
pub proof fn lookup_ignores_member_order(a: Seq<FieldView>, b: Seq<FieldView>, key: Seq<char>)
    requires
        distinct_keys(a),
        distinct_keys(b),
        same_members(a, b),
    ensures
        lookup(a, key) == lookup(b, key),
{
    if exists|i: int| 0 <= i < a.len() && a[i].key == key {
        let i = choose|i: int| 0 <= i < a.len() && a[i].key == key;
        assert(a.contains(a[i]));
        assert(b.contains(a[i]));
        lookup_of_distinct(a, a[i]);
        lookup_of_distinct(b, a[i]);
    } else {
        assert forall|j: int| 0 <= j < b.len() implies (#[trigger] b[j]).key != key by {
            if b[j].key == key {
                assert(b.contains(b[j]));
                assert(a.contains(b[j]));
                let k = choose|k: int| 0 <= k < a.len() && a[k] == b[j];
                assert(a[k].key == key);
            }
        }
        lookup_of_absent(a, key);
        lookup_of_absent(b, key);
    }
}

/// The place of the member under a key; of several, the last.
pub fn find_field(fields: &Vec<Field>, key: &str) -> (r: Option<usize>)
    ensures
        match r {
            Some(at) => {
                &&& at < fields@.len()
                &&& fields@[at as int].key@ == key@
                &&& forall|j: int| at < j < fields@.len() ==> (#[trigger] fields@[j]).key@ != key@
                &&& lookup(fields_view(fields@), key@) == Some(fields@[at as int]@)
            },
            None => {
                &&& forall|j: int| 0 <= j < fields@.len() ==> (#[trigger] fields@[j]).key@ != key@
                &&& lookup(fields_view(fields@), key@).is_none()
            },
        },
{
    let mut i: usize = fields.len();
    proof {
        assert(fields_view(fields@).subrange(0, i as int) =~= fields_view(fields@));
    }
    while i > 0
        invariant
            i <= fields@.len(),
            forall|j: int| i <= j < fields@.len() ==> (#[trigger] fields@[j]).key@ != key@,
            lookup(fields_view(fields@), key@) == lookup(
                fields_view(fields@).subrange(0, i as int),
                key@,
            ),
        decreases i,
    {
        proof {
            let head = fields_view(fields@).subrange(0, i as int);
            assert(head.last() == fields@[i - 1]@);
            assert(head.drop_last() =~= fields_view(fields@).subrange(0, i - 1));
        }
        if same_text(fields[i - 1].key.as_str(), key) {
            return Some(i - 1);
        }
        i -= 1;
    }
    None
}

} // verus!
