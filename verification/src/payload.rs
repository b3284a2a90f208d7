//! The payload of a record: the members beyond the reserved four, written
//! as one JSON object with its keys in order.

use crate::fields::{distinct_keys, fields_view, same_members, Field, FieldView};
use crate::text::{
    lex_less, lex_less_asymmetric, lex_less_total, lex_less_transitive, same_text, text_before,
};
use vstd::prelude::*;
use vstd::string::StringExecFns;

verus! {

/// A text as a JSON string, quoted and escaped as `serde_json` writes it.
pub uninterp spec fn json_quoted(text: Seq<char>) -> Seq<char>;

/// Writes a text as a `serde_json::Value::String` in compact JSON. Trusted:
/// the outcome depends on the text alone.
#[verifier::external_body]
fn quote(text: &str) -> (r: String)
    ensures
        r@ == json_quoted(text@),
{
    serde_json::Value::String(text.to_owned()).to_string()
}

/// The keys that a record reads for itself; every other member goes to the
/// payload.
pub open spec fn is_reserved(key: Seq<char>) -> bool {
    key == "level"@ || key == "ts"@ || key == "msg"@ || key == "caller"@
}

/// The members that go to the payload.
pub open spec fn extras(fields: Seq<FieldView>) -> Seq<FieldView> {
    fields.filter(|f: FieldView| !is_reserved(f.key))
}

/// `s` with `f` put before the members at its end whose keys come after
/// that of `f`.
pub open spec fn insert_by_key(s: Seq<FieldView>, f: FieldView) -> Seq<FieldView>
    decreases s.len(),
{
    if s.len() == 0 {
        seq![f]
    } else if lex_less(f.key, s.last().key) {
        insert_by_key(s.drop_last(), f).push(s.last())
    } else {
        s.push(f)
    }
}

/// The members in the order of their keys.
pub open spec fn sorted_by_key(s: Seq<FieldView>) -> Seq<FieldView>
    decreases s.len(),
{
    if s.len() == 0 {
        Seq::empty()
    } else {
        insert_by_key(sorted_by_key(s.drop_last()), s.last())
    }
}

/// Each member's key comes before the keys of all members after it.
pub open spec fn rising_keys(s: Seq<FieldView>) -> bool {
    forall|i: int, j: int| 0 <= i < j < s.len() ==> lex_less(s[i].key, s[j].key)
}

/// One member in compact JSON.
pub open spec fn member_text(f: FieldView) -> Seq<char> {
    json_quoted(f.key) + ":"@ + f.json
}

/// The members in compact JSON, a comma between each two.
pub open spec fn joined(s: Seq<FieldView>) -> Seq<char>
    decreases s.len(),
{
    if s.len() == 0 {
        Seq::empty()
    } else if s.len() == 1 {
        member_text(s[0])
    } else {
        joined(s.drop_last()) + ","@ + member_text(s.last())
    }
}

/// The payload of some members: one JSON object with the members in the
/// order of their keys, or the empty text where there is no member.
pub open spec fn payload_text(members: Seq<FieldView>) -> Seq<char> {
    if members.len() == 0 {
        Seq::empty()
    } else {
        "{"@ + joined(sorted_by_key(members)) + "}"@
    }
}

/// A member with a new key, put into a list with rising keys, leaves the
/// keys rising, and the list holds that member besides what it held.
pub proof fn insert_keeps_rising(s: Seq<FieldView>, f: FieldView)
    requires
        rising_keys(s),
        forall|i: int| 0 <= i < s.len() ==> (#[trigger] s[i]).key != f.key,
    ensures
        rising_keys(insert_by_key(s, f)),
        insert_by_key(s, f).len() == s.len() + 1,
        forall|x: FieldView|
            #![trigger insert_by_key(s, f).contains(x)]
            #![trigger s.contains(x)]
            insert_by_key(s, f).contains(x) <==> (s.contains(x) || x == f),
    decreases s.len(),
{
    let r = insert_by_key(s, f);
    if s.len() == 0 {
        assert(r[0] == f);
    } else if lex_less(f.key, s.last().key) {
        let head = s.drop_last();
        let h = insert_by_key(head, f);
        assert forall|i: int, j: int| 0 <= i < j < head.len() implies lex_less(
            head[i].key,
            head[j].key,
        ) by {
            assert(lex_less(s[i].key, s[j].key));
        }
        assert forall|i: int| 0 <= i < head.len() implies (#[trigger] head[i]).key != f.key by {
            assert(s[i].key != f.key);
        }
        insert_keeps_rising(head, f);
        assert(r == h.push(s.last()));
        assert forall|i: int, j: int| 0 <= i < j < r.len() implies lex_less(r[i].key, r[j].key) by {
            if j < h.len() {
                assert(lex_less(h[i].key, h[j].key));
            } else {
                assert(h.contains(h[i]));
                if h[i] != f {
                    let k = choose|k: int| 0 <= k < head.len() && head[k] == h[i];
                    assert(lex_less(s[k].key, s[s.len() - 1].key));
                }
            }
        }
        assert forall|x: FieldView| r.contains(x) <==> (s.contains(x) || x == f) by {
            if r.contains(x) {
                let k = choose|k: int| 0 <= k < r.len() && r[k] == x;
                if k < h.len() {
                    assert(h.contains(h[k]));
                    if x != f {
                        let m = choose|m: int| 0 <= m < head.len() && head[m] == x;
                        assert(s[m] == x);
                    }
                } else {
                    assert(s[s.len() - 1] == x);
                }
            }
            if s.contains(x) {
                let k = choose|k: int| 0 <= k < s.len() && s[k] == x;
                if k < head.len() {
                    assert(head[k] == x);
                    assert(h.contains(x));
                    let m = choose|m: int| 0 <= m < h.len() && h[m] == x;
                    assert(r[m] == x);
                } else {
                    assert(r[r.len() - 1] == x);
                }
            }
            if x == f {
                assert(h.contains(f));
                let m = choose|m: int| 0 <= m < h.len() && h[m] == f;
                assert(r[m] == x);
            }
        }
    } else {
        assert(r == s.push(f));
        assert(s[s.len() - 1].key != f.key);
        lex_less_total(f.key, s.last().key);
        assert forall|i: int, j: int| 0 <= i < j < r.len() implies lex_less(r[i].key, r[j].key) by {
            if j < s.len() {
                assert(lex_less(s[i].key, s[j].key));
            } else if i < s.len() - 1 {
                assert(lex_less(s[i].key, s[s.len() - 1].key));
                lex_less_transitive(s[i].key, s.last().key, f.key);
            }
        }
        assert forall|x: FieldView| r.contains(x) <==> (s.contains(x) || x == f) by {
            if r.contains(x) {
                let k = choose|k: int| 0 <= k < r.len() && r[k] == x;
                if k < s.len() {
                    assert(s[k] == x);
                }
            }
            if s.contains(x) {
                let k = choose|k: int| 0 <= k < s.len() && s[k] == x;
                assert(r[k] == x);
            }
            if x == f {
                assert(r[r.len() - 1] == x);
            }
        }
    }
}

/// Members with distinct keys come out of the sort with rising keys, and
/// the sort neither adds a member nor loses one.
pub proof fn sorted_is_rising(s: Seq<FieldView>)
    requires
        distinct_keys(s),
    ensures
        rising_keys(sorted_by_key(s)),
        same_members(sorted_by_key(s), s),
        sorted_by_key(s).len() == s.len(),
    decreases s.len(),
{
    if s.len() > 0 {
        let head = s.drop_last();
        let sh = sorted_by_key(head);
        assert forall|i: int, j: int| 0 <= i < j < head.len() implies head[i].key
            != head[j].key by {
            assert(s[i].key != s[j].key);
        }
        sorted_is_rising(head);
        assert forall|i: int| 0 <= i < sh.len() implies (#[trigger] sh[i]).key != s.last().key by {
            assert(sh.contains(sh[i]));
            assert(head.contains(sh[i]));
            let k = choose|k: int| 0 <= k < head.len() && head[k] == sh[i];
            assert(s[k].key != s[s.len() - 1].key);
        }
        insert_keeps_rising(sh, s.last());
        let r = sorted_by_key(s);
        assert forall|x: FieldView| r.contains(x) <==> s.contains(x) by {
            if s.contains(x) {
                let k = choose|k: int| 0 <= k < s.len() && s[k] == x;
                if k < head.len() {
                    assert(head[k] == x);
                    assert(head.contains(x));
                }
            }
            if head.contains(x) {
                let k = choose|k: int| 0 <= k < head.len() && head[k] == x;
                assert(s[k] == x);
            }
            if x == s.last() {
                assert(s[s.len() - 1] == x);
            }
        }
    }
}

/// Two lists with rising keys that hold the same members are the same list.
pub proof fn rising_is_unique(a: Seq<FieldView>, b: Seq<FieldView>)
    requires
        rising_keys(a),
        rising_keys(b),
        same_members(a, b),
    ensures
        a == b,
    decreases a.len(),
{
    if a.len() == 0 {
        if b.len() > 0 {
            assert(b.contains(b[0]));
            assert(a.contains(b[0]));
        }
        assert(a =~= b);
    } else {
        let la = a.last();
        assert(a[a.len() - 1] == la);
        assert(a.contains(la));
        assert(b.contains(la));
        let j = choose|j: int| 0 <= j < b.len() && b[j] == la;
        let lb = b.last();
        assert(b[b.len() - 1] == lb);
        assert(b.contains(lb));
        assert(a.contains(lb));
        let i = choose|i: int| 0 <= i < a.len() && a[i] == lb;
        lex_less_asymmetric(la.key, lb.key);
        if j < b.len() - 1 {
            assert(lex_less(b[j].key, b[b.len() - 1].key));
        }
        if i < a.len() - 1 {
            assert(lex_less(a[i].key, a[a.len() - 1].key));
        }
        assert(j == b.len() - 1);
        assert(la == lb);
        let ha = a.drop_last();
        let hb = b.drop_last();
        assert forall|x: FieldView| ha.contains(x) <==> hb.contains(x) by {
            lex_less_asymmetric(x.key, la.key);
            if ha.contains(x) {
                let k = choose|k: int| 0 <= k < ha.len() && ha[k] == x;
                assert(a[k] == x);
                assert(lex_less(a[k].key, a[a.len() - 1].key));
                assert(a.contains(x));
                assert(b.contains(x));
                let m = choose|m: int| 0 <= m < b.len() && b[m] == x;
                assert(m < b.len() - 1);
                assert(hb[m] == x);
            }
            if hb.contains(x) {
                let k = choose|k: int| 0 <= k < hb.len() && hb[k] == x;
                assert(b[k] == x);
                assert(lex_less(b[k].key, b[b.len() - 1].key));
                assert(b.contains(x));
                assert(a.contains(x));
                let m = choose|m: int| 0 <= m < a.len() && a[m] == x;
                assert(m < a.len() - 1);
                assert(ha[m] == x);
            }
        }
        assert forall|i: int, j: int| 0 <= i < j < ha.len() implies lex_less(
            ha[i].key,
            ha[j].key,
        ) by {
            assert(lex_less(a[i].key, a[j].key));
        }
        assert forall|i: int, j: int| 0 <= i < j < hb.len() implies lex_less(
            hb[i].key,
            hb[j].key,
        ) by {
            assert(lex_less(b[i].key, b[j].key));
        }
        rising_is_unique(ha, hb);
        assert(a =~= ha.push(la));
        assert(b =~= hb.push(lb));
    }
}

/// The payload does not depend on the order in which the members came: two
/// lists of members with distinct keys that hold the same members give the
/// same text.
pub proof fn payload_ignores_member_order(a: Seq<FieldView>, b: Seq<FieldView>)
    requires
        distinct_keys(a),
        distinct_keys(b),
        same_members(a, b),
    ensures
        payload_text(a) == payload_text(b),
{
    sorted_is_rising(a);
    sorted_is_rising(b);
    rising_is_unique(sorted_by_key(a), sorted_by_key(b));
}

/// The members that go to the payload are the members whose keys are not
/// reserved, and their keys stay distinct.
pub proof fn extras_hold(s: Seq<FieldView>)
    requires
        distinct_keys(s),
    ensures
        distinct_keys(extras(s)),
        forall|x: FieldView| #[trigger]
            extras(s).contains(x) <==> s.contains(x) && !is_reserved(x.key),
    decreases s.len(),
{
    reveal(Seq::filter);
    if s.len() > 0 {
        let head = s.drop_last();
        let last = s.last();
        let eh = extras(head);
        let es = extras(s);
        assert forall|i: int, j: int| 0 <= i < j < head.len() implies head[i].key
            != head[j].key by {
            assert(s[i].key != s[j].key);
        }
        extras_hold(head);
        assert forall|x: FieldView| head.contains(x) implies s.contains(x) && x.key
            != last.key by {
            let k = choose|k: int| 0 <= k < head.len() && head[k] == x;
            assert(s[k] == x);
            assert(s[k].key != s[s.len() - 1].key);
        }
        assert forall|x: FieldView| s.contains(x) implies head.contains(x) || x == last by {
            let k = choose|k: int| 0 <= k < s.len() && s[k] == x;
            if k < head.len() {
                assert(head[k] == x);
            }
        }
        assert(s[s.len() - 1] == last);
        if !is_reserved(last.key) {
            assert(es == eh.push(last));
            assert(es[es.len() - 1] == last);
            assert forall|i: int, j: int| 0 <= i < j < es.len() implies es[i].key != es[j].key by {
                if j < eh.len() {
                    assert(eh[i].key != eh[j].key);
                } else {
                    assert(eh.contains(eh[i]));
                    assert(head.contains(eh[i]));
                }
            }
            assert forall|x: FieldView| #[trigger]
                es.contains(x) <==> s.contains(x) && !is_reserved(x.key) by {
                if es.contains(x) {
                    let k = choose|k: int| 0 <= k < es.len() && es[k] == x;
                    if k < eh.len() {
                        assert(eh[k] == x);
                        assert(eh.contains(x));
                    }
                }
                if eh.contains(x) {
                    let k = choose|k: int| 0 <= k < eh.len() && eh[k] == x;
                    assert(es[k] == x);
                }
            }
        } else {
            assert(es == eh);
        }
    }
}

fn is_reserved_key(key: &str) -> (r: bool)
    ensures
        r == is_reserved(key@),
{
    same_text(key, "level") || same_text(key, "ts") || same_text(key, "msg") || same_text(
        key,
        "caller",
    )
}

/// The members that go to the payload, in the order in which they came.
pub fn extra_fields(fields: &Vec<Field>) -> (r: Vec<Field>)
    ensures
        fields_view(r@) == extras(fields_view(fields@)),
{
    let mut out: Vec<Field> = Vec::new();
    let mut i: usize = 0;
    proof {
        reveal(Seq::filter);
        assert(fields_view(fields@).subrange(0, 0) =~= Seq::<FieldView>::empty());
        assert(fields_view(out@) =~= Seq::<FieldView>::empty());
    }
    while i < fields.len()
        invariant
            i <= fields@.len(),
            fields_view(out@) == extras(fields_view(fields@).subrange(0, i as int)),
        decreases fields@.len() - i,
    {
        proof {
            reveal(Seq::filter);
            let next = fields_view(fields@).subrange(0, i + 1);
            assert(next.drop_last() =~= fields_view(fields@).subrange(0, i as int));
            assert(next.last() == fields@[i as int]@);
        }
        if !is_reserved_key(fields[i].key.as_str()) {
            let ghost before = out@;
            let f = fields[i].clone();
            out.push(f);
            proof {
                assert(fields_view(out@) =~= fields_view(before).push(fields@[i as int]@));
            }
        }
        i += 1;
    }
    proof {
        assert(fields_view(fields@).subrange(0, fields@.len() as int) =~= fields_view(fields@));
    }
    out
}

proof fn insert_by_key_at(s: Seq<FieldView>, f: FieldView, at: int)
    requires
        0 <= at <= s.len(),
        forall|j: int| at <= j < s.len() ==> lex_less(f.key, #[trigger] s[j].key),
        at > 0 ==> !lex_less(f.key, s[at - 1].key),
    ensures
        insert_by_key(s, f) == s.insert(at, f),
    decreases s.len(),
{
    if s.len() == 0 {
        assert(s.insert(at, f) =~= seq![f]);
    } else if at == s.len() {
        assert(s.insert(at, f) =~= s.push(f));
    } else {
        assert(lex_less(f.key, s[s.len() - 1].key));
        insert_by_key_at(s.drop_last(), f, at);
        assert(s.insert(at, f) =~= s.drop_last().insert(at, f).push(s.last()));
    }
}

/// Puts the members in the order of their keys.
pub fn sort_fields(fields: &Vec<Field>) -> (r: Vec<Field>)
    ensures
        fields_view(r@) == sorted_by_key(fields_view(fields@)),
{
    let mut out: Vec<Field> = Vec::new();
    let mut i: usize = 0;
    proof {
        assert(fields_view(fields@).subrange(0, 0) =~= Seq::<FieldView>::empty());
        assert(fields_view(out@) =~= Seq::<FieldView>::empty());
    }
    while i < fields.len()
        invariant
            i <= fields@.len(),
            out@.len() == i,
            fields_view(out@) == sorted_by_key(fields_view(fields@).subrange(0, i as int)),
        decreases fields@.len() - i,
    {
        let f = fields[i].clone();
        let mut at: usize = out.len();
        while at > 0 && text_before(f.key.as_str(), out[at - 1].key.as_str())
            invariant
                at <= out@.len(),
                forall|j: int|
                    at <= j < out@.len() ==> lex_less(f@.key, #[trigger] fields_view(out@)[j].key),
            decreases at,
        {
            at -= 1;
        }
        proof {
            let next = fields_view(fields@).subrange(0, i + 1);
            assert(next.drop_last() =~= fields_view(fields@).subrange(0, i as int));
            assert(next.last() == f@);
            insert_by_key_at(fields_view(out@), f@, at as int);
        }
        let ghost before = out@;
        out.insert(at, f);
        proof {
            assert(fields_view(out@) =~= fields_view(before).insert(at as int, f@));
        }
        i += 1;
    }
    proof {
        assert(fields_view(fields@).subrange(0, fields@.len() as int) =~= fields_view(fields@));
    }
    out
}

/// Writes the members in compact JSON, a comma between each two.
pub fn join_fields(fields: &Vec<Field>) -> (r: String)
    ensures
        r@ == joined(fields_view(fields@)),
{
    let mut out = String::new();
    let mut i: usize = 0;
    proof {
        assert(fields_view(fields@).subrange(0, 0) =~= Seq::<FieldView>::empty());
    }
    while i < fields.len()
        invariant
            i <= fields@.len(),
            out@ == joined(fields_view(fields@).subrange(0, i as int)),
        decreases fields@.len() - i,
    {
        proof {
            let next = fields_view(fields@).subrange(0, i + 1);
            assert(next.drop_last() =~= fields_view(fields@).subrange(0, i as int));
            assert(next.last() == fields@[i as int]@);
            assert(next[0] == fields@[0]@);
        }
        let ghost before = out@;
        if i > 0 {
            out.append(",");
        }
        let key = quote(fields[i].key.as_str());
        out.append(key.as_str());
        out.append(":");
        out.append(fields[i].json.as_str());
        proof {
            let m = member_text(fields@[i as int]@);
            if i > 0 {
                assert(out@ =~= before + ","@ + m);
            } else {
                assert(before =~= Seq::<char>::empty());
                assert(out@ =~= m);
            }
        }
        i += 1;
    }
    proof {
        assert(fields_view(fields@).subrange(0, fields@.len() as int) =~= fields_view(fields@));
    }
    out
}

/// The payload of some members: one JSON object with its keys in order, or
/// the empty text where there is no member.
pub fn normalize_payload(members: &Vec<Field>) -> (r: String)
    ensures
        r@ == payload_text(fields_view(members@)),
{
    let mut out = String::new();
    if members.len() == 0 {
        return out;
    }
    let sorted = sort_fields(members);
    let body = join_fields(&sorted);
    out.append("{");
    out.append(body.as_str());
    out.append("}");
    proof {
        assert(out@ =~= "{"@ + joined(sorted_by_key(fields_view(members@))) + "}"@);
    }
    out
}

} // verus!
