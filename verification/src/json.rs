//! JSON documents as the project reads them, and the object operations the
//! manifest migration is made of. Objects are lists of members in which the
//! last member with a key is the one that counts, as when a JSON object is
//! read member by member.
use vstd::prelude::*;
use crate::text::{owned, same_text};

verus! {

/// A JSON number: a negative integer, a non-negative integer, or the bits
/// of a double.
#[derive(Debug, Clone, Copy, PartialEq, Eq, Structural)]
pub enum JsonNumber {
    Int(i64),
    UInt(u64),
    Float(u64),
}

#[derive(Debug)]
pub enum JsonValue {
    Null,
    Bool(bool),
    Number(JsonNumber),
    Text(String),
    Array(Vec<JsonValue>),
    Object(Vec<(String, JsonValue)>),
}

/// The value of member `key` of `members`: the last one with that key.
pub open spec fn field(members: Seq<(String, JsonValue)>, key: Seq<char>) -> Option<JsonValue>
    decreases members.len(),
{
    if members.len() == 0 {
        None
    } else if members.last().0@ == key {
        Some(members.last().1)
    } else {
        field(members.drop_last(), key)
    }
}

/// The position of the last member with `key`, if any.
pub open spec fn last_position(members: Seq<(String, JsonValue)>, key: Seq<char>) -> Option<int>
    decreases members.len(),
{
    if members.len() == 0 {
        None
    } else if members.last().0@ == key {
        Some(members.len() - 1)
    } else {
        last_position(members.drop_last(), key)
    }
}

pub proof fn lemma_last_position(members: Seq<(String, JsonValue)>, key: Seq<char>)
    ensures
        match last_position(members, key) {
            Some(i) => 0 <= i < members.len() && members[i].0@ == key && field(members, key)
                == Some(members[i].1) && forall|j: int|
                i < j < members.len() ==> (#[trigger] members[j]).0@ != key,
            None => field(members, key) is None && forall|j: int|
                0 <= j < members.len() ==> (#[trigger] members[j]).0@ != key,
        },
    decreases members.len(),
{
    if members.len() > 0 {
        let rest = members.drop_last();
        lemma_last_position(rest, key);
        if members.last().0@ != key {
            assert forall|j: int| 0 <= j < rest.len() implies members[j] == rest[j] by {}
        }
    }
}

/// Replacing the member at the last position of `key` by one with the same
/// key changes only what `key` reads.
proof fn lemma_field_after_update(
    members: Seq<(String, JsonValue)>,
    i: int,
    entry: (String, JsonValue),
    key: Seq<char>,
    other: Seq<char>,
)
    requires
        last_position(members, key) == Some(i),
        entry.0@ == key,
    ensures
        field(members.update(i, entry), other) == if other == key {
            Some(entry.1)
        } else {
            field(members, other)
        },
    decreases members.len(),
{
    lemma_last_position(members, key);
    let updated = members.update(i, entry);
    if i == members.len() - 1 {
        assert(updated.drop_last() =~= members.drop_last());
    } else {
        assert(updated.drop_last() =~= members.drop_last().update(i, entry));
        lemma_field_after_update(members.drop_last(), i, entry, key, other);
    }
}

/// The member lists `after` reads like `before` except at `key`, which it
/// reads as `value`.
pub open spec fn reads_with(
    before: Seq<(String, JsonValue)>,
    after: Seq<(String, JsonValue)>,
    key: Seq<char>,
    value: Option<JsonValue>,
) -> bool {
    forall|k: Seq<char>| #[trigger] field(after, k) == if k == key {
        value
    } else {
        field(before, k)
    }
}

/// The members without any member named `key`.
pub fn remove_member(members: Vec<(String, JsonValue)>, key: &str) -> (out: Vec<(String, JsonValue)>)
    ensures
        reads_with(members@, out@, key@, None),
{
    let mut kept: Vec<(String, JsonValue)> = Vec::new();
    let mut rest = members;
    let ghost all = rest@;
    assert(rest@.len() == rest.len());
    let mut i: usize = 0;
    while rest.len() > 0
        invariant
            all.len() == i + rest@.len(),
            all.len() <= usize::MAX,
            rest@ == all.skip(i as int),
            field(kept@, key@) is None,
            forall|k: Seq<char>| k != key@ ==> #[trigger] field(kept@, k) == field(
                all.take(i as int),
                k,
            ),
        decreases rest.len(),
    {
        let entry = rest.remove(0);
        let ghost old_kept = kept@;
        assert(all.take(i + 1) =~= all.take(i as int).push(entry));
        assert(all.take(i + 1).drop_last() =~= all.take(i as int));
        assert(rest@ =~= all.skip(i + 1));
        let ghost t1 = all.take(i + 1);
        assert(t1.last() == entry);
        if !same_text(entry.0.as_str(), key) {
            kept.push(entry);
            proof {
                assert(kept@.drop_last() =~= old_kept);
                assert forall|k: Seq<char>| k != key@ implies #[trigger] field(kept@, k) == field(
                    t1,
                    k,
                ) by {
                    assert(field(old_kept, k) == field(all.take(i as int), k));
                }
            }
        } else {
            proof {
                assert forall|k: Seq<char>| k != key@ implies #[trigger] field(kept@, k) == field(
                    t1,
                    k,
                ) by {
                    assert(field(old_kept, k) == field(all.take(i as int), k));
                }
            }
        }
        i += 1;
    }
    assert(all.take(i as int) =~= all);
    kept
}

/// The members with `key` set to `value`.
pub fn set_member(members: Vec<(String, JsonValue)>, key: &str, value: JsonValue) -> (out: Vec<
    (String, JsonValue),
>)
    ensures
        reads_with(members@, out@, key@, Some(value)),
{
    let mut out = remove_member(members, key);
    let ghost mid = out@;
    out.push((owned(key), value));
    assert(out@.drop_last() =~= mid);
    assert forall|k: Seq<char>| #[trigger] field(out@, k) == if k == key@ {
        Some(value)
    } else {
        field(members@, k)
    } by {
        assert(field(mid, k) == if k == key@ {
            None
        } else {
            field(members@, k)
        });
    }
    out
}

/// Takes the member named `key` out: what it read, and the members without
/// it.
pub fn take_member(members: Vec<(String, JsonValue)>, key: &str) -> (r: (
    Option<JsonValue>,
    Vec<(String, JsonValue)>,
))
    ensures
        r.0 == field(members@, key@),
        reads_with(members@, r.1@, key@, None),
{
    let found = find_member(&members, key);
    match found {
        Some(i) => {
            proof {
                lemma_last_position(members@, key@);
                assert(last_position(members@, key@) == Some(i as int));
            }
            let mut m = members;
            let entry = m.remove(i);
            assert(entry == members@[i as int]);
            assert(field(members@, key@) == Some(members@[i as int].1));
            let value = entry.1;
            m.insert(i, (entry.0, JsonValue::Null));
            proof {
                let placeholder = m@[i as int];
                assert(m@ =~= members@.update(i as int, placeholder));
                assert forall|k: Seq<char>| #[trigger] field(m@, k) == if k == key@ {
                    Some(JsonValue::Null)
                } else {
                    field(members@, k)
                } by {
                    lemma_field_after_update(members@, i as int, placeholder, key@, k);
                }
            }
            let out = remove_member(m, key);
            (Some(value), out)
        },
        None => {
            proof {
                lemma_last_position(members@, key@);
            }
            let out = remove_member(members, key);
            (None, out)
        },
    }
}

/// The position of the last member named `key`.
pub fn find_member(members: &Vec<(String, JsonValue)>, key: &str) -> (r: Option<usize>)
    ensures
        r matches Some(i) ==> last_position(members@, key@) == Some(i as int),
        r is None ==> last_position(members@, key@) is None,
{
    let mut i: usize = members.len();
    assert(members@.take(i as int) =~= members@);
    while i > 0
        invariant
            i <= members.len(),
            last_position(members@, key@) == last_position(members@.take(i as int), key@),
        decreases i,
    {
        assert(members@.take(i as int).drop_last() =~= members@.take(i - 1));
        if same_text(members[i - 1].0.as_str(), key) {
            return Some(i - 1);
        }
        i -= 1;
    }
    None
}

} // verus!
