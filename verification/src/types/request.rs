//! Members that a request may carry besides the ones JSON-RPC defines.

use crate::types::params::{Id, Params, TwoPointZero};
use crate::text::{trim_bytes, bytes_lt, lemma_lex_lt_total, lemma_lex_lt_transitive, lex_lt, push_str, str_eq};
use vstd::pervasive::VecAdditionalExecFns;
use vstd::prelude::*;
use vstd::string::StringSliceAdditionalSpecFns;

verus! {

/// Whether a member name is one that JSON-RPC defines for a request:
/// `jsonrpc`, `id`, `method` or `params`.
pub open spec fn is_reserved_member(name: Seq<char>) -> bool {
    name == "jsonrpc"@ || name == "id"@ || name == "method"@ || name == "params"@
}

/// Whether a member name is reserved by JSON-RPC.
pub fn is_reserved_member_name(name: &str) -> (res: bool)
    ensures
        res == is_reserved_member(name@),
{
    str_eq(name, "jsonrpc") || str_eq(name, "id") || str_eq(name, "method") || str_eq(name, "params")
}

/// Error returned when a request extension member uses a reserved JSON-RPC name.
#[derive(Clone, Debug, PartialEq, Eq)]
pub struct InvalidRequestExtensionName {
    name: String,
}

impl InvalidRequestExtensionName {
    /// The name that was refused.
    pub closed spec fn spec_name(&self) -> Seq<char> {
        self.name@
    }

    /// The error for a refused name.
    pub fn new(name: String) -> (res: Self)
        ensures
            res.spec_name() == name@,
    {
        InvalidRequestExtensionName { name }
    }

    /// Returns the invalid member name.
    pub fn name(&self) -> (res: &str)
        ensures
            res@ == self.spec_name(),
    {
        self.name.as_str()
    }

    /// The message of the error: the name in backquotes, then that it is reserved.
    pub fn to_string(&self) -> (res: String)
        ensures
            res@ == "`"@ + self.spec_name() + "` is a reserved JSON-RPC request member"@,
    {
        let mut out = String::new();
        push_str(&mut out, "`");
        push_str(&mut out, self.name.as_str());
        push_str(&mut out, "` is a reserved JSON-RPC request member");
        out
    }
}

/// A member: its name and its JSON value.
pub type Member = (Seq<char>, serde_json::Value);

/// The bytes by which member names are ordered: their UTF-8 encoding.
pub open spec fn name_bytes(name: Seq<char>) -> Seq<u8> {
    vstd::utf8::encode_utf8(name)
}

/// Whether the names of the members are in strictly increasing order, so
/// that no name occurs twice.
pub open spec fn names_ordered(m: Seq<Member>) -> bool {
    forall|i: int, j: int| 0 <= i < j < m.len() ==> lex_lt(#[trigger] name_bytes(m[i].0), #[trigger] name_bytes(m[j].0))
}

/// The index of the first member from `from` on whose name does not come
/// before `name`; the number of members when there is none.
pub open spec fn name_position(m: Seq<Member>, name: Seq<char>, from: int) -> int
    decreases m.len() - from,
{
    if from >= m.len() || from < 0 {
        m.len() as int
    } else if lex_lt(name_bytes(m[from].0), name_bytes(name)) {
        name_position(m, name, from + 1)
    } else {
        from
    }
}

/// The value of the member named `name`, if there is one.
pub open spec fn member_value(m: Seq<Member>, name: Seq<char>) -> Option<serde_json::Value> {
    let p = name_position(m, name, 0);
    if p < m.len() && m[p].0 == name {
        Some(m[p].1)
    } else {
        None
    }
}

/// The members after setting member `name` to `value`: its value is replaced
/// when it is there, else it is added where its name belongs in the order.
pub open spec fn with_member(m: Seq<Member>, name: Seq<char>, value: serde_json::Value) -> Seq<Member> {
    let p = name_position(m, name, 0);
    if p < m.len() && m[p].0 == name {
        m.update(p, (name, value))
    } else {
        m.insert(p, (name, value))
    }
}

/// The members after removing member `name`.
pub open spec fn without_member(m: Seq<Member>, name: Seq<char>) -> Seq<Member> {
    let p = name_position(m, name, 0);
    if p < m.len() && m[p].0 == name {
        m.remove(p)
    } else {
        m
    }
}

/// An index of a member named `name`, if there is one.
pub open spec fn index_of_name(m: Seq<Member>, name: Seq<char>) -> int {
    choose|i: int| 0 <= i < m.len() && #[trigger] m[i].0 == name
}

/// The members as a map from name to value.
pub open spec fn members_map(m: Seq<Member>) -> Map<Seq<char>, serde_json::Value> {
    Map::new(
        |n: Seq<char>| exists|i: int| 0 <= i < m.len() && #[trigger] m[i].0 == n,
        |n: Seq<char>| m[index_of_name(m, n)].1,
    )
}

/// Where the scan for a name stops in ordered members: every member before
/// it has a name that comes first; the member there, if any, does not; and
/// every member after it has a name that comes after.
pub proof fn lemma_name_position(m: Seq<Member>, name: Seq<char>, from: int)
    requires
        names_ordered(m),
        0 <= from <= m.len(),
        forall|j: int| 0 <= j < from ==> lex_lt(#[trigger] name_bytes(m[j].0), name_bytes(name)),
    ensures
        from <= name_position(m, name, from) <= m.len(),
        name_position(m, name, from) == name_position(m, name, 0),
        forall|j: int|
            0 <= j < name_position(m, name, 0) ==> lex_lt(#[trigger] name_bytes(m[j].0), name_bytes(name)),
        forall|j: int|
            name_position(m, name, 0) <= j < m.len() ==> !lex_lt(#[trigger] name_bytes(m[j].0), name_bytes(name)),
        forall|j: int|
            name_position(m, name, 0) < j < m.len() ==> lex_lt(name_bytes(name), #[trigger] name_bytes(m[j].0)),
    decreases m.len() - from,
{
    if from < m.len() && lex_lt(name_bytes(m[from].0), name_bytes(name)) {
        lemma_name_position(m, name, from + 1);
    } else {
        lemma_name_position_start(m, name, from);
        let p = from;
        assert forall|j: int| p <= j < m.len() implies !lex_lt(#[trigger] name_bytes(m[j].0), name_bytes(name)) by {
            if j > p && lex_lt(name_bytes(m[j].0), name_bytes(name)) {
                lemma_lex_lt_transitive(name_bytes(m[p].0), name_bytes(m[j].0), name_bytes(name));
            }
        }
        assert forall|j: int| p < j < m.len() implies lex_lt(name_bytes(name), #[trigger] name_bytes(m[j].0)) by {
            lemma_lex_lt_total(name_bytes(m[p].0), name_bytes(name));
            lemma_lex_lt_total(name_bytes(m[j].0), name_bytes(name));
            if name_bytes(m[p].0) != name_bytes(name) {
                lemma_lex_lt_transitive(name_bytes(name), name_bytes(m[p].0), name_bytes(m[j].0));
            }
        }
    }
}

/// The scan from the start reaches `from` when every member before `from`
/// has a name that comes first.
proof fn lemma_name_position_start(m: Seq<Member>, name: Seq<char>, from: int)
    requires
        0 <= from <= m.len(),
        forall|j: int| 0 <= j < from ==> lex_lt(#[trigger] name_bytes(m[j].0), name_bytes(name)),
    ensures
        name_position(m, name, 0) == name_position(m, name, from),
    decreases from,
{
    if from > 0 {
        lemma_name_position_start(m, name, from - 1);
    }
}

/// In ordered members no name occurs twice.
pub proof fn lemma_names_distinct(m: Seq<Member>, i: int, j: int)
    requires
        names_ordered(m),
        0 <= i < m.len(),
        0 <= j < m.len(),
        m[i].0 == m[j].0,
    ensures
        i == j,
{
    lemma_lex_lt_total(name_bytes(m[i].0), name_bytes(m[i].0));
    if i < j {
        assert(lex_lt(name_bytes(m[i].0), name_bytes(m[j].0)));
    } else if j < i {
        assert(lex_lt(name_bytes(m[j].0), name_bytes(m[i].0)));
    }
}

/// A member of ordered members is the one the map gives for its name.
proof fn lemma_map_entry(m: Seq<Member>, i: int)
    requires
        names_ordered(m),
        0 <= i < m.len(),
    ensures
        members_map(m).contains_key(m[i].0),
        members_map(m)[m[i].0] == m[i].1,
{
    let k = m[i].0;
    assert(exists|j: int| 0 <= j < m.len() && #[trigger] m[j].0 == k);
    let j = index_of_name(m, k);
    lemma_names_distinct(m, i, j);
    assert(members_map(m)[k] == m[j].1);
}

/// In ordered members, a member named `name` can only stand where the scan
/// for `name` stops.
proof fn lemma_found_at_position(m: Seq<Member>, name: Seq<char>, i: int)
    requires
        names_ordered(m),
        0 <= i < m.len(),
        m[i].0 == name,
    ensures
        i == name_position(m, name, 0),
{
    lemma_name_position(m, name, 0);
    lemma_lex_lt_total(name_bytes(name), name_bytes(name));
}

/// The value of a member is what the map of the members gives for its name.
pub proof fn lemma_member_value(m: Seq<Member>, name: Seq<char>)
    requires
        names_ordered(m),
    ensures
        member_value(m, name) == (if members_map(m).contains_key(name) {
            Some(members_map(m)[name])
        } else {
            None
        }),
{
    lemma_name_position(m, name, 0);
    let p = name_position(m, name, 0);
    if p < m.len() && m[p].0 == name {
        lemma_map_entry(m, p);
    } else if members_map(m).contains_key(name) {
        let j = choose|j: int| 0 <= j < m.len() && #[trigger] m[j].0 == name;
        lemma_found_at_position(m, name, j);
    }
}

/// Setting a member keeps the names in order.
pub proof fn lemma_with_member_ordered(m: Seq<Member>, name: Seq<char>, value: serde_json::Value)
    requires
        names_ordered(m),
    ensures
        names_ordered(with_member(m, name, value)),
{
    lemma_name_position(m, name, 0);
    let p = name_position(m, name, 0);
    if p < m.len() && m[p].0 == name {
        let n = with_member(m, name, value);
        assert forall|i: int, j: int| 0 <= i < j < n.len() implies lex_lt(
            #[trigger] name_bytes(n[i].0),
            #[trigger] name_bytes(n[j].0),
        ) by {
            assert(n[i].0 == m[i].0);
            assert(n[j].0 == m[j].0);
        }
    } else {
        lemma_names_ordered_insert(m, name, value);
    }
}

/// Setting member `name` to `value` sets it in the map of the members, and
/// leaves every other member as it was.
pub proof fn lemma_with_member_map(m: Seq<Member>, name: Seq<char>, value: serde_json::Value)
    requires
        names_ordered(m),
    ensures
        members_map(with_member(m, name, value)) == members_map(m).insert(name, value),
{
    let n = with_member(m, name, value);
    assert forall|k: Seq<char>| #[trigger] members_map(n).contains_key(k) == members_map(m).insert(
        name,
        value,
    ).contains_key(k) by {
        lemma_with_member_key(m, name, value, k);
    }
    assert(members_map(n).dom() =~= members_map(m).insert(name, value).dom());
    assert forall|k: Seq<char>| #[trigger] members_map(n).contains_key(k) implies members_map(n)[k]
        == members_map(m).insert(name, value)[k] by {
        lemma_with_member_key(m, name, value, k);
    }
    assert(members_map(n) =~= members_map(m).insert(name, value));
}

/// How setting member `name` to `value` affects the map at one key `k`.
proof fn lemma_with_member_key(m: Seq<Member>, name: Seq<char>, value: serde_json::Value, k: Seq<char>)
    requires
        names_ordered(m),
    ensures
        members_map(with_member(m, name, value)).contains_key(k) == (k == name || members_map(m).contains_key(k)),
        k == name ==> members_map(with_member(m, name, value))[k] == value,
        k != name && members_map(m).contains_key(k) ==> members_map(with_member(m, name, value))[k]
            == members_map(m)[k],
{
    lemma_name_position(m, name, 0);
    lemma_with_member_ordered(m, name, value);
    let p = name_position(m, name, 0);
    let n = with_member(m, name, value);
    let found = p < m.len() && m[p].0 == name;
    assert(n[p] == (name, value));
    lemma_map_entry(n, p);
    if k != name {
        if members_map(m).contains_key(k) {
            let i = index_of_name(m, k);
            lemma_map_entry(m, i);
            let i2 = if !found && i >= p { i + 1 } else { i };
            assert(n[i2] == m[i]);
            lemma_map_entry(n, i2);
        }
        if members_map(n).contains_key(k) {
            let i2 = index_of_name(n, k);
            let i = if !found && i2 > p { i2 - 1 } else { i2 };
            assert(n[i2] == m[i]);
            assert(m[i].0 == k);
        }
    }
}

/// How removing member `name` affects the map at one key `k`.
proof fn lemma_without_member_key(m: Seq<Member>, name: Seq<char>, k: Seq<char>)
    requires
        names_ordered(m),
    ensures
        members_map(without_member(m, name)).contains_key(k) == (k != name && members_map(m).contains_key(k)),
        k != name && members_map(m).contains_key(k) ==> members_map(without_member(m, name))[k]
            == members_map(m)[k],
{
    lemma_name_position(m, name, 0);
    lemma_without_member_ordered(m, name);
    let p = name_position(m, name, 0);
    let n = without_member(m, name);
    let found = p < m.len() && m[p].0 == name;
    if k != name && members_map(m).contains_key(k) {
        let i = index_of_name(m, k);
        lemma_map_entry(m, i);
        if found {
            assert(i != p);
        }
        let i2 = if found && i > p { i - 1 } else { i };
        assert(n[i2] == m[i]);
        lemma_map_entry(n, i2);
    }
    if members_map(n).contains_key(k) {
        let i2 = index_of_name(n, k);
        let i = if found && i2 >= p { i2 + 1 } else { i2 };
        assert(n[i2] == m[i]);
        assert(m[i].0 == k);
        if k == name {
            lemma_found_at_position(m, name, i);
        }
    }
}

/// Removing a member keeps the names in order.
pub proof fn lemma_without_member_ordered(m: Seq<Member>, name: Seq<char>)
    requires
        names_ordered(m),
    ensures
        names_ordered(without_member(m, name)),
{
    lemma_name_position(m, name, 0);
    let p = name_position(m, name, 0);
    let n = without_member(m, name);
    let found = p < m.len() && m[p].0 == name;
    assert forall|i: int, j: int| 0 <= i < j < n.len() implies lex_lt(
        #[trigger] name_bytes(n[i].0),
        #[trigger] name_bytes(n[j].0),
    ) by {
        let i0 = if found && i >= p { i + 1 } else { i };
        let j0 = if found && j >= p { j + 1 } else { j };
        assert(n[i] == m[i0]);
        assert(n[j] == m[j0]);
    }
}

/// Removing member `name` removes it from the map of the members, and leaves
/// every other member as it was.
pub proof fn lemma_without_member_map(m: Seq<Member>, name: Seq<char>)
    requires
        names_ordered(m),
    ensures
        members_map(without_member(m, name)) == members_map(m).remove(name),
{
    let n = without_member(m, name);
    assert forall|k: Seq<char>| #[trigger] members_map(n).contains_key(k) == members_map(m).remove(
        name,
    ).contains_key(k) by {
        lemma_without_member_key(m, name, k);
    }
    assert(members_map(n).dom() =~= members_map(m).remove(name).dom());
    assert forall|k: Seq<char>| #[trigger] members_map(n).contains_key(k) implies members_map(n)[k]
        == members_map(m).remove(name)[k] by {
        lemma_without_member_key(m, name, k);
    }
    assert(members_map(n) =~= members_map(m).remove(name));
}

/// What a read gives back of a write: after setting member `name` to
/// `value`, reading `name` gives `value`, and reading any other name gives
/// what it gave before.
pub proof fn lemma_member_written_reads_back(
    m: Seq<Member>,
    name: Seq<char>,
    value: serde_json::Value,
    other: Seq<char>,
)
    requires
        names_ordered(m),
    ensures
        member_value(with_member(m, name, value), name) == Some(value),
        other != name ==> member_value(with_member(m, name, value), other) == member_value(m, other),
        member_value(without_member(m, name), name) is None,
        other != name ==> member_value(without_member(m, name), other) == member_value(m, other),
{
    lemma_with_member_ordered(m, name, value);
    lemma_with_member_map(m, name, value);
    lemma_without_member_ordered(m, name);
    lemma_without_member_map(m, name);
    lemma_member_value(m, other);
    lemma_member_value(with_member(m, name, value), name);
    lemma_member_value(with_member(m, name, value), other);
    lemma_member_value(without_member(m, name), name);
    lemma_member_value(without_member(m, name), other);
}

/// Whether no member has a name that JSON-RPC reserves.
pub open spec fn no_reserved_names(m: Seq<Member>) -> bool {
    forall|i: int| 0 <= i < m.len() ==> !is_reserved_member(#[trigger] m[i].0)
}

/// Every member after setting member `name` is that member or one that was
/// there before.
proof fn lemma_with_member_names(m: Seq<Member>, name: Seq<char>, value: serde_json::Value)
    requires
        names_ordered(m),
    ensures
        forall|i: int|
            0 <= i < with_member(m, name, value).len() ==> #[trigger] with_member(m, name, value)[i].0 == name
                || exists|j: int| 0 <= j < m.len() && m[j].0 == with_member(m, name, value)[i].0,
{
    lemma_name_position(m, name, 0);
    let p = name_position(m, name, 0);
    let n = with_member(m, name, value);
    let found = p < m.len() && m[p].0 == name;
    assert forall|i: int| 0 <= i < n.len() implies #[trigger] n[i].0 == name || exists|j: int|
        0 <= j < m.len() && m[j].0 == n[i].0 by {
        if i != p {
            let j = if !found && i > p { i - 1 } else { i };
            assert(n[i] == m[j]);
        }
    }
}

/// Every member after removing member `name` was there before.
proof fn lemma_without_member_names(m: Seq<Member>, name: Seq<char>)
    requires
        names_ordered(m),
    ensures
        forall|i: int|
            0 <= i < without_member(m, name).len() ==> exists|j: int|
                0 <= j < m.len() && m[j].0 == #[trigger] without_member(m, name)[i].0,
{
    lemma_name_position(m, name, 0);
    let p = name_position(m, name, 0);
    let n = without_member(m, name);
    let found = p < m.len() && m[p].0 == name;
    assert forall|i: int| 0 <= i < n.len() implies exists|j: int| 0 <= j < m.len() && m[j].0 == #[trigger] n[i].0 by {
        let j = if found && i >= p { i + 1 } else { i };
        assert(n[i] == m[j]);
    }
}

/// Additional top-level members serialized with a JSON-RPC request or
/// notification. The reserved JSON-RPC request members `jsonrpc`, `id`,
/// `method`, and `params` cannot be inserted. The members are kept in the
/// order of their names.
#[derive(Clone, Debug)]
pub struct RequestExtensions {
    members: Vec<(String, serde_json::Value)>,
}

impl RequestExtensions {
    /// The members, in the order of their names.
    pub closed spec fn members(&self) -> Seq<Member> {
        self.members@.map_values(|e: (String, serde_json::Value)| (e.0@, e.1))
    }

    /// No name occurs twice, the names are in order, and none is reserved.
    pub open spec fn wf(&self) -> bool {
        &&& names_ordered(self.members())
        &&& no_reserved_names(self.members())
    }

    /// No members.
    pub fn new() -> (res: Self)
        ensures
            res.wf(),
            res.members().len() == 0,
    {
        RequestExtensions { members: Vec::new() }
    }

    /// The index of the first member whose name does not come before `name`.
    fn position(&self, name: &str) -> (res: usize)
        requires
            self.wf(),
        ensures
            res == name_position(self.members(), name@, 0),
    {
        let key = name.as_bytes();
        let mut i: usize = 0;
        while i < self.members.len()
            invariant
                self.wf(),
                key@ == name_bytes(name@),
                i <= self.members().len(),
                forall|j: int| 0 <= j < i ==> lex_lt(#[trigger] name_bytes(self.members()[j].0), name_bytes(name@)),
            decreases self.members().len() - i,
        {
            let member = self.members[i].0.as_str();
            assert(member@ == self.members()[i as int].0);
            if !bytes_lt(member.as_bytes(), key) {
                proof {
                    lemma_name_position(self.members(), name@, i as int);
                }
                return i;
            }
            i = i + 1;
        }
        proof {
            lemma_name_position(self.members(), name@, i as int);
        }
        i
    }

    /// Inserts a request extension member.
    ///
    /// Returns the previous value when the member was already present.
    pub fn insert(&mut self, name: &str, value: serde_json::Value) -> (res: Result<
        Option<serde_json::Value>,
        InvalidRequestExtensionName,
    >)
        requires
            old(self).wf(),
        ensures
            final(self).wf(),
            is_reserved_member(name@) ==> (res matches Err(e) && e.spec_name() == name@) && final(self).members()
                == old(self).members(),
            !is_reserved_member(name@) ==> res == Ok::<Option<serde_json::Value>, InvalidRequestExtensionName>(
                member_value(old(self).members(), name@),
            ) && final(self).members() == with_member(old(self).members(), name@, value),
    {
        if is_reserved_member_name(name) {
            return Err(InvalidRequestExtensionName::new(name.to_owned()));
        }
        let ghost m = self.members();
        proof {
            lemma_name_position(m, name@, 0);
        }
        let p = self.position(name);
        if p < self.members.len() && str_eq(self.members[p].0.as_str(), name) {
            let mut entry = (name.to_owned(), value);
            self.members.set_and_swap(p, &mut entry);
            proof {
                assert(self.members() =~= with_member(m, name@, value));
                lemma_with_member_ordered(m, name@, value);
                lemma_with_member_names(m, name@, value);
                assert forall|i: int| 0 <= i < self.members().len() implies !is_reserved_member(
                    #[trigger] self.members()[i].0,
                ) by {
                    if self.members()[i].0 != name@ {
                        let j = choose|j: int| 0 <= j < m.len() && m[j].0 == self.members()[i].0;
                        assert(!is_reserved_member(m[j].0));
                    }
                }
            }
            Ok(Some(entry.1))
        } else {
            self.members.insert(p, (name.to_owned(), value));
            proof {
                assert(self.members() =~= with_member(m, name@, value));
                lemma_with_member_ordered(m, name@, value);
                lemma_with_member_names(m, name@, value);
                assert forall|i: int| 0 <= i < self.members().len() implies !is_reserved_member(
                    #[trigger] self.members()[i].0,
                ) by {
                    if self.members()[i].0 != name@ {
                        let j = choose|j: int| 0 <= j < m.len() && m[j].0 == self.members()[i].0;
                        assert(!is_reserved_member(m[j].0));
                    }
                }
            }
            Ok(None)
        }
    }

    /// Removes a request extension member, returning its value when it was present.
    pub fn remove(&mut self, name: &str) -> (res: Option<serde_json::Value>)
        requires
            old(self).wf(),
        ensures
            final(self).wf(),
            res == member_value(old(self).members(), name@),
            final(self).members() == without_member(old(self).members(), name@),
    {
        let ghost m = self.members();
        let p = self.position(name);
        if p < self.members.len() && str_eq(self.members[p].0.as_str(), name) {
            let entry = self.members.remove(p);
            proof {
                assert(self.members() =~= without_member(m, name@));
                lemma_without_member_ordered(m, name@);
                lemma_without_member_names(m, name@);
                assert forall|i: int| 0 <= i < self.members().len() implies !is_reserved_member(
                    #[trigger] self.members()[i].0,
                ) by {
                    let j = choose|j: int| 0 <= j < m.len() && m[j].0 == self.members()[i].0;
                    assert(!is_reserved_member(m[j].0));
                }
            }
            Some(entry.1)
        } else {
            None
        }
    }

    /// Returns the value of the member named `name`, if there is one.
    pub fn get(&self, name: &str) -> (res: Option<&serde_json::Value>)
        requires
            self.wf(),
        ensures
            res is Some <==> member_value(self.members(), name@) is Some,
            res matches Some(v) ==> Some(*v) == member_value(self.members(), name@),
    {
        let p = self.position(name);
        if p < self.members.len() && str_eq(self.members[p].0.as_str(), name) {
            Some(&self.members[p].1)
        } else {
            None
        }
    }

    /// Returns the request extension members, in the order of their names.
    pub fn iter(&self) -> (res: Vec<(&str, &serde_json::Value)>)
        ensures
            res@.len() == self.members().len(),
            forall|i: int|
                0 <= i < res@.len() ==> (#[trigger] res@[i]).0@ == self.members()[i].0 && *res@[i].1
                    == self.members()[i].1,
    {
        let mut out: Vec<(&str, &serde_json::Value)> = Vec::new();
        let mut i: usize = 0;
        while i < self.members.len()
            invariant
                i <= self.members().len(),
                out@.len() == i,
                forall|j: int|
                    0 <= j < i ==> (#[trigger] out@[j]).0@ == self.members()[j].0 && *out@[j].1 == self.members()[j].1,
            decreases self.members().len() - i,
        {
            let entry = &self.members[i];
            out.push((entry.0.as_str(), &entry.1));
            i = i + 1;
        }
        out
    }

    /// Returns the number of request extension members.
    pub fn len(&self) -> (res: usize)
        ensures
            res == self.members().len(),
    {
        self.members.len()
    }

    /// Returns whether there are no request extension members.
    pub fn is_empty(&self) -> (res: bool)
        ensures
            res == (self.members().len() == 0),
    {
        self.members.len() == 0
    }
}

impl Default for RequestExtensions {
    fn default() -> (res: Self)
        ensures
            res.wf(),
            res.members().len() == 0,
    {
        Self::new()
    }
}

/// Adding a member whose name is not there, where its name belongs, keeps
/// the names in order.
proof fn lemma_names_ordered_insert(m: Seq<Member>, name: Seq<char>, value: serde_json::Value)
    requires
        names_ordered(m),
        !(name_position(m, name, 0) < m.len() && m[name_position(m, name, 0)].0 == name),
    ensures
        names_ordered(with_member(m, name, value)),
{
    lemma_name_position(m, name, 0);
    let p = name_position(m, name, 0);
    let n = with_member(m, name, value);
    if p < m.len() {
        vstd::utf8::encode_utf8_decode_utf8(m[p].0);
        vstd::utf8::encode_utf8_decode_utf8(name);
        lemma_lex_lt_total(name_bytes(m[p].0), name_bytes(name));
    }
    assert forall|i: int, j: int| 0 <= i < j < n.len() implies lex_lt(
        #[trigger] name_bytes(n[i].0),
        #[trigger] name_bytes(n[j].0),
    ) by {
        if i < p && j > p {
            assert(n[j] == m[j - 1]);
            if j - 1 > p {
                lemma_lex_lt_transitive(name_bytes(m[i].0), name_bytes(name), name_bytes(m[j - 1].0));
            } else {
                lemma_lex_lt_transitive(name_bytes(m[i].0), name_bytes(name), name_bytes(m[j - 1].0));
            }
        } else if i > p {
            assert(n[i] == m[i - 1]);
            assert(n[j] == m[j - 1]);
        }
    }
}

/// JSON-RPC request object as defined in the
/// [spec](https://www.jsonrpc.org/specification#request-object), with the
/// parameters kept as their raw JSON text.
#[derive(Debug, Clone)]
pub struct Request {
    /// JSON-RPC version.
    pub jsonrpc: TwoPointZero,
    /// Request ID
    pub id: Id,
    /// Name of the method to be invoked.
    pub method: String,
    /// Raw JSON text of the parameter values of the request.
    pub params: Option<String>,
    /// The additional top-level members of the request, once there are any.
    pub request_extensions: Option<RequestExtensions>,
}

/// Whether the additional members, if any, are well formed.
pub open spec fn extensions_wf(e: Option<RequestExtensions>) -> bool {
    e matches Some(x) ==> x.wf()
}

impl Request {
    /// Create a new [`Request`] from borrowed parts.
    pub fn borrowed(method: &str, params: Option<&str>, id: Id) -> (res: Self)
        ensures
            res.method@ == method@,
            params matches Some(p) ==> (res.params matches Some(q) && q@ == p@),
            params is None ==> res.params is None,
            res.id == id,
            res.request_extensions is None,
    {
        let params = match params {
            Some(p) => Some(p.to_owned()),
            None => None,
        };
        Request { jsonrpc: TwoPointZero, id, method: method.to_owned(), params, request_extensions: None }
    }

    /// Create a new [`Request`] from owned parts.
    pub fn owned(method: String, params: Option<String>, id: Id) -> (res: Self)
        ensures
            res.method == method,
            res.params == params,
            res.id == id,
            res.request_extensions is None,
    {
        Request { jsonrpc: TwoPointZero, id, method, params, request_extensions: None }
    }

    /// Get the ID of the request.
    pub fn id(&self) -> (res: Id)
        ensures
            res == self.id,
    {
        match &self.id {
            Id::Null => Id::Null,
            Id::Number(n) => Id::Number(*n),
            Id::Str(s) => Id::Str(s.clone()),
        }
    }

    /// Get the method name of the request.
    pub fn method_name(&self) -> (res: &str)
        ensures
            res@ == self.method@,
    {
        self.method.as_str()
    }

    /// Get the params of the request.
    pub fn params(&self) -> (res: Params)
        ensures
            self.params matches Some(p) ==> res.text() == Some(trim_bytes(name_bytes(p@))),
            self.params is None ==> res.text() is None,
    {
        match &self.params {
            Some(p) => Params::new(Some(p.as_str())),
            None => Params::new(None),
        }
    }

    /// Returns the additional top-level JSON-RPC request members, when present.
    pub fn request_extensions(&self) -> (res: Option<&RequestExtensions>)
        ensures
            self.request_extensions matches Some(e) ==> (res matches Some(r) && *r == e),
            self.request_extensions is None ==> res is None,
    {
        match &self.request_extensions {
            Some(e) => Some(e),
            None => None,
        }
    }

    /// Returns the additional top-level JSON-RPC request members for
    /// mutation, adding an empty set of them when there is none yet.
    pub fn request_extensions_mut(&mut self) -> (res: &mut RequestExtensions)
        requires
            extensions_wf(old(self).request_extensions),
        ensures
            res.wf(),
            old(self).request_extensions matches Some(e) ==> *res == e,
            old(self).request_extensions is None ==> res.members().len() == 0,
            final(self).request_extensions == Some(*final(res)),
            final(self).id == old(self).id,
            final(self).method == old(self).method,
            final(self).params == old(self).params,
    {
        if self.request_extensions.is_none() {
            self.request_extensions = Some(RequestExtensions::new());
        }
        match &mut self.request_extensions {
            Some(e) => e,
            None => vstd::pervasive::unreached(),
        }
    }
}

/// JSON-RPC notification (a request object without a request ID) as defined in the
/// [spec](https://www.jsonrpc.org/specification#request-object).
#[derive(Debug, Clone)]
pub struct Notification<T> {
    /// JSON-RPC version.
    pub jsonrpc: TwoPointZero,
    /// Name of the method to be invoked.
    pub method: String,
    /// Parameter values of the request.
    pub params: T,
    /// The additional top-level members of the notification, once there are any.
    pub request_extensions: Option<RequestExtensions>,
}

impl<T> Notification<T> {
    /// Create a new [`Notification`].
    pub fn new(method: String, params: T) -> (res: Self)
        ensures
            res.method == method,
            res.params == params,
            res.request_extensions is None,
    {
        Notification { jsonrpc: TwoPointZero, method, params, request_extensions: None }
    }

    /// Get the method name of the request.
    pub fn method_name(&self) -> (res: &str)
        ensures
            res@ == self.method@,
    {
        self.method.as_str()
    }

    /// Get the params of the request.
    pub fn params(&self) -> (res: &T)
        ensures
            *res == self.params,
    {
        &self.params
    }

    /// Returns the additional top-level JSON-RPC request members, when present.
    pub fn request_extensions(&self) -> (res: Option<&RequestExtensions>)
        ensures
            self.request_extensions matches Some(e) ==> (res matches Some(r) && *r == e),
            self.request_extensions is None ==> res is None,
    {
        match &self.request_extensions {
            Some(e) => Some(e),
            None => None,
        }
    }

    /// Returns the additional top-level JSON-RPC request members for
    /// mutation, adding an empty set of them when there is none yet.
    pub fn request_extensions_mut(&mut self) -> (res: &mut RequestExtensions)
        requires
            extensions_wf(old(self).request_extensions),
        ensures
            res.wf(),
            old(self).request_extensions matches Some(e) ==> *res == e,
            old(self).request_extensions is None ==> res.members().len() == 0,
            final(self).request_extensions == Some(*final(res)),
            final(self).method == old(self).method,
            final(self).params == old(self).params,
    {
        if self.request_extensions.is_none() {
            self.request_extensions = Some(RequestExtensions::new());
        }
        match &mut self.request_extensions {
            Some(e) => e,
            None => vstd::pervasive::unreached(),
        }
    }
}

} // verus!
