//! The identity claim in the resource of an opening handshake.
//!
//! The query of a resource is what follows its first `?`; a resource
//! without a `?` has none. The query is a list of parameters separated by
//! `&`. A parameter that begins with `user=` claims an identity, wherever
//! it stands in the list, and the first such parameter is the one that
//! counts. The name is what follows `user=`, taken as it stands, up to the
//! next `?`, `=` or `&` or to the end of the resource.

use vstd::prelude::*;
use vstd::string::*;
use crate::text::text_of;

verus! {

/// The key that introduces an identity claim.
pub const KEY_USER: &'static str = "user";

/// The places at which a resource is cut.
#[derive(Clone, Copy, Debug, PartialEq, Eq, Structural)]
pub enum Cut {
    /// Before the query: at `?`.
    Query,
    /// Between two parameters: at `&`.
    Parameter,
    /// After a name: at `?`, `=` and `&`.
    Name,
}

impl Cut {
    /// Whether the resource is cut at the character `c`.
    pub open spec fn at(self, c: char) -> bool {
        match self {
            Cut::Query => c == '?',
            Cut::Parameter => c == '&',
            Cut::Name => c == '?' || c == '=' || c == '&',
        }
    }

    /// Whether the resource is cut at the character `c`.
    fn is_at(self, c: char) -> (yes: bool)
        ensures
            yes == self.at(c),
    {
        match self {
            Cut::Query => c == '?',
            Cut::Parameter => c == '&',
            Cut::Name => c == '?' || c == '=' || c == '&',
        }
    }
}

/// No character of `s` from `from` up to, not including, `to` is one at
/// which `cut` cuts.
pub open spec fn free_of(s: Seq<char>, cut: Cut, from: int, to: int) -> bool {
    forall|j: int| from <= j < to && 0 <= j < s.len() ==> !cut.at(#[trigger] s[j])
}

/// The first place at or after `from` at which `cut` cuts `s`, and the
/// length of `s` where there is none.
pub open spec fn next_cut(s: Seq<char>, from: int, cut: Cut) -> int
    decreases s.len() - from,
{
    if from >= s.len() {
        s.len() as int
    } else if from >= 0 && cut.at(s[from]) {
        from
    } else {
        next_cut(s, from + 1, cut)
    }
}

/// Whether `user=` stands in `s` at `start`.
pub open spec fn names_user(s: Seq<char>, start: int) -> bool {
    &&& 0 <= start
    &&& start + KEY_USER@.len() < s.len()
    &&& s.subrange(start, start + KEY_USER@.len()) == KEY_USER@
    &&& s[start + KEY_USER@.len()] == '='
}

/// The name that follows the `user=` that stands in `s` at `start`.
pub open spec fn name_at(s: Seq<char>, start: int) -> Seq<char> {
    let from = start + KEY_USER@.len() + 1;
    s.subrange(from, next_cut(s, from, Cut::Name))
}

/// The identity claimed by the first parameter that begins with `user=`,
/// among the parameter that begins at `start` and those after it.
pub open spec fn claim_in_query(s: Seq<char>, start: int) -> Option<Seq<char>>
    decreases s.len() - start,
{
    let end = next_cut(s, start, Cut::Parameter);
    if names_user(s, start) {
        Some(name_at(s, start))
    } else if start <= end < s.len() {
        claim_in_query(s, end + 1)
    } else {
        None
    }
}

/// The identity that the resource `s` claims, if it claims one.
pub open spec fn claimed_identity(s: Seq<char>) -> Option<Seq<char>> {
    let mark = next_cut(s, 0, Cut::Query);
    if mark < s.len() {
        claim_in_query(s, mark + 1)
    } else {
        None
    }
}

/// `next_cut` gives the first cut: nothing before the place it gives is
/// one, and the place holds one unless it is the end.
pub proof fn lemma_next_cut(s: Seq<char>, from: int, cut: Cut)
    requires
        0 <= from <= s.len(),
    ensures
        from <= next_cut(s, from, cut) <= s.len(),
        free_of(s, cut, from, next_cut(s, from, cut)),
        next_cut(s, from, cut) < s.len() ==> cut.at(s[next_cut(s, from, cut)]),
    decreases s.len() - from,
{
    if from < s.len() && !cut.at(s[from]) {
        lemma_next_cut(s, from + 1, cut);
    }
}

/// A place that holds the first cut at or after `from`, or the end with no
/// cut before it, is the place `next_cut` gives.
pub proof fn lemma_cut_found(s: Seq<char>, from: int, at: int, cut: Cut)
    requires
        0 <= from <= at <= s.len(),
        free_of(s, cut, from, at),
        at < s.len() ==> cut.at(s[at]),
    ensures
        next_cut(s, from, cut) == at,
    decreases at - from,
{
    if from < at {
        assert(!cut.at(s[from]));
        lemma_cut_found(s, from + 1, at, cut);
    }
}

/// What is appended to a resource to claim `name`: `&user=` and the name.
pub open spec fn user_parameter(name: Seq<char>) -> Seq<char> {
    seq!['&'] + KEY_USER@ + seq!['='] + name
}

/// Where a resource ends in `&user=` and a name, `user=` stands after the
/// `&`, and the name that follows it is that name.
proof fn lemma_user_parameter(front: Seq<char>, name: Seq<char>)
    requires
        free_of(name, Cut::Name, 0, name.len() as int),
    ensures
        names_user(front + user_parameter(name), front.len() as int + 1),
        name_at(front + user_parameter(name), front.len() as int + 1) == name,
{
    reveal_strlit("user");
    let key = KEY_USER@;
    let s = front + user_parameter(name);
    let start: int = front.len() as int + 1;
    let from: int = start + key.len() + 1;
    assert(s.subrange(start, start + key.len()) =~= key);
    assert(s[start + key.len()] == '=');
    assert(free_of(s, Cut::Name, from, s.len() as int)) by {
        assert forall|j: int| from <= j < s.len() implies !Cut::Name.at(#[trigger] s[j]) by {
            assert(s[j] == name[j - from]);
        }
    }
    lemma_cut_found(s, from, s.len() as int, Cut::Name);
    assert(s.subrange(from, s.len() as int) =~= name);
}

/// `user=` does not stand across the end of a resource to which `&user=`
/// and a name are appended: it stands at a place of the longer resource
/// exactly when it stands there in the shorter one.
proof fn lemma_names_user_in_front(front: Seq<char>, name: Seq<char>, start: int)
    requires
        0 <= start <= front.len(),
    ensures
        names_user(front + user_parameter(name), start) == names_user(front, start),
{
    reveal_strlit("user");
    let key = KEY_USER@;
    let s = front + user_parameter(name);
    if start + key.len() < front.len() {
        assert(s.subrange(start, start + key.len()) =~= front.subrange(start, start + key.len()));
        assert(s[start + key.len()] == front[start + key.len()]);
    } else {
        let gap: int = front.len() - start;
        assert(s[front.len() as int] == '&');
        if names_user(s, start) {
            if gap < key.len() {
                assert(s.subrange(start, start + key.len())[gap] == s[front.len() as int]);
                assert(key[gap] != '&');
            }
        }
    }
}

/// Appending `&user=` and a name to a resource leaves every cut between
/// parameters in the resource where it was, and adds one at its end.
proof fn lemma_parameter_cut_in_front(front: Seq<char>, name: Seq<char>, start: int)
    requires
        0 <= start <= front.len(),
    ensures
        next_cut(front + user_parameter(name), start, Cut::Parameter) == next_cut(
            front,
            start,
            Cut::Parameter,
        ),
{
    let s = front + user_parameter(name);
    let end = next_cut(front, start, Cut::Parameter);
    lemma_next_cut(front, start, Cut::Parameter);
    assert(free_of(s, Cut::Parameter, start, end)) by {
        assert forall|j: int| start <= j < end implies !Cut::Parameter.at(#[trigger] s[j]) by {
            assert(s[j] == front[j]);
        }
    }
    if end < front.len() {
        assert(s[end] == front[end]);
    } else {
        assert(s[end] == '&');
    }
    lemma_cut_found(s, start, end, Cut::Parameter);
}

/// Among the parameters from `start` on: where none of them claims an
/// identity, the resource with `&user=` and a name appended claims that
/// name.
proof fn lemma_claim_appended(front: Seq<char>, name: Seq<char>, start: int)
    requires
        0 <= start <= front.len(),
        claim_in_query(front, start).is_none(),
        free_of(name, Cut::Name, 0, name.len() as int),
    ensures
        claim_in_query(front + user_parameter(name), start) == Some(name),
    decreases front.len() - start,
{
    let s = front + user_parameter(name);
    let end = next_cut(front, start, Cut::Parameter);
    lemma_next_cut(front, start, Cut::Parameter);
    lemma_names_user_in_front(front, name, start);
    lemma_parameter_cut_in_front(front, name, start);
    if end < front.len() {
        lemma_claim_appended(front, name, end + 1);
    } else {
        lemma_user_parameter(front, name);
    }
}

/// A resource of the form path, `?user=`, name claims the name, where the
/// path holds no `?` and the name none of `?`, `=` and `&`.
pub proof fn lemma_user_claim(path: Seq<char>, name: Seq<char>)
    requires
        free_of(path, Cut::Query, 0, path.len() as int),
        free_of(name, Cut::Name, 0, name.len() as int),
    ensures
        claimed_identity(path + seq!['?'] + KEY_USER@ + seq!['='] + name) == Some(name),
{
    reveal_strlit("user");
    let key = KEY_USER@;
    let s = path + seq!['?'] + key + seq!['='] + name;
    let mark: int = path.len() as int;
    let from: int = mark + 1 + key.len() + 1;
    assert(s[mark] == '?');
    assert(free_of(s, Cut::Query, 0, mark)) by {
        assert forall|j: int| 0 <= j < mark implies !Cut::Query.at(#[trigger] s[j]) by {
            assert(s[j] == path[j]);
        }
    }
    lemma_cut_found(s, 0, mark, Cut::Query);
    assert(s.subrange(mark + 1, mark + 1 + key.len()) =~= key);
    assert(s[mark + 1 + key.len()] == '=');
    assert(free_of(s, Cut::Name, from, s.len() as int)) by {
        assert forall|j: int| from <= j < s.len() implies !Cut::Name.at(#[trigger] s[j]) by {
            assert(s[j] == name[j - from]);
        }
    }
    lemma_cut_found(s, from, s.len() as int, Cut::Name);
    assert(s.subrange(from, s.len() as int) =~= name);
}

/// A claim counts wherever it stands in the query: a resource that has a
/// query and claims nothing claims `name` once `&user=` and the name are
/// appended to it, where the name holds none of `?`, `=` and `&`.
pub proof fn lemma_user_claim_appended(front: Seq<char>, name: Seq<char>)
    requires
        next_cut(front, 0, Cut::Query) < front.len(),
        claimed_identity(front).is_none(),
        free_of(name, Cut::Name, 0, name.len() as int),
    ensures
        claimed_identity(front + user_parameter(name)) == Some(name),
{
    let s = front + user_parameter(name);
    let mark = next_cut(front, 0, Cut::Query);
    lemma_next_cut(front, 0, Cut::Query);
    assert(free_of(s, Cut::Query, 0, mark)) by {
        assert forall|j: int| 0 <= j < mark implies !Cut::Query.at(#[trigger] s[j]) by {
            assert(s[j] == front[j]);
        }
    }
    assert(s[mark] == front[mark]);
    lemma_cut_found(s, 0, mark, Cut::Query);
    lemma_claim_appended(front, name, mark + 1);
}

/// A resource of the form path, `?`, parameter, `&user=`, name claims the
/// name, where the path holds no `?`, the parameter holds no `&` and does
/// not begin with `user=`, and the name holds none of `?`, `=` and `&`.
pub proof fn lemma_user_claim_after_parameter(
    path: Seq<char>,
    parameter: Seq<char>,
    name: Seq<char>,
)
    requires
        free_of(path, Cut::Query, 0, path.len() as int),
        free_of(parameter, Cut::Parameter, 0, parameter.len() as int),
        !names_user(parameter, 0),
        free_of(name, Cut::Name, 0, name.len() as int),
    ensures
        claimed_identity(path + seq!['?'] + parameter + user_parameter(name)) == Some(name),
{
    let key = KEY_USER@;
    let front = path + seq!['?'] + parameter;
    let mark: int = path.len() as int;
    let start: int = mark + 1;
    assert(front[mark] == '?');
    assert(free_of(front, Cut::Query, 0, mark)) by {
        assert forall|j: int| 0 <= j < mark implies !Cut::Query.at(#[trigger] front[j]) by {
            assert(front[j] == path[j]);
        }
    }
    lemma_cut_found(front, 0, mark, Cut::Query);
    assert(free_of(front, Cut::Parameter, start, front.len() as int)) by {
        assert forall|j: int| start <= j < front.len() implies !Cut::Parameter.at(
            #[trigger] front[j],
        ) by {
            assert(front[j] == parameter[j - start]);
        }
    }
    lemma_cut_found(front, start, front.len() as int, Cut::Parameter);
    assert(!names_user(front, start)) by {
        if names_user(front, start) {
            assert(front.subrange(start, start + key.len()) =~= parameter.subrange(
                0,
                key.len() as int,
            ));
            assert(front[start + key.len()] == parameter[key.len() as int]);
        }
    }
    assert(claim_in_query(front, start).is_none());
    lemma_user_claim_appended(front, name);
}

/// The characters of `s`, one by one.
fn characters(s: &str) -> (chars: Vec<char>)
    ensures
        chars@ == s@,
{
    let mut chars: Vec<char> = Vec::new();
    for c in it: s.chars()
        invariant
            it.seq() == s@,
            chars@ == s@.take(it.index() as int),
    {
        chars.push(c);
        assert(chars@ =~= s@.take(it.index() + 1));
    }
    assert(chars@ =~= s@);
    chars
}

/// The first place at or after `from` at which `cut` cuts `chars`, and the
/// length of `chars` where there is none.
fn find_cut(chars: &Vec<char>, from: usize, cut: Cut) -> (at: usize)
    requires
        from <= chars.len(),
    ensures
        at == next_cut(chars@, from as int, cut),
        from <= at <= chars.len(),
{
    let mut at: usize = from;
    while at < chars.len() && !cut.is_at(chars[at])
        invariant
            from <= at <= chars.len(),
            free_of(chars@, cut, from as int, at as int),
        decreases chars.len() - at,
    {
        at = at + 1;
    }
    proof {
        lemma_cut_found(chars@, from as int, at as int, cut);
    }
    at
}

/// Whether `user=` stands in `chars` at `start`.
fn names_user_at(chars: &Vec<char>, key: &Vec<char>, start: usize) -> (yes: bool)
    requires
        start <= chars.len(),
        key@ == KEY_USER@,
    ensures
        yes == names_user(chars@, start as int),
{
    if chars.len() - start <= key.len() {
        return false;
    }
    let mut matched: usize = 0;
    while matched < key.len()
        invariant
            matched <= key.len(),
            key@ == KEY_USER@,
            start + key.len() < chars.len(),
            chars@.subrange(start as int, start + matched) == key@.subrange(0, matched as int),
        decreases key.len() - matched,
    {
        if chars[start + matched] != key[matched] {
            proof {
                let whole = chars@.subrange(start as int, start + key.len());
                assert(whole[matched as int] == chars@[start + matched]);
                assert(whole != KEY_USER@);
            }
            return false;
        }
        matched = matched + 1;
        assert(chars@.subrange(start as int, start + matched) =~= key@.subrange(
            0,
            matched as int,
        ));
    }
    assert(key@.subrange(0, key.len() as int) =~= key@);
    chars[start + key.len()] == '='
}

/// The identity that the handshake resource claims, if it claims one.
///
/// The claim is read from the first parameter of the query that begins with
/// `user=`. The name is taken as it stands: it is not decoded, trimmed or
/// changed in case, and it may be empty.
pub fn claimed_user(resource: &str) -> (claim: Option<String>)
    ensures
        text_of(claim) == claimed_identity(resource@),
{
    let chars = characters(resource);
    let key = characters(KEY_USER);
    let length = chars.len();
    let mark = find_cut(&chars, 0, Cut::Query);
    if mark >= length {
        return None;
    }
    let mut start: usize = mark + 1;
    loop
        invariant
            start <= length,
            length == chars.len(),
            chars@ == resource@,
            key@ == KEY_USER@,
            claim_in_query(chars@, start as int) == claimed_identity(resource@),
        decreases length - start,
    {
        let end = find_cut(&chars, start, Cut::Parameter);
        if names_user_at(&chars, &key, start) {
            let from = start + key.len() + 1;
            let until = find_cut(&chars, from, Cut::Name);
            return Some(resource.substring_char(from, until).to_owned());
        }
        if end >= length {
            return None;
        }
        start = end + 1;
    }
}

} // verus!
