//! Header values that the envelope format does not define, by name.
use crate::json::{ascending, clone_members, members_view, MemberView, Value, ValueView};
use crate::text::{
    before, lemma_before_irreflexive, lemma_before_total, lemma_before_transitive, same_text,
    text_before,
};
use vstd::prelude::*;

verus! {

/// The value of the first of `members` that is named `name`.
pub open spec fn find(members: Seq<MemberView>, name: Seq<char>) -> Option<ValueView>
    decreases members.len(),
{
    if members.len() == 0 {
        None
    } else if members[0].0 == name {
        Some(members[0].1)
    } else {
        find(members.drop_first(), name)
    }
}

/// How many of the first `members` are named before `name`.
pub open spec fn rank(members: Seq<MemberView>, name: Seq<char>) -> int
    decreases members.len(),
{
    if members.len() > 0 && before(members[0].0, name) {
        1 + rank(members.drop_first(), name)
    } else {
        0
    }
}

/// Ascending `members` with `value` under `name`, in place of what was there under that name.
pub open spec fn place(members: Seq<MemberView>, name: Seq<char>, value: ValueView) -> Seq<
    MemberView,
> {
    let at = rank(members, name);
    if at < members.len() && members[at].0 == name {
        members.update(at, (name, value))
    } else {
        members.insert(at, (name, value))
    }
}

/// All members before the rank of a name are named before it, and the next one is not.
pub proof fn lemma_rank(members: Seq<MemberView>, name: Seq<char>)
    ensures
        0 <= rank(members, name) <= members.len(),
        forall|i: int| 0 <= i < rank(members, name) ==> before((#[trigger] members[i]).0, name),
        rank(members, name) < members.len() ==> !before(members[rank(members, name)].0, name),
    decreases members.len(),
{
    if members.len() > 0 && before(members[0].0, name) {
        lemma_rank(members.drop_first(), name);
        assert forall|i: int| 0 <= i < rank(members, name) implies before(
            (#[trigger] members[i]).0,
            name,
        ) by {
            if i > 0 {
                assert(members[i] == members.drop_first()[i - 1]);
            }
        }
    }
}

/// A position is a name's rank when what stands before it is named before, and it is not.
pub proof fn lemma_rank_unique(members: Seq<MemberView>, name: Seq<char>, at: int)
    requires
        0 <= at <= members.len(),
        forall|i: int| 0 <= i < at ==> before((#[trigger] members[i]).0, name),
        at < members.len() ==> !before(members[at].0, name),
    ensures
        rank(members, name) == at,
{
    lemma_rank(members, name);
    let r = rank(members, name);
    if r < at {
        assert(before(members[r].0, name));
    } else if at < r {
        assert(before(members[at].0, name));
    }
}

/// The first member with a name is found at its position.
pub proof fn lemma_find_at(members: Seq<MemberView>, name: Seq<char>, at: int)
    requires
        0 <= at < members.len(),
        members[at].0 == name,
        forall|i: int| 0 <= i < at ==> (#[trigger] members[i]).0 != name,
    ensures
        find(members, name) == Some(members[at].1),
    decreases at,
{
    if at > 0 {
        assert(members[0].0 != name);
        let others = members.drop_first();
        assert forall|i: int| 0 <= i < at - 1 implies (#[trigger] others[i]).0 != name by {
            assert(others[i] == members[i + 1]);
        }
        lemma_find_at(others, name, at - 1);
    }
}

/// No member is found under a name that none has.
pub proof fn lemma_find_none(members: Seq<MemberView>, name: Seq<char>)
    requires
        forall|i: int| 0 <= i < members.len() ==> (#[trigger] members[i]).0 != name,
    ensures
        find(members, name) is None,
    decreases members.len(),
{
    if members.len() > 0 {
        assert(members[0].0 != name);
        let others = members.drop_first();
        assert forall|i: int| 0 <= i < others.len() implies (#[trigger] others[i]).0 != name by {
            assert(others[i] == members[i + 1]);
        }
        lemma_find_none(others, name);
    }
}

/// In ascending members, a name is found at its rank or not at all.
pub proof fn lemma_find_ranked(members: Seq<MemberView>, name: Seq<char>)
    requires
        ascending(members),
    ensures
        find(members, name) == (if rank(members, name) < members.len() && members[rank(
            members,
            name,
        )].0 == name {
            Some(members[rank(members, name)].1)
        } else {
            None
        }),
{
    let at = rank(members, name);
    lemma_rank(members, name);
    lemma_before_irreflexive(name);
    assert forall|i: int| 0 <= i < at implies (#[trigger] members[i]).0 != name by {
        assert(before(members[i].0, name));
    }
    if at < members.len() && members[at].0 == name {
        lemma_find_at(members, name, at);
    } else {
        assert forall|i: int| 0 <= i < members.len() implies (#[trigger] members[i]).0 != name by {
            if i > at {
                lemma_before_total(members[at].0, name);
                assert(before(members[at].0, members[i].0));
                if members[i].0 == name {
                    assert(before(members[at].0, name));
                }
            }
        }
        lemma_find_none(members, name);
    }
}

/// Placing a value keeps the names ascending.
pub proof fn lemma_place_ascending(members: Seq<MemberView>, name: Seq<char>, value: ValueView)
    requires
        ascending(members),
    ensures
        ascending(place(members, name, value)),
{
    let at = rank(members, name);
    let placed = place(members, name, value);
    lemma_rank(members, name);
    if at < members.len() && members[at].0 == name {
        assert forall|i: int, j: int| 0 <= i < j < placed.len() implies before(
            (#[trigger] placed[i]).0,
            (#[trigger] placed[j]).0,
        ) by {
            assert(placed[i].0 == members[i].0);
            assert(placed[j].0 == members[j].0);
        }
    } else {
        assert forall|i: int, j: int| 0 <= i < j < placed.len() implies before(
            (#[trigger] placed[i]).0,
            (#[trigger] placed[j]).0,
        ) by {
            if j < at {
                assert(placed[i] == members[i] && placed[j] == members[j]);
            } else if j == at {
                assert(placed[i] == members[i]);
            } else {
                assert(placed[j] == members[j - 1]);
                if i < at {
                    assert(placed[i] == members[i]);
                } else if i == at {
                    lemma_before_total(members[at].0, name);
                    assert(before(name, members[at].0));
                    if j - 1 > at {
                        assert(before(members[at].0, members[j - 1].0));
                        lemma_before_transitive(name, members[at].0, members[j - 1].0);
                    }
                } else {
                    assert(placed[i] == members[i - 1]);
                }
            }
        }
    }
}

/// What was placed under a name is found there, and under every other name nothing changes.
pub proof fn lemma_find_placed(
    members: Seq<MemberView>,
    name: Seq<char>,
    value: ValueView,
    other: Seq<char>,
)
    ensures
        find(place(members, name, value), other) == (if other == name {
            Some(value)
        } else {
            find(members, other)
        }),
    decreases members.len(),
{
    let placed = place(members, name, value);
    lemma_rank(members, name);
    if members.len() > 0 && before(members[0].0, name) {
        let rest = members.drop_first();
        lemma_before_irreflexive(name);
        lemma_find_placed(rest, name, value, other);
        lemma_rank(rest, name);
        assert(placed.drop_first() =~= place(rest, name, value));
        assert(placed[0] == members[0]);
    } else if members.len() > 0 && members[0].0 == name {
        assert(placed.drop_first() =~= members.drop_first());
    } else {
        assert(placed.drop_first() =~= members);
    }
}

/// Placing a value under a name behind all others appends it.
pub proof fn lemma_place_last(members: Seq<MemberView>, name: Seq<char>, value: ValueView)
    requires
        forall|i: int| 0 <= i < members.len() ==> before((#[trigger] members[i]).0, name),
    ensures
        place(members, name, value) == members.push((name, value)),
{
    lemma_rank_unique(members, name, members.len() as int);
    assert(place(members, name, value) =~= members.push((name, value)));
}

/// Values by name, in ascending order of the names.
#[derive(Debug)]
pub struct HeaderMap {
    entries: Vec<(String, Value)>,
}

impl View for HeaderMap {
    type V = Seq<MemberView>;

    closed spec fn view(&self) -> Seq<MemberView> {
        members_view(self.entries@)
    }
}

impl HeaderMap {
    #[verifier::type_invariant]
    spec fn inv(self) -> bool {
        ascending(members_view(self.entries@))
    }

    /// A map without values.
    pub fn new() -> (r: Self)
        ensures
            r@ == Seq::<MemberView>::empty(),
    {
        let entries: Vec<(String, Value)> = Vec::new();
        assert(members_view(entries@) =~= Seq::empty());
        HeaderMap { entries }
    }

    /// The entries, which ascend strictly by name.
    pub fn entries(&self) -> (r: &Vec<(String, Value)>)
        ensures
            members_view(r@) == self@,
            ascending(self@),
    {
        proof {
            use_type_invariant(self);
        }
        &self.entries
    }

    /// The value under `name`, if there is one.
    pub fn get(&self, name: &str) -> (r: Option<&Value>)
        ensures
            match r {
                Some(value) => find(self@, name@) == Some(value@),
                None => find(self@, name@) is None,
            },
    {
        let ghost all = self@;
        let mut i: usize = 0;
        while i < self.entries.len()
            invariant
                i <= self.entries@.len(),
                all == members_view(self.entries@),
                forall|j: int| 0 <= j < i ==> (#[trigger] all[j]).0 != name@,
            decreases self.entries@.len() - i,
        {
            if same_text(self.entries[i].0.as_str(), name) {
                proof {
                    lemma_find_at(all, name@, i as int);
                }
                return Some(&self.entries[i].1);
            }
            i += 1;
        }
        proof {
            lemma_find_none(all, name@);
        }
        None
    }

    /// Puts `value` under `name`, and returns the value that was there before, if any.
    pub fn insert(&mut self, name: String, value: Value) -> (r: Option<Value>)
        ensures
            final(self)@ == place(old(self)@, name@, value@),
            match r {
                Some(previous) => find(old(self)@, name@) == Some(previous@),
                None => find(old(self)@, name@) is None,
            },
    {
        proof {
            use_type_invariant(&*self);
        }
        let ghost all = self@;
        let mut entries: Vec<(String, Value)> = Vec::new();
        assert(members_view(entries@) =~= Seq::empty());
        std::mem::swap(&mut entries, &mut self.entries);
        let mut at: usize = 0;
        while at < entries.len() && text_before(entries[at].0.as_str(), name.as_str())
            invariant
                at <= entries@.len(),
                all == members_view(entries@),
                forall|j: int| 0 <= j < at ==> before((#[trigger] all[j]).0, name@),
            decreases entries@.len() - at,
        {
            at += 1;
        }
        proof {
            lemma_rank_unique(all, name@, at as int);
            lemma_find_ranked(all, name@);
            lemma_place_ascending(all, name@, value@);
        }
        let mut previous: Option<Value> = None;
        if at < entries.len() && same_text(entries[at].0.as_str(), name.as_str()) {
            let mut slot = value;
            std::mem::swap(&mut entries[at].1, &mut slot);
            previous = Some(slot);
        } else {
            entries.insert(at, (name, value));
        }
        assert(members_view(entries@) =~= place(all, name@, value@));
        self.entries = entries;
        previous
    }
}

impl Clone for HeaderMap {
    fn clone(&self) -> (r: Self)
        ensures
            r@ == self@,
    {
        proof {
            use_type_invariant(self);
        }
        HeaderMap { entries: clone_members(&self.entries) }
    }
}

} // verus!
