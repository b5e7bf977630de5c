//! The JSON object in a header line, member by member.
//!
//! An object that is read whole keeps one value for each name. A header may not name a field
//! twice, so its members are read one after another, and all of them are kept in their order.
use crate::fault::{HeaderError, HeaderFault};
use crate::json::{
    delimited, json_prefix, json_text, lemma_within_weaken, members_view, read_value, reads_as,
    settled, within, write_value, JsonPrefix, MemberView, Value, ValueView,
};
use vstd::prelude::*;

verus! {

/// How deeply the value of a member may be nested.
pub const MAX_DEPTH: usize = 126;

/// Whether `b` is whitespace in JSON.
pub open spec fn is_space(b: u8) -> bool {
    b == 0x20 || b == 0x0a || b == 0x09 || b == 0x0d
}

/// The first position from `pos` on that holds no whitespace.
pub open spec fn skip_space(s: Seq<u8>, pos: int) -> int
    decreases s.len() - pos,
{
    if 0 <= pos < s.len() && is_space(s[pos]) {
        skip_space(s, pos + 1)
    } else {
        pos
    }
}

/// The bytes of `s` from `pos` on.
pub open spec fn tail(s: Seq<u8>, pos: int) -> Seq<u8> {
    s.subrange(pos, s.len() as int)
}

/// The member that stands at `pos`, whitespace before it apart, and where its value ends.
pub open spec fn scan_member(s: Seq<u8>, pos: int) -> Result<(MemberView, int), HeaderFault> {
    let start = skip_space(s, pos);
    if start >= s.len() || s[start] != 0x22 {
        Err(HeaderFault::Incomplete)
    } else {
        match json_prefix(tail(s, start)) {
            JsonPrefix::Malformed => Err(HeaderFault::Malformed),
            JsonPrefix::Parsed(ValueView::String(name), name_len) => {
                let colon = skip_space(s, start + name_len);
                if colon >= s.len() || s[colon] != 0x3a {
                    Err(HeaderFault::Incomplete)
                } else {
                    match json_prefix(tail(s, colon + 1)) {
                        JsonPrefix::Missing => Err(HeaderFault::Incomplete),
                        JsonPrefix::Malformed => Err(HeaderFault::Malformed),
                        JsonPrefix::Parsed(value, value_len) => if within(value, MAX_DEPTH as nat) {
                            Ok(((name, value), colon + 1 + value_len))
                        } else {
                            Err(HeaderFault::TooDeep)
                        },
                    }
                }
            },
            _ => Err(HeaderFault::Incomplete),
        }
    }
}

/// What reading an object from the start of some bytes comes to.
pub enum ObjectScan {
    /// There is nothing but whitespace.
    Missing,
    /// What comes first is not an object that a header can be.
    Faulty(HeaderFault),
    /// The members in their order, and the number of bytes up to the closing brace.
    Read(Seq<MemberView>, int),
}

/// Reads members from `pos` on, behind those `seen`, up to the closing brace.
pub open spec fn scan_members(s: Seq<u8>, pos: int, seen: Seq<MemberView>) -> ObjectScan
    decreases s.len() - pos,
{
    match scan_member(s, pos) {
        Err(fault) => ObjectScan::Faulty(fault),
        Ok((member, end)) => {
            let next = skip_space(s, end);
            proof {
                lemma_scan_member_ends(s, pos);
                lemma_skip_space(s, end);
            }
            if next < s.len() && s[next] == 0x7d {
                ObjectScan::Read(seen.push(member), next + 1)
            } else if next < s.len() && s[next] == 0x2c {
                scan_members(s, next + 1, seen.push(member))
            } else {
                ObjectScan::Faulty(HeaderFault::Incomplete)
            }
        },
    }
}

/// What reading an object from the start of `s` comes to.
pub open spec fn scan_object(s: Seq<u8>) -> ObjectScan {
    let open = skip_space(s, 0);
    if open >= s.len() {
        ObjectScan::Missing
    } else if s[open] != 0x7b {
        ObjectScan::Faulty(HeaderFault::NotAnObject)
    } else {
        let first = skip_space(s, open + 1);
        if first < s.len() && s[first] == 0x7d {
            ObjectScan::Read(Seq::empty(), first + 1)
        } else {
            scan_members(s, open + 1, Seq::empty())
        }
    }
}

/// Whitespace is skipped forwards, and not past the end.
pub proof fn lemma_skip_space(s: Seq<u8>, pos: int)
    ensures
        pos <= skip_space(s, pos),
        pos <= s.len() ==> skip_space(s, pos) <= s.len(),
        0 <= pos && skip_space(s, pos) < s.len() ==> !is_space(s[skip_space(s, pos)]),
    decreases s.len() - pos,
{
    if 0 <= pos < s.len() && is_space(s[pos]) {
        lemma_skip_space(s, pos + 1);
    }
}

/// A member ends behind where it starts.
pub proof fn lemma_scan_member_ends(s: Seq<u8>, pos: int)
    ensures
        scan_member(s, pos) matches Ok((_, end)) ==> pos < end,
{
    let start = skip_space(s, pos);
    lemma_skip_space(s, pos);
    if start < s.len() && s[start] == 0x22 {
        if let JsonPrefix::Parsed(_, name_len) = json_prefix(tail(s, start)) {
            lemma_skip_space(s, start + name_len);
        }
    }
}

proof fn lemma_scan_members_end(s: Seq<u8>, pos: int, seen: Seq<MemberView>)
    ensures
        scan_members(s, pos, seen) matches ObjectScan::Read(_, end) ==> pos < end,
    decreases s.len() - pos,
{
    lemma_scan_member_ends(s, pos);
    if let Ok((member, end)) = scan_member(s, pos) {
        lemma_skip_space(s, end);
        let next = skip_space(s, end);
        if next < s.len() && s[next] == 0x2c {
            lemma_scan_members_end(s, next + 1, seen.push(member));
        }
    }
}

/// An object takes at least one byte.
pub proof fn lemma_scan_object_ends(s: Seq<u8>)
    ensures
        scan_object(s) matches ObjectScan::Read(_, end) ==> 0 < end,
{
    let open = skip_space(s, 0);
    lemma_skip_space(s, 0);
    lemma_skip_space(s, open + 1);
    lemma_scan_members_end(s, open + 1, Seq::empty());
}

/// The first position from `pos` on that holds no whitespace.
fn skip(slice: &[u8], pos: usize) -> (r: usize)
    requires
        pos <= slice@.len(),
    ensures
        r == skip_space(slice@, pos as int),
        pos <= r <= slice@.len(),
{
    let mut at: usize = pos;
    while at < slice.len() && (slice[at] == 0x20 || slice[at] == 0x0a || slice[at] == 0x09
        || slice[at] == 0x0d)
        invariant
            pos <= at <= slice@.len(),
            skip_space(slice@, pos as int) == skip_space(slice@, at as int),
        decreases slice@.len() - at,
    {
        at += 1;
    }
    at
}

/// Reads the member that stands at `pos`.
fn read_member(slice: &[u8], pos: usize) -> (r: Result<(String, Value, usize), HeaderError>)
    requires
        pos <= slice@.len(),
    ensures
        match r {
            Ok((name, value, end)) => {
                &&& scan_member(slice@, pos as int) == Ok::<_, HeaderFault>(
                    ((name@, value@), end as int),
                )
                &&& end <= slice@.len()
            },
            Err(error) => error.wf() && scan_member(slice@, pos as int) == Err::<
                (MemberView, int),
                _,
            >(error.fault),
        },
{
    let start = skip(slice, pos);
    if start >= slice.len() || slice[start] != 0x22 {
        return Err(HeaderError::new(HeaderFault::Incomplete));
    }
    let (name, name_len) = match read_value(&slice[start..slice.len()]) {
        Some(Err(error)) => {
            return Err(HeaderError { fault: HeaderFault::Malformed, source: Some(error) });
        },
        Some(Ok((Value::String(name), name_len))) => (name, name_len),
        _ => {
            return Err(HeaderError::new(HeaderFault::Incomplete));
        },
    };
    let colon = skip(slice, start + name_len);
    if colon >= slice.len() || slice[colon] != 0x3a {
        return Err(HeaderError::new(HeaderFault::Incomplete));
    }
    match read_value(&slice[colon + 1..slice.len()]) {
        None => Err(HeaderError::new(HeaderFault::Incomplete)),
        Some(Err(error)) => Err(
            HeaderError { fault: HeaderFault::Malformed, source: Some(error) },
        ),
        Some(Ok((value, value_len))) => {
            if value.fits(MAX_DEPTH) {
                Ok((name, value, colon + 1 + value_len))
            } else {
                Err(HeaderError::new(HeaderFault::TooDeep))
            }
        },
    }
}

/// Reads the object at the start of `slice`: its members, and the offset behind its closing brace.
///
/// `None` says that there is nothing but whitespace.
pub fn read_object(slice: &[u8]) -> (r: Option<
    Result<(Vec<(String, Value)>, usize), HeaderError>,
>)
    ensures
        match r {
            None => scan_object(slice@) == ObjectScan::Missing,
            Some(Err(error)) => error.wf() && scan_object(slice@) == ObjectScan::Faulty(
                error.fault,
            ),
            Some(Ok((members, end))) => {
                &&& scan_object(slice@) == ObjectScan::Read(members_view(members@), end as int)
                &&& 0 < end <= slice@.len()
            },
        },
{
    let open = skip(slice, 0);
    if open >= slice.len() {
        return None;
    }
    if slice[open] != 0x7b {
        return Some(Err(HeaderError::new(HeaderFault::NotAnObject)));
    }
    let mut members: Vec<(String, Value)> = Vec::new();
    assert(members_view(members@) =~= Seq::empty());
    let first = skip(slice, open + 1);
    if first < slice.len() && slice[first] == 0x7d {
        return Some(Ok((members, first + 1)));
    }
    let mut pos: usize = open + 1;
    loop
        invariant
            pos <= slice@.len(),
            scan_object(slice@) == scan_members(slice@, pos as int, members_view(members@)),
        decreases slice@.len() - pos,
    {
        let ghost seen = members_view(members@);
        match read_member(slice, pos) {
            Err(error) => {
                return Some(Err(error));
            },
            Ok((name, value, end)) => {
                proof {
                    lemma_scan_member_ends(slice@, pos as int);
                }
                let next = skip(slice, end);
                members.push((name, value));
                assert(members_view(members@) =~= seen.push((name@, value@)));
                if next >= slice.len() {
                    return Some(Err(HeaderError::new(HeaderFault::Incomplete)));
                }
                if slice[next] == 0x7d {
                    return Some(Ok((members, next + 1)));
                }
                if slice[next] != 0x2c {
                    return Some(Err(HeaderError::new(HeaderFault::Incomplete)));
                }
                pos = next + 1;
            },
        }
    }
}

/// The text of one member: its name, a colon and its value.
pub open spec fn member_text(member: MemberView) -> Seq<u8> {
    json_text(ValueView::String(member.0)) + seq![0x3au8] + json_text(member.1)
}

/// The text of members behind another one: a comma before each.
pub open spec fn more_members_text(members: Seq<MemberView>) -> Seq<u8>
    decreases members.len(),
{
    if members.len() == 0 {
        Seq::empty()
    } else {
        seq![0x2cu8] + member_text(members[0]) + more_members_text(members.drop_first())
    }
}

/// The text of members, with commas between them.
pub open spec fn members_text(members: Seq<MemberView>) -> Seq<u8> {
    if members.len() == 0 {
        Seq::empty()
    } else {
        member_text(members[0]) + more_members_text(members.drop_first())
    }
}

/// The text of an object with the given members, in their order.
pub open spec fn object_text(members: Seq<MemberView>) -> Seq<u8> {
    seq![0x7bu8] + members_text(members) + seq![0x7du8]
}

/// Whether a member can be read back from its text.
pub open spec fn readable(member: MemberView) -> bool {
    let name = ValueView::String(member.0);
    &&& json_text(name).len() > 0
    &&& json_text(name)[0] == 0x22
    &&& reads_as(json_text(name), name)
    &&& reads_as(json_text(member.1), member.1)
    &&& within(member.1, MAX_DEPTH as nat)
}

/// Whether a header gives the value back: it is not nested too deeply, and it is read back from its
/// text. Every value that is [`settled`] is.
pub open spec fn keeps(value: ValueView) -> bool {
    within(value, MAX_DEPTH as nat) && (settled(value) || reads_as(json_text(value), value))
}

/// Whether a header gives the values of all `members` back.
pub open spec fn all_keep(members: Seq<MemberView>) -> bool {
    forall|i: int| 0 <= i < members.len() ==> keeps((#[trigger] members[i]).1)
}

/// Whether reading `text`, whatever follows it, gives `members` and ends where `text` ends.
pub open spec fn scans_as(text: Seq<u8>, members: Seq<MemberView>) -> bool {
    forall|rest: Seq<u8>| #[trigger]
        scan_object(text + rest) == ObjectScan::Read(members, text.len() as int)
}

proof fn lemma_more_members_push(members: Seq<MemberView>, member: MemberView)
    ensures
        more_members_text(members.push(member)) == more_members_text(members) + seq![0x2cu8]
            + member_text(member),
    decreases members.len(),
{
    let longer = members.push(member);
    if members.len() == 0 {
        assert(longer.drop_first() =~= Seq::<MemberView>::empty());
        assert(more_members_text(longer.drop_first()) =~= Seq::empty());
        assert(more_members_text(longer) =~= more_members_text(members) + seq![0x2cu8]
            + member_text(member));
    } else {
        lemma_more_members_push(members.drop_first(), member);
        assert(longer.drop_first() =~= members.drop_first().push(member));
        assert(more_members_text(longer) =~= more_members_text(members) + seq![0x2cu8]
            + member_text(member));
    }
}

proof fn lemma_members_push(members: Seq<MemberView>, member: MemberView)
    requires
        members.len() > 0,
    ensures
        members_text(members.push(member)) == members_text(members) + seq![0x2cu8] + member_text(
            member,
        ),
{
    let longer = members.push(member);
    assert(longer.drop_first() =~= members.drop_first().push(member));
    lemma_more_members_push(members.drop_first(), member);
    assert(members_text(longer) =~= members_text(members) + seq![0x2cu8] + member_text(member));
}

/// Members are scanned from their text one after another.
proof fn lemma_scan_members(
    s: Seq<u8>,
    pos: int,
    seen: Seq<MemberView>,
    members: Seq<MemberView>,
    rest: Seq<u8>,
)
    requires
        0 <= pos <= s.len(),
        members.len() > 0,
        forall|i: int| 0 <= i < members.len() ==> readable(#[trigger] members[i]),
        tail(s, pos) == members_text(members) + seq![0x7du8] + rest,
    ensures
        scan_members(s, pos, seen) == ObjectScan::Read(
            seen + members,
            pos + members_text(members).len() + 1,
        ),
    decreases members.len(),
{
    let member = members[0];
    let name = ValueView::String(member.0);
    let name_text = json_text(name);
    let value_text = json_text(member.1);
    let more = more_members_text(members.drop_first());
    let behind_value = more + seq![0x7du8] + rest;
    let behind_name = seq![0x3au8] + value_text + behind_value;
    let whole = tail(s, pos);
    assert(readable(member));
    assert(whole =~= name_text + behind_name);
    assert(forall|i: int| 0 <= i < whole.len() ==> whole[i] == #[trigger] s[pos + i]);
    assert(s[pos + 0] == name_text[0]);
    assert(skip_space(s, pos) == pos);
    assert(delimited(behind_name));
    assert(json_prefix(whole) == JsonPrefix::Parsed(name, name_text.len()));
    let colon = pos + name_text.len();
    assert(whole[name_text.len() as int] == 0x3a);
    assert(s[colon] == 0x3a);
    assert(skip_space(s, colon) == colon);
    assert(tail(s, colon + 1) =~= tail(whole, name_text.len() as int + 1));
    assert(tail(s, colon + 1) =~= value_text + behind_value);
    assert(delimited(behind_value)) by {
        if members.len() > 1 {
            assert(more[0] == 0x2c);
            assert(behind_value[0] == more[0]);
        } else {
            assert(behind_value[0] == 0x7d);
        }
    }
    assert(json_prefix(tail(s, colon + 1)) == JsonPrefix::Parsed(member.1, value_text.len()));
    let end = colon + 1 + value_text.len();
    assert(scan_member(s, pos) == Ok::<_, HeaderFault>((member, end)));
    assert(tail(s, end) =~= tail(tail(s, colon + 1), value_text.len() as int));
    assert(tail(s, end) =~= behind_value);
    assert(s[end] == behind_value[0]) by {
        assert(tail(s, end)[0] == s[end + 0]);
    }
    assert(skip_space(s, end) == end);
    if members.len() == 1 {
        assert(members.drop_first() =~= Seq::<MemberView>::empty());
        assert(more =~= Seq::<u8>::empty());
        assert(behind_value[0] == 0x7d);
        assert(seen + members =~= seen.push(member));
    } else {
        let others = members.drop_first();
        assert(more =~= seq![0x2cu8] + members_text(others));
        assert(behind_value[0] == 0x2c);
        assert(tail(s, end + 1) =~= tail(tail(s, end), 1));
        assert(tail(s, end + 1) =~= members_text(others) + seq![0x7du8] + rest);
        assert forall|i: int| 0 <= i < others.len() implies readable(#[trigger] others[i]) by {
            assert(others[i] == members[i + 1]);
        }
        lemma_scan_members(s, end + 1, seen.push(member), others, rest);
        assert(seen.push(member) + others =~= seen + members);
    }
}

/// An object is read back from its text, whatever follows it.
proof fn lemma_scan_object(members: Seq<MemberView>)
    requires
        forall|i: int| 0 <= i < members.len() ==> readable(#[trigger] members[i]),
    ensures
        scans_as(object_text(members), members),
{
    let text = object_text(members);
    assert forall|rest: Seq<u8>| #[trigger] scan_object(text + rest) == ObjectScan::Read(
        members,
        text.len() as int,
    ) by {
        let s = text + rest;
        assert(s[0] == 0x7b);
        assert(skip_space(s, 0) == 0);
        if members.len() == 0 {
            assert(s[1] == 0x7d);
            assert(skip_space(s, 1) == 1);
            assert(members =~= Seq::empty());
        } else {
            let name_text = json_text(ValueView::String(members[0].0));
            assert(readable(members[0]));
            assert(s[1] == name_text[0]);
            assert(skip_space(s, 1) == 1);
            assert(tail(s, 1) =~= members_text(members) + seq![0x7du8] + rest);
            lemma_scan_members(s, 1, Seq::empty(), members, rest);
            assert(Seq::<MemberView>::empty() + members =~= members);
        }
    }
}

/// Appends `more` to `out`.
pub fn append(out: &mut Vec<u8>, more: &[u8])
    ensures
        final(out)@ == old(out)@ + more@,
{
    let ghost before = out@;
    out.extend_from_slice(more);
    assert(out@ =~= before + more@);
}

/// Writes an object with the given members, in their order, as compact JSON.
///
/// The text has no line break. It is read back where every value is.
pub fn write_object(members: &Vec<(String, Value)>) -> (r: Vec<u8>)
    ensures
        r@ == object_text(members_view(members@)),
        !r@.contains(0x0a),
        all_keep(members_view(members@)) ==> scans_as(r@, members_view(members@)),
{
    let ghost all = members_view(members@);
    let mut out: Vec<u8> = Vec::new();
    out.push(0x7b);
    let mut i: usize = 0;
    assert(all.take(0) =~= Seq::<MemberView>::empty());
    assert(out@ =~= seq![0x7bu8] + members_text(all.take(0)));
    while i < members.len()
        invariant
            i <= members@.len(),
            all == members_view(members@),
            out@ == seq![0x7bu8] + members_text(all.take(i as int)),
            !out@.contains(0x0a),
            forall|j: int|
                0 <= j < i ==> (keeps((#[trigger] all[j]).1) ==> readable(all[j])),
        decreases members@.len() - i,
    {
        let ghost done = out@;
        let name = Value::String(members[i].0.clone());
        let name_text = write_value(&name);
        let value_text = write_value(&members[i].1);
        if i > 0 {
            out.push(0x2c);
        }
        append(&mut out, name_text.as_slice());
        out.push(0x3a);
        append(&mut out, value_text.as_slice());
        proof {
            let member = all[i as int];
            assert(name@ == ValueView::String(member.0));
            if within(member.1, MAX_DEPTH as nat) {
                lemma_within_weaken(member.1, MAX_DEPTH as nat, 127);
            }
            assert(all.take(i + 1) =~= all.take(i as int).push(member));
            if i > 0 {
                lemma_members_push(all.take(i as int), member);
            } else {
                assert(all.take(1).drop_first() =~= Seq::<MemberView>::empty());
                assert(more_members_text(all.take(1).drop_first()) =~= Seq::empty());
            }
            assert(out@ =~= seq![0x7bu8] + members_text(all.take(i + 1)));
            let between = if i > 0 {
                seq![0x2cu8]
            } else {
                Seq::empty()
            };
            assert(out@ =~= done + between + name_text@ + seq![0x3au8] + value_text@);
            lemma_no_break(done, between);
            lemma_no_break(done + between, name_text@);
            lemma_no_break(done + between + name_text@, seq![0x3au8]);
            lemma_no_break(done + between + name_text@ + seq![0x3au8], value_text@);
        }
        i += 1;
    }
    let ghost done = out@;
    out.push(0x7d);
    proof {
        assert(all.take(all.len() as int) =~= all);
        assert(out@ =~= object_text(all));
        assert(out@ =~= done + seq![0x7du8]);
        lemma_no_break(done, seq![0x7du8]);
        if all_keep(all) {
            assert forall|j: int| 0 <= j < all.len() implies readable(#[trigger] all[j]) by {
                assert(keeps(all[j].1));
            }
            lemma_scan_object(all);
        }
    }
    out
}

proof fn lemma_no_break(a: Seq<u8>, b: Seq<u8>)
    requires
        !a.contains(0x0a),
        !b.contains(0x0a),
    ensures
        !(a + b).contains(0x0a),
{
    assert forall|i: int| 0 <= i < (a + b).len() implies (a + b)[i] != 0x0a by {
        if i < a.len() {
            assert(a.contains(a[i]));
        } else {
            assert(b.contains(b[i - a.len()]));
        }
    }
}

} // verus!
