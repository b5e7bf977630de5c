//! The address that an envelope is sent to.
use crate::text::same_text;
use vstd::prelude::*;
use vstd::std_specs::iter::IteratorSpec;

verus! {

/// The address of a project: `https://<public key>@<host>/<project id>`.
///
/// The public key may be followed by a colon and a secret, and a path may stand before the project
/// id.
#[derive(Debug, PartialEq, Eq)]
pub struct Dsn {
    text: String,
    public_key: String,
    project_id: Option<u64>,
}

/// What a [`Dsn`] stands for.
pub struct DsnView {
    /// The whole text.
    pub text: Seq<char>,
    /// The public key of the project.
    pub public_key: Seq<char>,
    /// The project id, if the text ends in one.
    pub project_id: Option<u64>,
}

impl View for Dsn {
    type V = DsnView;

    closed spec fn view(&self) -> DsnView {
        DsnView {
            text: self.text@,
            public_key: self.public_key@,
            project_id: self.project_id,
        }
    }
}

/// The first position of `c` in `s` from `from` on, or the length of `s`.
pub open spec fn first_of(s: Seq<char>, c: char, from: int) -> int
    decreases s.len() - from,
{
    if 0 <= from < s.len() && s[from] != c {
        first_of(s, c, from + 1)
    } else {
        from
    }
}

/// The last position of `c` in the first `len` characters of `s`, or -1.
pub open spec fn last_of(s: Seq<char>, c: char, len: int) -> int
    decreases len,
{
    if 0 < len <= s.len() && s[len - 1] != c {
        last_of(s, c, len - 1)
    } else {
        len - 1
    }
}

/// Whether `c` is a decimal digit.
pub open spec fn is_digit(c: char) -> bool {
    '0' <= c <= '9'
}

/// The number that decimal digits write.
pub open spec fn digits_value(s: Seq<char>) -> nat
    decreases s.len(),
{
    if s.len() == 0 {
        0
    } else {
        digits_value(s.drop_last()) * 10 + (s.last() as nat - '0' as nat) as nat
    }
}

/// Whether `s` is a number of decimal digits that a `u64` can hold.
pub open spec fn is_number(s: Seq<char>) -> bool {
    &&& s.len() > 0
    &&& forall|i: int| 0 <= i < s.len() ==> is_digit(#[trigger] s[i])
    &&& digits_value(s) <= u64::MAX
}

/// Where the scheme of a DSN ends, if it is one that a DSN may have.
pub open spec fn scheme_end(s: Seq<char>) -> Option<int> {
    if s.len() >= 8 && s.take(8) == "https://"@ {
        Some(8)
    } else if s.len() >= 7 && s.take(7) == "http://"@ {
        Some(7)
    } else {
        None
    }
}

/// The DSN that `s` is, if it is one.
pub open spec fn dsn_of(s: Seq<char>) -> Option<DsnView> {
    match scheme_end(s) {
        None => None,
        Some(start) => {
            let at = first_of(s, '@', start);
            let colon = first_of(s, ':', start);
            let key_end = if colon < at {
                colon
            } else {
                at
            };
            let host_end = first_of(s, '/', at + 1);
            let id = s.skip(last_of(s, '/', s.len() as int) + 1);
            if at < s.len() && start < key_end && at + 1 < host_end < s.len() && (id.len() == 0
                || is_number(id)) {
                Some(
                    DsnView {
                        text: s,
                        public_key: s.subrange(start, key_end),
                        project_id: if id.len() == 0 {
                            None
                        } else {
                            Some(digits_value(id) as u64)
                        },
                    },
                )
            } else {
                None
            }
        },
    }
}

/// More digits write no smaller number.
proof fn lemma_digits_grow(s: Seq<char>, len: int)
    requires
        0 <= len <= s.len(),
    ensures
        digits_value(s.take(len)) <= digits_value(s),
    decreases s.len() - len,
{
    if len == s.len() {
        assert(s.take(len) =~= s);
    } else {
        lemma_digits_grow(s, len + 1);
        assert(s.take(len + 1).drop_last() =~= s.take(len));
    }
}

/// The characters of `text`.
fn chars_of(text: &str) -> (r: Vec<char>)
    ensures
        r@ == text@,
{
    let mut r: Vec<char> = Vec::new();
    let mut chars = text.chars();
    assert(r@ + chars.remaining() =~= text@);
    loop
        invariant
            chars.decrease() is Some,
            r@ + chars.remaining() == text@,
        decreases chars.decrease()->0,
    {
        let ghost rest = chars.remaining();
        match chars.next() {
            Some(c) => {
                let ghost done = r@;
                r.push(c);
                assert(r@ + chars.remaining() =~= done + rest);
            },
            None => {
                assert(r@ =~= text@);
                return r;
            },
        }
    }
}

/// The first position of `c` in `chars` from `from` on, or the length of `chars`.
fn find_first(chars: &Vec<char>, c: char, from: usize) -> (r: usize)
    requires
        from <= chars@.len(),
    ensures
        r == first_of(chars@, c, from as int),
        from <= r <= chars@.len(),
{
    let mut i: usize = from;
    while i < chars.len() && chars[i] != c
        invariant
            from <= i <= chars@.len(),
            first_of(chars@, c, from as int) == first_of(chars@, c, i as int),
        decreases chars@.len() - i,
    {
        i += 1;
    }
    i
}

/// The number that the digits of `chars` from `from` on write, if they are one.
fn read_number(chars: &Vec<char>, from: usize) -> (r: Option<u64>)
    requires
        from <= chars@.len(),
    ensures
        r == (if is_number(chars@.skip(from as int)) {
            Some(digits_value(chars@.skip(from as int)) as u64)
        } else {
            None
        }),
{
    let ghost s = chars@.skip(from as int);
    if from == chars.len() {
        return None;
    }
    let mut value: u64 = 0;
    let mut i: usize = from;
    assert(s.take(0) =~= Seq::<char>::empty());
    while i < chars.len()
        invariant
            from <= i <= chars@.len(),
            s == chars@.skip(from as int),
            value == digits_value(s.take(i - from)),
            forall|j: int| 0 <= j < i - from ==> is_digit(#[trigger] s[j]),
        decreases chars@.len() - i,
    {
        let c = chars[i];
        assert(s[i - from] == c);
        if c < '0' || '9' < c {
            return None;
        }
        let digit = (c as u32 - '0' as u32) as u64;
        proof {
            assert(s.take(i - from + 1).drop_last() =~= s.take(i - from));
            assert(s.take(i - from + 1).last() == c);
            lemma_digits_grow(s, i - from + 1);
        }
        if value > (u64::MAX - digit) / 10 {
            return None;
        }
        value = value * 10 + digit;
        i += 1;
    }
    assert(s.take(s.len() as int) =~= s);
    Some(value)
}

impl Dsn {
    #[verifier::type_invariant]
    spec fn inv(self) -> bool {
        dsn_of(self@.text) == Some(self@)
    }

    /// Reads a DSN.
    pub fn parse(text: &str) -> (r: Option<Self>)
        ensures
            match r {
                Some(dsn) => dsn_of(text@) == Some(dsn@),
                None => dsn_of(text@) is None,
            },
    {
        let chars = chars_of(text);
        let len = chars.len();
        let start: usize = if len >= 8 && same_text(text.substring_char(0, 8), "https://") {
            assert(text@.subrange(0, 8) =~= text@.take(8));
            8
        } else if len >= 7 && same_text(text.substring_char(0, 7), "http://") {
            assert(text@.subrange(0, 7) =~= text@.take(7));
            assert(len >= 8 ==> text@.subrange(0, 8) =~= text@.take(8));
            7
        } else {
            assert(len >= 7 ==> text@.subrange(0, 7) =~= text@.take(7));
            assert(len >= 8 ==> text@.subrange(0, 8) =~= text@.take(8));
            return None;
        };
        let at = find_first(&chars, '@', start);
        let colon = find_first(&chars, ':', start);
        let key_end = if colon < at {
            colon
        } else {
            at
        };
        if at >= len || start >= key_end {
            return None;
        }
        let host_end = find_first(&chars, '/', at + 1);
        if host_end <= at + 1 || host_end >= len {
            return None;
        }
        let mut id_start: usize = len;
        while id_start > 0 && chars[id_start - 1] != '/'
            invariant
                id_start <= len,
                len == chars@.len(),
                last_of(chars@, '/', len as int) == last_of(chars@, '/', id_start as int),
            decreases id_start,
        {
            id_start -= 1;
        }
        let mut project_id: Option<u64> = None;
        if id_start < len {
            project_id = read_number(&chars, id_start);
            if project_id.is_none() {
                return None;
            }
        }
        let public_key = text.substring_char(start, key_end).to_owned();
        Some(Dsn { text: text.to_owned(), public_key, project_id })
    }

    /// The whole text, which reads as this DSN.
    pub fn as_str(&self) -> (r: &str)
        ensures
            r@ == self@.text,
            dsn_of(r@) == Some(self@),
    {
        proof {
            use_type_invariant(self);
        }
        self.text.as_str()
    }

    /// The public key of the project.
    pub fn public_key(&self) -> (r: &str)
        ensures
            r@ == self@.public_key,
    {
        self.public_key.as_str()
    }

    /// The project id, if there is one.
    pub fn project_id(&self) -> (r: Option<u64>)
        ensures
            r == self@.project_id,
    {
        self.project_id
    }
}

impl Clone for Dsn {
    fn clone(&self) -> (r: Self)
        ensures
            r@ == self@,
    {
        proof {
            use_type_invariant(self);
        }
        Dsn {
            text: self.text.clone(),
            public_key: self.public_key.clone(),
            project_id: self.project_id,
        }
    }
}

} // verus!
