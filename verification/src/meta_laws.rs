//! Laws of request information: what an envelope's own headers may state beside a request, and what
//! comes of both. And laws of the DSN.
use crate::dsn::{digits_value, dsn_of, first_of, is_digit, is_number, last_of, Dsn, DsnView};
use crate::error::{EnvelopeError, Failure};
use crate::headers::{completed, EnvelopeHeaders, EnvelopeHeadersView};
use crate::meta::{MetaView, PartialMeta, RequestMeta};
use std::time::Instant;
use vstd::arithmetic::power::{lemma_pow0, lemma_pow1, lemma_pow_adds, pow};
use vstd::prelude::*;

verus! {

/// Headers are completed exactly where every origin that they state is that of the request, so
/// never where the request has none, and where the project id and the public key of a DSN that
/// they state are those of the request.
pub proof fn law_completed(headers: EnvelopeHeadersView<MetaView>, request: MetaView)
    requires
        request.dsn is Some,
    ensures
        completed(headers, request) is Ok <==> {
            &&& headers.meta.origin matches Some(origin) ==> request.origin == Some(origin)
            &&& headers.meta.dsn matches Some(dsn) ==> {
                &&& dsn.project_id == request.dsn->0.project_id
                &&& dsn.public_key == request.dsn->0.public_key
            }
        },
{
}

/// What headers are refused for: their origin if that differs, otherwise the project id if that
/// differs, and otherwise the public key.
pub proof fn law_refused(
    headers: EnvelopeHeadersView<MetaView>,
    request: MetaView,
    origin: Seq<char>,
    own: DsnView,
    dsn: DsnView,
)
    requires
        request.dsn == Some(dsn),
    ensures
        headers.meta.origin == Some(origin) && request.origin != Some(origin) ==> completed(
            headers,
            request,
        ) == Err::<EnvelopeHeadersView<MetaView>, _>(Failure::HeaderMismatch("origin"@)),
        (headers.meta.origin is None || headers.meta.origin == request.origin) && headers.meta.dsn
            == Some(own) && own.project_id != dsn.project_id ==> completed(headers, request)
            == Err::<EnvelopeHeadersView<MetaView>, _>(Failure::HeaderMismatch("project id"@)),
        (headers.meta.origin is None || headers.meta.origin == request.origin) && headers.meta.dsn
            == Some(own) && own.project_id == dsn.project_id && own.public_key != dsn.public_key
            ==> completed(headers, request) == Err::<EnvelopeHeadersView<MetaView>, _>(
            Failure::HeaderMismatch("public key"@),
        ),
{
}

/// Completing headers changes nothing in them but the information on the request. The DSN and the
/// origin are then those of the request.
pub proof fn law_completed_keeps(
    headers: EnvelopeHeadersView<MetaView>,
    request: MetaView,
    done: EnvelopeHeadersView<MetaView>,
)
    requires
        completed(headers, request) == Ok::<_, Failure>(done),
    ensures
        done.event_id == headers.event_id,
        done.retention == headers.retention,
        done.sent_at == headers.sent_at,
        done.trace == headers.trace,
        done.other == headers.other,
        done.meta.dsn == request.dsn,
        done.meta.origin == request.origin,
{
}

/// What headers state of the request prevails, and what they leave open is taken from the request.
/// The version 7 and an empty list of forwarded addresses count as left open.
pub proof fn law_stated_prevails(
    headers: EnvelopeHeadersView<MetaView>,
    request: MetaView,
    done: EnvelopeHeadersView<MetaView>,
    text: Seq<char>,
)
    requires
        completed(headers, request) == Ok::<_, Failure>(done),
    ensures
        headers.meta.client == Some(text) ==> done.meta.client == Some(text),
        headers.meta.client is None ==> done.meta.client == request.client,
        headers.meta.remote_addr == Some(text) ==> done.meta.remote_addr == Some(text),
        headers.meta.remote_addr is None ==> done.meta.remote_addr == request.remote_addr,
        headers.meta.user_agent == Some(text) ==> done.meta.user_agent == Some(text),
        headers.meta.user_agent is None ==> done.meta.user_agent == request.user_agent,
        headers.meta.forwarded_for == text && text.len() > 0 ==> done.meta.forwarded_for == text,
        headers.meta.forwarded_for.len() == 0 ==> done.meta.forwarded_for == request.forwarded_for,
        headers.meta.version == 7 ==> done.meta.version == request.version,
        headers.meta.version != 7 ==> done.meta.version == headers.meta.version,
{
}

/// A call that completes headers succeeds only where nothing that they state contradicts the
/// request, and keeps when handling of the request started.
pub proof fn law_complete_call(
    headers: EnvelopeHeaders<PartialMeta>,
    request: RequestMeta,
    out: Result<EnvelopeHeaders, EnvelopeError>,
)
    requires
        call_ensures(EnvelopeHeaders::<PartialMeta>::complete, (headers, request), out),
    ensures
        out is Ok <==> {
            &&& headers@.meta.origin matches Some(origin) ==> request@.fields.origin == Some(origin)
            &&& headers@.meta.dsn matches Some(dsn) ==> {
                &&& dsn.project_id == request.dsn@.project_id
                &&& dsn.public_key == request.dsn@.public_key
            }
        },
        out matches Ok(done) ==> {
            &&& done@.meta.start_time == request.start_time
            &&& done@.meta.fields.dsn == Some(request.dsn@)
            &&& done@.meta.fields.origin == request@.fields.origin
            &&& done@.event_id == headers@.event_id
            &&& done@.other == headers@.other
            &&& done@.retention == headers@.retention
            &&& done@.sent_at == headers@.sent_at
            &&& done@.trace == headers@.trace
        },
        out matches Err(error) ==> error is HeaderMismatch,
{
}

/// A call that takes over what headers state leaves the DSN as it is.
pub proof fn law_copy_call(partial: PartialMeta, request: RequestMeta, out: RequestMeta)
    requires
        call_ensures(PartialMeta::copy_to, (partial, request), out),
    ensures
        out@.fields.dsn == request@.fields.dsn,
        out@.start_time == request@.start_time,
        partial@.client is Some ==> out@.fields.client == partial@.client,
        partial@.client is None ==> out@.fields.client == request@.fields.client,
        partial@.origin is Some ==> out@.fields.origin == partial@.origin,
        partial@.origin is None ==> out@.fields.origin == request@.fields.origin,
        partial@.remote_addr is Some ==> out@.fields.remote_addr == partial@.remote_addr,
        partial@.remote_addr is None ==> out@.fields.remote_addr == request@.fields.remote_addr,
        partial@.user_agent is Some ==> out@.fields.user_agent == partial@.user_agent,
        partial@.user_agent is None ==> out@.fields.user_agent == request@.fields.user_agent,
        partial@.forwarded_for.len() > 0 ==> out@.fields.forwarded_for == partial@.forwarded_for,
        partial@.forwarded_for.len() == 0 ==> out@.fields.forwarded_for
            == request@.fields.forwarded_for,
        partial@.version != 7 ==> out@.fields.version == partial@.version,
        partial@.version == 7 ==> out@.fields.version == request@.fields.version,
{
}

proof fn lemma_first_of(s: Seq<char>, c: char, from: int)
    requires
        0 <= from <= s.len(),
    ensures
        from <= first_of(s, c, from) <= s.len(),
        first_of(s, c, from) < s.len() ==> s[first_of(s, c, from)] == c,
        forall|i: int| from <= i < first_of(s, c, from) ==> s[i] != c,
    decreases s.len() - from,
{
    if from < s.len() && s[from] != c {
        lemma_first_of(s, c, from + 1);
    }
}

proof fn lemma_last_of(s: Seq<char>, c: char, len: int)
    requires
        0 <= len <= s.len(),
    ensures
        -1 <= last_of(s, c, len) < len,
        last_of(s, c, len) >= 0 ==> s[last_of(s, c, len)] == c,
        forall|i: int| last_of(s, c, len) < i < len ==> s[i] != c,
    decreases len,
{
    if len > 0 && s[len - 1] != c {
        lemma_last_of(s, c, len - 1);
    }
}

proof fn lemma_first_of_at(s: Seq<char>, c: char, from: int, at: int)
    requires
        0 <= from <= at <= s.len(),
        at < s.len() ==> s[at] == c,
        forall|i: int| from <= i < at ==> s[i] != c,
    ensures
        first_of(s, c, from) == at,
    decreases at - from,
{
    if from < at {
        assert(s[from] != c);
        lemma_first_of_at(s, c, from + 1, at);
    }
}

proof fn lemma_last_of_at(s: Seq<char>, c: char, len: int, at: int)
    requires
        0 <= at < len <= s.len(),
        s[at] == c,
        forall|i: int| at < i < len ==> s[i] != c,
    ensures
        last_of(s, c, len) == at,
    decreases len - at,
{
    if at < len - 1 {
        assert(s[len - 1] != c);
        lemma_last_of_at(s, c, len - 1, at);
    }
}

/// The number that digits write: one digit writes itself, and digits in front of others count as
/// many times over as these have places.
pub proof fn law_digits(a: Seq<char>, b: Seq<char>)
    requires
        forall|i: int| 0 <= i < b.len() ==> '0' <= #[trigger] b[i] <= '9',
    ensures
        digits_value(a + b) == digits_value(a) * pow(10, b.len()) + digits_value(b),
        b.len() == 1 ==> digits_value(b) == b[0] as int - '0' as int,
    decreases b.len(),
{
    if b.len() == 0 {
        assert(a + b =~= a);
        lemma_pow0(10);
        assert(digits_value(a) * 1 == digits_value(a)) by (nonlinear_arith);
    } else {
        let rest = b.drop_last();
        assert forall|i: int| 0 <= i < rest.len() implies '0' <= #[trigger] rest[i] <= '9' by {
            assert(rest[i] == b[i]);
        }
        law_digits(a, rest);
        assert((a + b).drop_last() =~= a + rest);
        assert((a + b).last() == b.last());
        assert('0' <= b[b.len() - 1] <= '9');
        let p = pow(10, rest.len());
        lemma_pow_adds(10, rest.len(), 1);
        lemma_pow1(10);
        let x = digits_value(a) as int;
        let y = digits_value(rest) as int;
        assert((x * p + y) * 10 == x * (p * 10) + y * 10) by (nonlinear_arith);
        if b.len() == 1 {
            assert(rest.len() == 0);
        }
    }
}

/// A text that is put together from a scheme, a public key, possibly a colon and a secret, a host,
/// possibly a path, and a project id or nothing, is a DSN with these parts.
pub proof fn law_dsn_parts(
    scheme: Seq<char>,
    key: Seq<char>,
    secret: Seq<char>,
    host: Seq<char>,
    path: Seq<char>,
    id: Seq<char>,
)
    requires
        scheme == "https://"@ || scheme == "http://"@,
        key.len() > 0,
        !key.contains('@'),
        !key.contains(':'),
        !secret.contains('@'),
        secret.len() > 0 ==> secret[0] == ':',
        host.len() > 0,
        !host.contains('/'),
        path.len() > 0,
        path[0] == '/',
        path.last() == '/',
        forall|i: int| 0 <= i < id.len() ==> '0' <= #[trigger] id[i] <= '9',
        digits_value(id) <= u64::MAX,
    ensures
        dsn_of(scheme + key + secret + seq!['@'] + host + path + id) == Some(
            DsnView {
                text: scheme + key + secret + seq!['@'] + host + path + id,
                public_key: key,
                project_id: if id.len() == 0 {
                    None
                } else {
                    Some(digits_value(id) as u64)
                },
            },
        ),
{
    reveal_strlit("https://");
    reveal_strlit("http://");
    let s = scheme + key + secret + seq!['@'] + host + path + id;
    let start = scheme.len() as int;
    let key_end = start + key.len();
    let at = key_end + secret.len();
    let host_end = at + 1 + host.len();
    let id_start = host_end + path.len();
    assert("https://"@.len() == 8 && "http://"@.len() == 7);
    assert("https://"@[4] == 's' && "http://"@[4] == ':');
    assert(s.take(start) =~= scheme);
    if scheme == "http://"@ {
        assert(s[4] == scheme[4]);
        if s.len() >= 8 && s.take(8) == "https://"@ {
            assert(s.take(8)[4] == 's');
        }
    }
    assert(crate::dsn::scheme_end(s) == Some(start));
    assert forall|i: int| start <= i < at implies s[i] != '@' by {
        if i < key_end {
            assert(s[i] == key[i - start]);
        } else {
            assert(s[i] == secret[i - key_end]);
        }
    }
    assert(s[at] == '@');
    lemma_first_of_at(s, '@', start, at);
    assert forall|i: int| start <= i < key_end implies s[i] != ':' by {
        assert(s[i] == key[i - start]);
    }
    lemma_first_of(s, ':', start);
    if secret.len() > 0 {
        assert(s[key_end] == secret[0]);
        lemma_first_of_at(s, ':', start, key_end);
    }
    assert forall|i: int| at + 1 <= i < host_end implies s[i] != '/' by {
        assert(s[i] == host[i - at - 1]);
    }
    assert(s[host_end] == path[0]);
    lemma_first_of_at(s, '/', at + 1, host_end);
    assert(s[id_start - 1] == path.last());
    assert forall|i: int| id_start - 1 < i < s.len() implies s[i] != '/' by {
        assert(s[i] == id[i - id_start]);
        assert('0' <= id[i - id_start] <= '9');
    }
    lemma_last_of_at(s, '/', s.len() as int, id_start - 1);
    if id.len() > 0 {
        assert(is_number(id));
    }
    assert(s.skip(id_start) =~= id);
    assert(s.subrange(start, key_end) =~= key);
}

/// A DSN starts with a scheme and its public key, behind which stands a colon or an at sign, and
/// ends in a slash and its project id, or in a slash where it has none. It keeps its text.
pub proof fn law_dsn_sound(s: Seq<char>, dsn: DsnView)
    requires
        dsn_of(s) == Some(dsn),
    ensures
        dsn.text == s,
        dsn.public_key.len() > 0,
        !dsn.public_key.contains('@'),
        !dsn.public_key.contains(':'),
        exists|start: int, end: int|
            {
                &&& start == 8 && s.take(8) == "https://"@ || start == 7 && s.take(7) == "http://"@
                &&& 0 <= start < end < s.len()
                &&& #[trigger] s.subrange(start, end) == dsn.public_key
                &&& s[end] == '@' || s[end] == ':'
            },
        exists|at: int, slash: int|
            {
                &&& 7 + dsn.public_key.len() <= at
                &&& at + 1 < slash < s.len()
                &&& #[trigger] s[at] == '@'
                &&& #[trigger] s[slash] == '/'
                &&& forall|i: int| at < i < slash ==> s[i] != '/'
                &&& forall|i: int| 8 <= i < at ==> s[i] != '@'
            },
        dsn.project_id is None ==> s.last() == '/',
        dsn.project_id matches Some(id) ==> exists|at: int|
            {
                &&& 0 <= at < s.len() - 1
                &&& s[at] == '/'
                &&& digits_value(#[trigger] s.skip(at + 1)) == id
                &&& forall|i: int| at < i < s.len() ==> '0' <= #[trigger] s[i] <= '9'
            },
{
    let start = crate::dsn::scheme_end(s)->0;
    assert(0 <= start <= s.len());
    let at = first_of(s, '@', start);
    let colon = first_of(s, ':', start);
    lemma_first_of(s, '@', start);
    lemma_first_of(s, ':', start);
    let key_end = if colon < at {
        colon
    } else {
        at
    };
    assert forall|i: int| 0 <= i < dsn.public_key.len() implies dsn.public_key[i] != '@'
        && dsn.public_key[i] != ':' by {
        assert(dsn.public_key[i] == s[start + i]);
    }
    assert(s.subrange(start, key_end) == dsn.public_key);
    assert(start + dsn.public_key.len() == key_end);
    lemma_first_of(s, '/', at + 1);
    let slash = last_of(s, '/', s.len() as int);
    lemma_last_of(s, '/', s.len() as int);
    let host_end = first_of(s, '/', at + 1);
    assert(s[host_end] == '/');
    assert(slash >= 0);
    assert(s[slash] == '/');
    let id = s.skip(slash + 1);
    if id.len() == 0 {
        assert(slash == s.len() - 1);
    } else {
        assert forall|i: int| slash < i < s.len() implies '0' <= #[trigger] s[i] <= '9' by {
            assert(is_digit(id[i - slash - 1]));
        }
        assert(digits_value(s.skip(slash + 1)) == dsn.project_id->0);
    }
}

/// Reading a DSN gives back its own text, and fails exactly where the text is none.
pub proof fn law_dsn_calls(text: &str, out: Option<Dsn>)
    requires
        call_ensures(Dsn::parse, (text,), out),
    ensures
        out is Some <==> dsn_of(text@) is Some,
        out matches Some(dsn) ==> dsn@.text == text@ && forall|back: &str| #[trigger]
            call_ensures(Dsn::as_str, (&dsn,), back) ==> back@ == text@,
{
    if let Some(dsn) = dsn_of(text@) {
        law_dsn_sound(text@, dsn);
    }
}

/// Information that states the DSN becomes that of a request, as it is.
pub proof fn law_into_request(partial: PartialMeta, start: Instant, out: Option<RequestMeta>)
    requires
        call_ensures(PartialMeta::into_request, (partial, start), out),
    ensures
        out is Some <==> partial@.dsn is Some,
        out matches Some(meta) ==> meta@.fields == partial@ && meta@.start_time == start,
{
}

/// A start time that is set is the one that is given back, and nothing else changes.
pub proof fn law_set_start_time(time: Instant)
    ensures
        forall|meta: &mut RequestMeta, out: Instant|
            #[trigger] call_ensures(RequestMeta::set_start_time, (meta, time), ()) && #[trigger]
                call_ensures(RequestMeta::start_time, (final(meta),), out) ==> out == time
                && final(meta)@.fields == meta@.fields,
{
}

/// The parts of a DSN that is read are given back.
pub proof fn law_dsn_getters(text: &str, dsn: Dsn, key: &str, id: Option<u64>)
    requires
        call_ensures(Dsn::parse, (text,), Some(dsn)),
        call_ensures(Dsn::public_key, (&dsn,), key),
        call_ensures(Dsn::project_id, (&dsn,), id),
    ensures
        dsn_of(text@) matches Some(parts) && key@ == parts.public_key && id == parts.project_id,
{
}

} // verus!
