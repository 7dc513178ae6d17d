//! The layout of `vless://` share links: a query string of `key=value`
//! parameters, and a reader that splits a link back into its parts the way a
//! client does (user before `@`, host and port before `?`, parameters between
//! `?` and `#`, separated by `&`, each split at its first `=`).
use vstd::prelude::*;
use crate::encoding::{base64_encode, hex_encode, uuid_text};
use crate::text::{decimal, push_char};

verus! {

/// Index of the last `d` in `s`, or -1.
pub open spec fn last_index(s: Seq<char>, d: char) -> int
    decreases s.len(),
{
    if s.len() == 0 {
        -1
    } else if s.last() == d {
        s.len() - 1
    } else {
        last_index(s.drop_last(), d)
    }
}

/// Index of the first `d` in `s`, or -1.
pub open spec fn first_index(s: Seq<char>, d: char) -> int
    decreases s.len(),
{
    if s.len() == 0 {
        -1
    } else if s[0] == d {
        0
    } else if first_index(s.drop_first(), d) < 0 {
        -1
    } else {
        1 + first_index(s.drop_first(), d)
    }
}

/// `s` holds no `d`.
pub open spec fn avoids(s: Seq<char>, d: char) -> bool {
    forall|i: int| 0 <= i < s.len() ==> s[i] != d
}

/// `key=value` pairs joined by `&`.
pub open spec fn query_text(params: Seq<(Seq<char>, Seq<char>)>) -> Seq<char>
    decreases params.len(),
{
    if params.len() == 0 {
        Seq::empty()
    } else if params.len() == 1 {
        params[0].0 + seq!['='] + params[0].1
    } else {
        query_text(params.drop_last()) + seq!['&'] + params.last().0 + seq!['='] + params.last().1
    }
}

/// A `key=value` component split at its first `=` (all key, when it has none).
pub open spec fn read_param(t: Seq<char>) -> (Seq<char>, Seq<char>) {
    let e = first_index(t, '=');
    if e < 0 {
        (t, Seq::empty())
    } else {
        (t.subrange(0, e), t.subrange(e + 1, t.len() as int))
    }
}

/// A query string split at its `&` into `key=value` components.
pub open spec fn read_query(q: Seq<char>) -> Seq<(Seq<char>, Seq<char>)>
    decreases q.len(),
{
    let a = last_index(q, '&');
    if a < 0 {
        seq![read_param(q)]
    } else {
        proof {
            lemma_last_index_range(q, '&');
        }
        read_query(q.subrange(0, a)).push(read_param(q.subrange(a + 1, q.len() as int)))
    }
}

/// The parts a reader takes from a link: user, host, port, parameters and
/// fragment.
pub ghost struct LinkParts {
    pub user: Seq<char>,
    pub host: Seq<char>,
    pub port: Seq<char>,
    pub params: Seq<(Seq<char>, Seq<char>)>,
    pub fragment: Seq<char>,
}

/// Splits a link after its 8-character scheme `vless://`: the user up to the
/// first `@`, the host and port up to the last `?` (split at their last `:`),
/// the query up to the last `#`, and the fragment.
pub open spec fn read_link(link: Seq<char>) -> LinkParts {
    let body = link.subrange(8, link.len() as int);
    let at = first_index(body, '@');
    let rest = body.subrange(at + 1, body.len() as int);
    let q = last_index(rest, '?');
    let host_port = rest.subrange(0, q);
    let after = rest.subrange(q + 1, rest.len() as int);
    let colon = last_index(host_port, ':');
    let hash = last_index(after, '#');
    LinkParts {
        user: body.subrange(0, at),
        host: host_port.subrange(0, colon),
        port: host_port.subrange(colon + 1, host_port.len() as int),
        params: read_query(after.subrange(0, hash)),
        fragment: after.subrange(hash + 1, after.len() as int),
    }
}

/// A character that needs no escaping in a link: letters, digits, `-`, `_`.
pub open spec fn is_plain_char(c: char) -> bool {
    let u = c as u32;
    ||| 0x30 <= u <= 0x39
    ||| 0x41 <= u <= 0x5A
    ||| 0x61 <= u <= 0x7A
    ||| u == 0x2D
    ||| u == 0x5F
}

/// Every character needs no escaping.
pub open spec fn is_plain(s: Seq<char>) -> bool {
    forall|i: int| 0 <= i < s.len() ==> is_plain_char(#[trigger] s[i])
}

/// The characters that structure a link.
pub open spec fn is_link_delimiter(d: char) -> bool {
    d == '@' || d == '?' || d == '#' || d == '&' || d == '=' || d == ':'
}

/// Plain text holds no link delimiter.
pub proof fn lemma_plain_avoids(s: Seq<char>, d: char)
    requires
        is_plain(s),
        is_link_delimiter(d),
    ensures
        avoids(s, d),
{
    assert forall|i: int| 0 <= i < s.len() implies s[i] != d by {
        assert(is_plain_char(s[i]));
    }
}

/// The last index of `d` lies in the text, or is -1.
pub proof fn lemma_last_index_range(s: Seq<char>, d: char)
    ensures
        -1 <= last_index(s, d) < s.len(),
    decreases s.len(),
{
    if s.len() > 0 {
        lemma_last_index_range(s.drop_last(), d);
    }
}

/// Splitting at the last `d` when the text after it holds none.
pub proof fn lemma_last_index(a: Seq<char>, d: char, b: Seq<char>)
    requires
        avoids(b, d),
    ensures
        last_index(a + seq![d] + b, d) == a.len(),
    decreases b.len(),
{
    let s = a + seq![d] + b;
    if b.len() == 0 {
        assert(s.last() == d);
    } else {
        assert(s.last() == b.last());
        assert(s.drop_last() =~= a + seq![d] + b.drop_last());
        lemma_last_index(a, d, b.drop_last());
    }
}

/// A text without `d` has no last `d`.
pub proof fn lemma_last_index_none(s: Seq<char>, d: char)
    requires
        avoids(s, d),
    ensures
        last_index(s, d) == -1,
    decreases s.len(),
{
    if s.len() > 0 {
        lemma_last_index_none(s.drop_last(), d);
    }
}

/// Splitting at the first `d` when the text before it holds none.
pub proof fn lemma_first_index(a: Seq<char>, d: char, b: Seq<char>)
    requires
        avoids(a, d),
    ensures
        first_index(a + seq![d] + b, d) == a.len(),
    decreases a.len(),
{
    let s = a + seq![d] + b;
    if a.len() == 0 {
        assert(s[0] == d);
    } else {
        assert(s[0] == a[0]);
        assert(s.drop_first() =~= a.drop_first() + seq![d] + b);
        lemma_first_index(a.drop_first(), d, b);
    }
}

/// Concatenated texts avoid `d` when both do.
pub proof fn lemma_concat_avoids(a: Seq<char>, b: Seq<char>, d: char)
    requires
        avoids(a, d),
        avoids(b, d),
    ensures
        avoids(a + b, d),
{
    assert forall|i: int| 0 <= i < (a + b).len() implies (a + b)[i] != d by {
        if i >= a.len() {
            assert((a + b)[i] == b[i - a.len()]);
        }
    }
}

/// Parameters whose keys hold no `&` or `=` and whose values hold no `&`.
pub open spec fn well_formed_params(ps: Seq<(Seq<char>, Seq<char>)>) -> bool {
    forall|i: int|
        #![trigger ps[i]]
        0 <= i < ps.len() ==> avoids(ps[i].0, '&') && avoids(ps[i].0, '=') && avoids(ps[i].1, '&')
}

/// A query string avoids a character that its keys and values avoid, other
/// than `&` and `=`.
pub proof fn lemma_query_avoids(ps: Seq<(Seq<char>, Seq<char>)>, d: char)
    requires
        d != '&',
        d != '=',
        forall|i: int| #![trigger ps[i]] 0 <= i < ps.len() ==> avoids(ps[i].0, d) && avoids(ps[i].1, d),
    ensures
        avoids(query_text(ps), d),
    decreases ps.len(),
{
    if ps.len() == 1 {
        lemma_concat_avoids(ps[0].0, seq!['='], d);
        lemma_concat_avoids(ps[0].0 + seq!['='], ps[0].1, d);
    } else if ps.len() > 1 {
        let init = ps.drop_last();
        assert forall|i: int| #![trigger init[i]] 0 <= i < init.len() implies avoids(init[i].0, d) && avoids(init[i].1, d) by {
            assert(init[i] == ps[i]);
        }
        lemma_query_avoids(init, d);
        let l = ps[ps.len() - 1];
        assert(avoids(l.0, d) && avoids(l.1, d));
        lemma_concat_avoids(query_text(init), seq!['&'], d);
        lemma_concat_avoids(query_text(init) + seq!['&'], l.0, d);
        lemma_concat_avoids(query_text(init) + seq!['&'] + l.0, seq!['='], d);
        lemma_concat_avoids(query_text(init) + seq!['&'] + l.0 + seq!['='], l.1, d);
    }
}

/// A `key=value` component whose key holds no `=` reads back as its pair.
proof fn lemma_read_param(k: Seq<char>, v: Seq<char>)
    requires
        avoids(k, '='),
    ensures
        read_param(k + seq!['='] + v) == (k, v),
{
    let kv = k + seq!['='] + v;
    lemma_first_index(k, '=', v);
    assert(kv.subrange(0, k.len() as int) =~= k);
    assert(kv.subrange(k.len() as int + 1, kv.len() as int) =~= v);
}

/// The parameters before the last are well formed too.
proof fn lemma_well_formed_init(ps: Seq<(Seq<char>, Seq<char>)>)
    requires
        ps.len() > 0,
        well_formed_params(ps),
    ensures
        well_formed_params(ps.drop_last()),
        avoids(ps[ps.len() - 1].0, '&'),
        avoids(ps[ps.len() - 1].0, '='),
        avoids(ps[ps.len() - 1].1, '&'),
{
    let init = ps.drop_last();
    assert forall|i: int| #![trigger init[i]] 0 <= i < init.len() implies avoids(init[i].0, '&') && avoids(init[i].0, '=')
        && avoids(init[i].1, '&') by {
        assert(init[i] == ps[i]);
    }
    assert(ps[ps.len() - 1] == ps[ps.len() - 1]);
}

/// Reading a query string gives back the parameters it was written from.
pub proof fn lemma_read_query(ps: Seq<(Seq<char>, Seq<char>)>)
    requires
        ps.len() > 0,
        well_formed_params(ps),
    ensures
        read_query(query_text(ps)) == ps,
    decreases ps.len(),
{
    lemma_well_formed_init(ps);
    let l = ps[ps.len() - 1];
    let kv = l.0 + seq!['='] + l.1;
    lemma_read_param(l.0, l.1);
    lemma_concat_avoids(l.0, seq!['='], '&');
    lemma_concat_avoids(l.0 + seq!['='], l.1, '&');
    if ps.len() == 1 {
        lemma_last_index_none(kv, '&');
        assert(query_text(ps) == kv);
        assert(ps =~= seq![l]);
    } else {
        let init = ps.drop_last();
        lemma_read_query(init);
        let q = query_text(ps);
        let qi = query_text(init);
        assert(q =~= qi + seq!['&'] + kv);
        lemma_last_index(qi, '&', kv);
        assert(q.subrange(0, qi.len() as int) =~= qi);
        assert(q.subrange(qi.len() as int + 1, q.len() as int) =~= kv);
        assert(ps =~= init.push(l));
    }
}

/// One more parameter extends a query string by `&key=value`.
pub proof fn lemma_query_text_step(ps: Seq<(Seq<char>, Seq<char>)>, k: int)
    requires
        0 <= k < ps.len(),
    ensures
        query_text(ps.subrange(0, k + 1)) == if k == 0 {
            ps[k].0 + seq!['='] + ps[k].1
        } else {
            query_text(ps.subrange(0, k)) + seq!['&'] + ps[k].0 + seq!['='] + ps[k].1
        },
{
    assert(ps.subrange(0, k + 1).drop_last() =~= ps.subrange(0, k));
}

/// Hexadecimal text is plain.
pub proof fn lemma_hex_plain(b: Seq<u8>)
    ensures
        is_plain(hex_encode(b)),
    decreases b.len(),
{
    if b.len() > 0 {
        lemma_hex_plain(b.drop_first());
        let e = hex_encode(b);
        assert forall|i: int| 0 <= i < e.len() implies is_plain_char(#[trigger] e[i]) by {
            if i >= 2 {
                assert(e[i] == hex_encode(b.drop_first())[i - 2]);
            }
        }
    }
}

/// UUID text is plain.
pub proof fn lemma_uuid_text_plain(u: Seq<u8>)
    requires
        u.len() == 16,
    ensures
        is_plain(uuid_text(u)),
{
    lemma_hex_plain(u.subrange(0, 4));
    lemma_hex_plain(u.subrange(4, 6));
    lemma_hex_plain(u.subrange(6, 8));
    lemma_hex_plain(u.subrange(8, 10));
    lemma_hex_plain(u.subrange(10, 16));
    crate::encoding::lemma_hex_roundtrip(u.subrange(0, 4));
    crate::encoding::lemma_hex_roundtrip(u.subrange(4, 6));
    crate::encoding::lemma_hex_roundtrip(u.subrange(6, 8));
    crate::encoding::lemma_hex_roundtrip(u.subrange(8, 10));
    crate::encoding::lemma_hex_roundtrip(u.subrange(10, 16));
    let t = uuid_text(u);
    assert forall|i: int| 0 <= i < t.len() implies is_plain_char(#[trigger] t[i]) by {
        if i < 8 {
            assert(t[i] == hex_encode(u.subrange(0, 4))[i]);
        } else if i == 8 || i == 13 || i == 18 || i == 23 {
        } else if i < 13 {
            assert(t[i] == hex_encode(u.subrange(4, 6))[i - 9]);
        } else if i < 18 {
            assert(t[i] == hex_encode(u.subrange(6, 8))[i - 14]);
        } else if i < 23 {
            assert(t[i] == hex_encode(u.subrange(8, 10))[i - 19]);
        } else {
            assert(t[i] == hex_encode(u.subrange(10, 16))[i - 24]);
        }
    }
}

/// Decimal text is digits, hence plain.
pub proof fn lemma_decimal_plain(n: nat)
    ensures
        is_plain(decimal(n)),
        decimal(n).len() > 0,
    decreases n,
{
    if n >= 10 {
        lemma_decimal_plain(n / 10);
    }
    let t = decimal(n);
    assert forall|i: int| 0 <= i < t.len() implies is_plain_char(#[trigger] t[i]) by {
        if n >= 10 && i < t.len() - 1 {
            assert(t[i] == decimal(n / 10)[i]);
        }
    }
}

/// URL-safe Base64 text without padding is plain.
pub proof fn lemma_base64_url_plain(b: Seq<u8>)
    ensures
        is_plain(base64_encode(true, false, b)),
    decreases b.len(),
{
    let e = base64_encode(true, false, b);
    if b.len() >= 3 {
        lemma_base64_url_plain(b.skip(3));
        assert forall|i: int| 0 <= i < e.len() implies is_plain_char(#[trigger] e[i]) by {
            if i >= 4 {
                assert(e[i] == base64_encode(true, false, b.skip(3))[i - 4]);
            }
        }
    }
}

/// Appends `key=value` pairs joined by `&`.
pub fn push_query(s: &mut String, params: &Vec<(&str, &str)>)
    ensures
        final(s)@ == old(s)@ + query_text(params@.map_values(|p: (&str, &str)| (p.0@, p.1@))),
{
    let ghost ps = params@.map_values(|p: (&str, &str)| (p.0@, p.1@));
    let mut k: usize = 0;
    assert(ps.subrange(0, 0) =~= Seq::<(Seq<char>, Seq<char>)>::empty());
    while k < params.len()
        invariant
            k <= params@.len(),
            ps == params@.map_values(|p: (&str, &str)| (p.0@, p.1@)),
            s@ == old(s)@ + query_text(ps.subrange(0, k as int)),
        decreases params@.len() - k,
    {
        let ghost prev = s@;
        if k > 0 {
            push_char(s, '&');
        }
        s.append(params[k].0);
        push_char(s, '=');
        s.append(params[k].1);
        proof {
            lemma_query_text_step(ps, k as int);
            assert(ps[k as int] == (params@[k as int].0@, params@[k as int].1@));
        }
        assert(s@ =~= old(s)@ + query_text(ps.subrange(0, k + 1)));
        k = k + 1;
    }
    assert(ps.subrange(0, params@.len() as int) =~= ps);
}

} // verus!
