//! Extracting the per-request signature structure from the request
//! headers.
//!
//! The signature travels in a `signature` header, or in an `authorization`
//! header under the `Signature` scheme, as quoted fields:
//! `keyId="K",headers="h1 h2",signature="S"`. Extraction fails with
//! `NoHeader`, `NoType` or `NoValue` when the header is absent or carries
//! no scheme or no value, and with `MalformedSignature` when the fields do
//! not parse.

use crate::errors::Error;
use crate::signatures::Signature;
use crate::signing::push_char;
use crate::signing::{find_header, first_header_value, Header};
use vstd::prelude::*;

verus! {

/// Index of the first quote at or after `k`, or the length.
pub open spec fn find_quote_from(s: Seq<char>, k: int) -> int
    decreases s.len() - k
        when 0 <= k <= s.len()
{
    if k >= s.len() {
        s.len() as int
    } else if s[k] == '"' {
        k
    } else {
        find_quote_from(s, k + 1)
    }
}

proof fn lemma_find_quote(s: Seq<char>, k: int)
    requires
        0 <= k <= s.len(),
    ensures
        k <= find_quote_from(s, k) <= s.len(),
        find_quote_from(s, k) < s.len() ==> s[find_quote_from(s, k)] == '"',
        forall|j: int| k <= j < find_quote_from(s, k) ==> s[j] != '"',
    decreases s.len() - k,
{
    if k < s.len() && s[k] != '"' {
        lemma_find_quote(s, k + 1);
    }
}

/// Find the next quote at or after `k`.
fn find_quote(s: &str, k: usize) -> (r: usize)
    requires
        k <= s@.len(),
    ensures
        r == find_quote_from(s@, k as int),
        k <= r <= s@.len(),
{
    let n = s.unicode_len();
    let mut e = k;
    while e < n
        invariant
            n == s@.len(),
            k <= e <= n,
            find_quote_from(s@, k as int) == find_quote_from(s@, e as int),
        decreases n - e,
    {
        if s.get_char(e) == '"' {
            return e;
        }
        e += 1;
    }
    e
}

/// Whether a value may stand inside a quoted field.
pub open spec fn quote_free(s: Seq<char>) -> bool {
    forall|i: int| 0 <= i < s.len() ==> s[i] != '"'
}

/// The rendering of the three signature fields.
pub open spec fn render_sig_fields(
    key_id: Seq<char>,
    joined: Seq<char>,
    signature: Seq<char>,
) -> Seq<char> {
    "keyId=\""@ + key_id + "\",headers=\""@ + joined + "\",signature=\""@ + signature + "\""@
}

/// No quote-free field triple renders to this value: the grammar rejects
/// it.
pub open spec fn no_fields_render_to(v: Seq<char>) -> bool {
    forall|k: Seq<char>, h: Seq<char>, g: Seq<char>|
        quote_free(k) && quote_free(h) && quote_free(g) ==> v != #[trigger] render_sig_fields(
            k,
            h,
            g,
        )
}

proof fn lemma_find_quote_at(s: Seq<char>, k: int, m: int)
    requires
        0 <= k <= m < s.len(),
        forall|j: int| k <= j < m ==> s[j] != '\"',
        s[m] == '\"',
    ensures
        find_quote_from(s, k) == m,
    decreases m - k,
{
    if k < m {
        lemma_find_quote_at(s, k + 1, m);
    }
}

/// Where the quotes of a rendered field triple fall: the scanning parser
/// finds exactly the field boundaries.
proof fn lemma_render_shape(k: Seq<char>, h: Seq<char>, g: Seq<char>)
    requires
        quote_free(k),
        quote_free(h),
        quote_free(g),
    ensures
        ({
            let v = render_sig_fields(k, h, g);
            let kn = k.len() as int;
            let hn = h.len() as int;
            &&& v.len() == 32 + k.len() + h.len() + g.len()
            &&& v.subrange(0, 7) == "keyId=\""@
            &&& find_quote_from(v, 7) == 7 + kn
            &&& v.subrange(7 + kn, 18 + kn) == "\",headers=\""@
            &&& find_quote_from(v, 18 + kn) == 18 + kn + hn
            &&& v.subrange(18 + kn + hn, 31 + kn + hn) == "\",signature=\""@
            &&& find_quote_from(v, 31 + kn + hn) == v.len() - 1
        }),
{
    reveal_strlit("keyId=\"");
    reveal_strlit("\",headers=\"");
    reveal_strlit("\",signature=\"");
    reveal_strlit("\"");
    let v = render_sig_fields(k, h, g);
    let kn = k.len() as int;
    let hn = h.len() as int;
    let gn = g.len() as int;
    assert(v.len() == 32 + kn + hn + gn);
    assert(v.subrange(0, 7) =~= "keyId=\""@);
    assert(v.subrange(7, 7 + kn) =~= k);
    assert(v.subrange(7 + kn, 18 + kn) =~= "\",headers=\""@);
    assert(v.subrange(18 + kn, 18 + kn + hn) =~= h);
    assert(v.subrange(18 + kn + hn, 31 + kn + hn) =~= "\",signature=\""@);
    assert(v.subrange(31 + kn + hn, 31 + kn + hn + gn) =~= g);
    assert(v.subrange(31 + kn + hn + gn, v.len() as int) =~= "\""@);
    assert(v[7 + kn] == "\",headers=\""@[0]);
    assert(v[7 + kn] == '\"');
    assert forall|j: int| 7 <= j < 7 + kn implies v[j] != '\"' by {
        assert(v[j] == k[j - 7]);
    }
    lemma_find_quote_at(v, 7, 7 + kn);
    assert(v[18 + kn + hn] == "\",signature=\""@[0]);
    assert(v[18 + kn + hn] == '\"');
    assert forall|j: int| 18 + kn <= j < 18 + kn + hn implies v[j] != '\"' by {
        assert(v[j] == h[j - (18 + kn)]);
    }
    lemma_find_quote_at(v, 18 + kn, 18 + kn + hn);
    assert(v[31 + kn + hn + gn] == "\""@[0]);
    assert(v[31 + kn + hn + gn] == '\"');
    assert forall|j: int| 31 + kn + hn <= j < 31 + kn + hn + gn implies v[j] != '\"' by {
        assert(v[j] == g[j - (31 + kn + hn)]);
    }
    lemma_find_quote_at(v, 31 + kn + hn, 31 + kn + hn + gn);
}

/// Compare a range of a string against an expected literal.
fn str_range_eq(s: &str, from: usize, lit: &str) -> (r: bool)
    requires
        from <= s@.len(),
    ensures
        r == (from + lit@.len() <= s@.len() && s@.subrange(
            from as int,
            from + lit@.len(),
        ) == lit@),
{
    let n = s.unicode_len();
    let m = lit.unicode_len();
    if m > n - from {
        return false;
    }
    let mut i: usize = 0;
    while i < m
        invariant
            n == s@.len(),
            m == lit@.len(),
            from + m <= n,
            i <= m,
            forall|j: int| 0 <= j < i ==> s@[from + j] == lit@[j],
        decreases m - i,
    {
        if s.get_char(from + i) != lit.get_char(i) {
            proof {
                if s@.subrange(from as int, from + m) == lit@ {
                    assert(s@.subrange(from as int, from + m)[i as int] == lit@[i as int]);
                    assert(s@[from + i] == lit@[i as int]);
                }
            }
            return false;
        }
        i += 1;
    }
    proof {
        assert(s@.subrange(from as int, from + m) =~= lit@);
    }
    true
}

/// Parse the quoted signature fields. A successful parse returns exactly
/// the fields whose rendering the value is, each free of quotes.
pub fn parse_sig_fields(v: &str) -> (r: Result<(String, String, String), Error>)
    ensures
        match r {
            Ok((k, h, s)) => {
                &&& v@ == render_sig_fields(k@, h@, s@)
                &&& quote_free(k@)
                &&& quote_free(h@)
                &&& quote_free(s@)
            },
            Err(e) => e == Error::MalformedSignature && no_fields_render_to(v@),
        },
{
    let n = v.unicode_len();
    if !str_range_eq(v, 0, "keyId=\"") {
        proof {
            assert forall|k2: Seq<char>, h2: Seq<char>, g2: Seq<char>|
                quote_free(k2) && quote_free(h2) && quote_free(g2) implies v@
                != #[trigger] render_sig_fields(k2, h2, g2) by {
                if v@ == render_sig_fields(k2, h2, g2) {
                    lemma_render_shape(k2, h2, g2);
                }
            }
        }
        return Err(Error::MalformedSignature);
    }
    proof {
        reveal_strlit("keyId=\"");
        lemma_find_quote(v@, 7);
    }
    let q1 = find_quote(v, 7);
    if q1 >= n {
        proof {
            assert forall|k2: Seq<char>, h2: Seq<char>, g2: Seq<char>|
                quote_free(k2) && quote_free(h2) && quote_free(g2) implies v@
                != #[trigger] render_sig_fields(k2, h2, g2) by {
                if v@ == render_sig_fields(k2, h2, g2) {
                    lemma_render_shape(k2, h2, g2);
                }
            }
        }
        return Err(Error::MalformedSignature);
    }
    if !str_range_eq(v, q1, "\",headers=\"") {
        proof {
            assert forall|k2: Seq<char>, h2: Seq<char>, g2: Seq<char>|
                quote_free(k2) && quote_free(h2) && quote_free(g2) implies v@
                != #[trigger] render_sig_fields(k2, h2, g2) by {
                if v@ == render_sig_fields(k2, h2, g2) {
                    lemma_render_shape(k2, h2, g2);
                }
            }
        }
        return Err(Error::MalformedSignature);
    }
    proof {
        reveal_strlit("\",headers=\"");
        lemma_find_quote(v@, q1 + 11);
    }
    let q3 = find_quote(v, q1 + 11);
    if q3 >= n {
        proof {
            assert forall|k2: Seq<char>, h2: Seq<char>, g2: Seq<char>|
                quote_free(k2) && quote_free(h2) && quote_free(g2) implies v@
                != #[trigger] render_sig_fields(k2, h2, g2) by {
                if v@ == render_sig_fields(k2, h2, g2) {
                    lemma_render_shape(k2, h2, g2);
                }
            }
        }
        return Err(Error::MalformedSignature);
    }
    if !str_range_eq(v, q3, "\",signature=\"") {
        proof {
            assert forall|k2: Seq<char>, h2: Seq<char>, g2: Seq<char>|
                quote_free(k2) && quote_free(h2) && quote_free(g2) implies v@
                != #[trigger] render_sig_fields(k2, h2, g2) by {
                if v@ == render_sig_fields(k2, h2, g2) {
                    lemma_render_shape(k2, h2, g2);
                }
            }
        }
        return Err(Error::MalformedSignature);
    }
    proof {
        reveal_strlit("\",signature=\"");
        lemma_find_quote(v@, q3 + 13);
    }
    let q5 = find_quote(v, q3 + 13);
    if q5 != n - 1 {
        proof {
            assert forall|k2: Seq<char>, h2: Seq<char>, g2: Seq<char>|
                quote_free(k2) && quote_free(h2) && quote_free(g2) implies v@
                != #[trigger] render_sig_fields(k2, h2, g2) by {
                if v@ == render_sig_fields(k2, h2, g2) {
                    lemma_render_shape(k2, h2, g2);
                }
            }
        }
        return Err(Error::MalformedSignature);
    }
    let key_id = String::from_str(v.substring_char(7, q1));
    let joined = String::from_str(v.substring_char(q1 + 11, q3));
    let signature = String::from_str(v.substring_char(q3 + 13, q5));
    proof {
        reveal_strlit("\"");
        assert(v@[q5 as int] == '"');
        assert(v@.subrange(q5 as int, n as int) =~= "\""@);
        assert(v@ =~= v@.subrange(0, 7) + v@.subrange(7, q1 as int) + v@.subrange(
            q1 as int,
            q1 + 11,
        ) + v@.subrange(q1 + 11, q3 as int) + v@.subrange(q3 as int, q3 + 13) + v@.subrange(
            q3 + 13,
            q5 as int,
        ) + v@.subrange(q5 as int, n as int));
        assert(v@ == render_sig_fields(key_id@, joined@, signature@));
    }
    Ok((key_id, joined, signature))
}

/// The space-joined rendering of header names.
pub open spec fn spec_join_spaces(parts: Seq<String>) -> Seq<char>
    decreases parts.len(),
{
    if parts.len() == 0 {
        Seq::<char>::empty()
    } else if parts.len() == 1 {
        parts[0]@
    } else {
        spec_join_spaces(parts.drop_last()) + seq![' '] + parts.last()@
    }
}

/// Whether a header name may stand in a space-joined list.
pub open spec fn space_free(s: Seq<char>) -> bool {
    forall|i: int| 0 <= i < s.len() ==> s[i] != ' '
}

/// Split a claimed-headers value on spaces: joining the parts back gives
/// the input, and no part holds a space.
pub fn split_spaces(s: &str) -> (r: Vec<String>)
    ensures
        spec_join_spaces(r@) == s@,
        forall|k: int| 0 <= k < r@.len() ==> space_free((#[trigger] r@[k])@),
{
    let n = s.unicode_len();
    let mut parts: Vec<String> = Vec::new();
    let mut cur = String::new();
    let mut i: usize = 0;
    proof {
        assert(s@.take(0) =~= Seq::<char>::empty());
    }
    while i < n
        invariant
            n == s@.len(),
            i <= n,
            space_free(cur@),
            forall|k: int| 0 <= k < parts@.len() ==> space_free((#[trigger] parts@[k])@),
            (if parts@.len() == 0 {
                cur@
            } else {
                spec_join_spaces(parts@) + seq![' '] + cur@
            }) == s@.take(i as int),
        decreases n - i,
    {
        let c = s.get_char(i);
        proof {
            assert(s@.take(i + 1) =~= s@.take(i as int) + seq![s@[i as int]]);
        }
        if c == ' ' {
            let ghost old_parts = parts@;
            let ghost old_cur = cur@;
            parts.push(cur);
            cur = String::new();
            proof {
                assert(parts@.drop_last() =~= old_parts);
                assert(parts@.last()@ == old_cur);
                if old_parts.len() == 0 {
                    assert(spec_join_spaces(parts@) == parts@[0]@);
                } else {
                    assert(spec_join_spaces(parts@) == spec_join_spaces(old_parts) + seq![' ']
                        + old_cur);
                }
                assert(spec_join_spaces(parts@) + seq![' '] + cur@ =~= s@.take(i + 1));
            }
        } else {
            push_char(&mut cur, c);
            proof {
                assert((if parts@.len() == 0 {
                    cur@
                } else {
                    spec_join_spaces(parts@) + seq![' '] + cur@
                }) =~= s@.take(i + 1));
            }
        }
        i += 1;
    }
    let ghost old_parts = parts@;
    parts.push(cur);
    proof {
        assert(parts@.drop_last() =~= old_parts);
        assert(s@.take(n as int) =~= s@);
        if old_parts.len() == 0 {
            assert(spec_join_spaces(parts@) == parts@[0]@);
        }
        assert(spec_join_spaces(parts@) =~= s@);
    }
    parts
}

/// Join header names with spaces, the inverse of `split_spaces`.
pub fn join_spaces(parts: &Vec<String>) -> (r: String)
    ensures
        r@ == spec_join_spaces(parts@),
{
    let mut r = String::new();
    let mut i: usize = 0;
    proof {
        assert(parts@.take(0) =~= Seq::<String>::empty());
    }
    while i < parts.len()
        invariant
            i <= parts@.len(),
            r@ == spec_join_spaces(parts@.take(i as int)),
        decreases parts@.len() - i,
    {
        if i > 0 {
            r.append(" ");
            proof {
                reveal_strlit(" ");
                assert(" "@ =~= seq![' ']);
            }
        }
        r.append(parts[i].as_str());
        proof {
            assert(parts@.take(i + 1).drop_last() =~= parts@.take(i as int));
            assert(parts@.take(i + 1).last() == parts@[i as int]);
            if i == 0 {
                assert(spec_join_spaces(parts@.take(1)) == parts@[0]@);
            }
            assert(r@ =~= spec_join_spaces(parts@.take(i + 1)));
        }
        i += 1;
    }
    proof {
        assert(parts@.take(parts@.len() as int) =~= parts@);
    }
    r
}

/// Render the signature structure into the header value its extraction
/// reads back: the scheme, then the quoted fields.
pub fn render_signature_header(sig: &Signature) -> (r: String)
    ensures
        r@ == "Signature "@ + render_sig_fields(
            sig.key_id@,
            spec_join_spaces(sig.headers@),
            sig.signature@,
        ),
{
    let mut r = String::from_str("Signature keyId=\"");
    r.append(sig.key_id.as_str());
    r.append("\",headers=\"");
    let joined = join_spaces(&sig.headers);
    r.append(joined.as_str());
    r.append("\",signature=\"");
    r.append(sig.signature.as_str());
    r.append("\"");
    proof {
        reveal_strlit("Signature ");
        reveal_strlit("Signature keyId=\"");
        reveal_strlit("keyId=\"");
        reveal_strlit("\",headers=\"");
        reveal_strlit("\",signature=\"");
        reveal_strlit("\"");
        assert(r@ =~= "Signature "@ + render_sig_fields(
            sig.key_id@,
            spec_join_spaces(sig.headers@),
            sig.signature@,
        ));
    }
    r
}

/// Extract the per-request signature structure from the request headers.
///
/// A `signature` header carries the fields directly. Otherwise the
/// `authorization` header must carry them under the `Signature` scheme;
/// an absent header fails with `NoHeader`, one without a scheme separator
/// with `NoType`, one with nothing after the scheme with `NoValue`, and
/// unparsable fields with `MalformedSignature`.
pub fn signature_from_headers(hs: &Vec<Header>) -> (r: Result<Signature, Error>)
    ensures
        match r {
            Ok(sig) => {
                let rendered = render_sig_fields(
                    sig.key_id@,
                    spec_join_spaces(sig.headers@),
                    sig.signature@,
                );
                &&& quote_free(sig.key_id@)
                &&& quote_free(sig.signature@)
                &&& (first_header_value(hs@, "signature"@) == Some(rendered)
                    || (first_header_value(hs@, "signature"@) is None && first_header_value(
                        hs@,
                        "authorization"@,
                    ) == Some("Signature "@ + rendered)))
            },
            Err(e) => {
                ||| (e == Error::NoHeader && first_header_value(hs@, "signature"@) is None
                    && first_header_value(hs@, "authorization"@) is None)
                ||| (e == Error::NoType && first_header_value(hs@, "signature"@) is None
                    && match first_header_value(hs@, "authorization"@) {
                    Some(v) => v.len() < 10 || v.subrange(0, 10) != "Signature "@,
                    None => false,
                })
                ||| (e == Error::NoValue && first_header_value(hs@, "signature"@) is None
                    && first_header_value(hs@, "authorization"@) == Some("Signature "@))
                ||| (e == Error::MalformedSignature && match first_header_value(
                    hs@,
                    "signature"@,
                ) {
                    Some(raw) => no_fields_render_to(raw),
                    None => match first_header_value(hs@, "authorization"@) {
                        Some(v) => v.len() > 10 && v.subrange(0, 10) == "Signature "@
                            && no_fields_render_to(v.skip(10)),
                        None => false,
                    },
                })
            },
        },
{
    let sig_name = String::from_str("signature");
    let raw: String = match find_header(hs, &sig_name) {
        Some(v) => v.clone(),
        None => {
            let auth_name = String::from_str("authorization");
            let auth = match find_header(hs, &auth_name) {
                Some(v) => v,
                None => {
                    return Err(Error::NoHeader);
                },
            };
            proof {
                reveal_strlit("Signature ");
            }
            if auth.as_str().unicode_len() < 10 {
                return Err(Error::NoType);
            }
            if !str_range_eq(auth.as_str(), 0, "Signature ") {
                return Err(Error::NoType);
            }
            let rest = auth.as_str().substring_char(10, auth.as_str().unicode_len());
            if rest.unicode_len() == 0 {
                proof {
                    assert(auth@ =~= "Signature "@);
                }
                return Err(Error::NoValue);
            }
            let rest_string = String::from_str(rest);
            proof {
                assert(auth@ =~= "Signature "@ + rest_string@);
                assert(rest_string@ =~= auth@.skip(10));
            }
            rest_string
        },
    };
    let (key_id, joined, signature) = match parse_sig_fields(raw.as_str()) {
        Ok(fields) => fields,
        Err(e) => {
            return Err(e);
        },
    };
    let headers = split_spaces(joined.as_str());
    proof {
        let rawv = raw@;
        assert((first_header_value(hs@, "signature"@) == Some(rawv) || first_header_value(
            hs@,
            "authorization"@,
        ) == Some("Signature "@ + rawv)) && rawv == render_sig_fields(
            key_id@,
            spec_join_spaces(headers@),
            signature@,
        ));
    }
    Ok(Signature { key_id, headers, signature })
}

} // verus!
