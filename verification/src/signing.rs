//! Canonical signing strings.
//!
//! A signature covers a selected list of headers; the string it is computed
//! over is the newline-joined list of `name: value` pairs, in the order the
//! signature claims them, with a synthetic `(request-target)` header
//! standing for the lower-cased method and path.

use crate::errors::Error;
use vstd::prelude::*;

verus! {

/// One request header.
pub struct Header {
    pub name: String,
    pub value: String,
}

/// The value of the first header with the given name.
pub open spec fn first_header_value(hs: Seq<Header>, name: Seq<char>) -> Option<Seq<char>>
    decreases hs.len(),
{
    if hs.len() == 0 {
        None
    } else if hs[0].name@ == name {
        Some(hs[0].value@)
    } else {
        first_header_value(hs.drop_first(), name)
    }
}

proof fn lemma_first_header_value_skip(hs: Seq<Header>, name: Seq<char>, i: int)
    requires
        0 <= i <= hs.len(),
        forall|j: int| 0 <= j < i ==> (#[trigger] hs[j]).name@ != name,
    ensures
        first_header_value(hs, name) == first_header_value(hs.skip(i), name),
    decreases i,
{
    if i == 0 {
        assert(hs.skip(0) =~= hs);
    } else {
        assert(hs[0].name@ != name);
        assert forall|j: int| 0 <= j < i - 1 implies (#[trigger] hs.drop_first()[j]).name@
            != name by {
            assert(hs.drop_first()[j] == hs[j + 1]);
        }
        lemma_first_header_value_skip(hs.drop_first(), name, i - 1);
        assert(hs.drop_first().skip(i - 1) =~= hs.skip(i));
    }
}

/// Find the value of the first header with the given name.
pub fn find_header<'a>(hs: &'a Vec<Header>, name: &String) -> (r: Option<&'a String>)
    ensures
        match r {
            Some(v) => first_header_value(hs@, name@) == Some(v@),
            None => first_header_value(hs@, name@) is None,
        },
{
    let mut i: usize = 0;
    while i < hs.len()
        invariant
            i <= hs@.len(),
            forall|j: int| 0 <= j < i ==> (#[trigger] hs@[j]).name@ != name@,
        decreases hs@.len() - i,
    {
        if hs[i].name.eq(name) {
            proof {
                lemma_first_header_value_skip(hs@, name@, i as int);
                assert(hs@.skip(i as int)[0] == hs@[i as int]);
            }
            return Some(&hs[i].value);
        }
        i += 1;
    }
    proof {
        lemma_first_header_value_skip(hs@, name@, hs@.len() as int);
        assert(hs@.skip(hs@.len() as int) =~= Seq::<Header>::empty());
    }
    None
}

/// One line of the signing string: `name: value`.
pub open spec fn signing_entry(name: Seq<char>, value: Seq<char>) -> Seq<char> {
    name + ": "@ + value
}

/// The canonical string a signature claiming `claimed` headers is computed
/// over, or nothing if a claimed header is absent.
pub open spec fn spec_signing_string(hs: Seq<Header>, claimed: Seq<Seq<char>>) -> Option<
    Seq<char>,
>
    decreases claimed.len(),
{
    if claimed.len() == 0 {
        Some(Seq::<char>::empty())
    } else {
        match (spec_signing_string(hs, claimed.drop_last()), first_header_value(
            hs,
            claimed.last(),
        )) {
            (Some(pre), Some(v)) => Some(
                if claimed.len() == 1 {
                    signing_entry(claimed.last(), v)
                } else {
                    pre + "\n"@ + signing_entry(claimed.last(), v)
                },
            ),
            _ => None,
        }
    }
}

proof fn lemma_missing_header_gives_none(hs: Seq<Header>, claimed: Seq<Seq<char>>, k: int)
    requires
        0 <= k < claimed.len(),
        first_header_value(hs, claimed[k]) is None,
    ensures
        spec_signing_string(hs, claimed) is None,
    decreases claimed.len(),
{
    if k == claimed.len() - 1 {
    } else {
        assert(claimed.drop_last()[k] == claimed[k]);
        lemma_missing_header_gives_none(hs, claimed.drop_last(), k);
    }
}

/// Build the canonical signing string for the claimed header names.
/// Fails exactly when a claimed header is absent from the request.
pub fn build_signing_string(hs: &Vec<Header>, claimed: &Vec<String>) -> (r: Result<String, Error>)
    ensures
        match r {
            Ok(s) => spec_signing_string(hs@, claimed.deep_view()) == Some(s@),
            Err(e) => e == Error::MalformedSignature && spec_signing_string(
                hs@,
                claimed.deep_view(),
            ) is None,
        },
{
    let ghost cdv = claimed.deep_view();
    let mut s = String::new();
    let mut i: usize = 0;
    proof {
        assert(cdv.take(0) =~= Seq::<Seq<char>>::empty());
    }
    while i < claimed.len()
        invariant
            i <= claimed@.len(),
            cdv == claimed.deep_view(),
            cdv.len() == claimed@.len(),
            forall|j: int| 0 <= j < cdv.len() ==> cdv[j] == claimed@[j]@,
            spec_signing_string(hs@, cdv.take(i as int)) == Some(s@),
        decreases claimed@.len() - i,
    {
        let v = match find_header(hs, &claimed[i]) {
            Some(v) => v,
            None => {
                proof {
                    lemma_missing_header_gives_none(hs@, cdv, i as int);
                }
                return Err(Error::MalformedSignature);
            },
        };
        if i > 0 {
            s.append("\n");
        }
        s.append(claimed[i].as_str());
        s.append(": ");
        s.append(v.as_str());
        proof {
            assert(cdv.take(i + 1).drop_last() =~= cdv.take(i as int));
            assert(cdv.take(i + 1).last() == cdv[i as int]);
        }
        i += 1;
    }
    proof {
        assert(cdv.take(cdv.len() as int) =~= cdv);
    }
    Ok(s)
}

/// The bytes a string is signed as: each character truncated to a byte.
/// For the ASCII strings the protocol exchanges this is the identity
/// encoding.
pub open spec fn char_bytes(s: Seq<char>) -> Seq<u8> {
    Seq::new(s.len(), |i: int| s[i] as u8)
}

/// Encode a string into the bytes a signature covers.
pub fn string_to_bytes(s: &str) -> (r: Vec<u8>)
    ensures
        r@ == char_bytes(s@),
{
    let n = s.unicode_len();
    let mut r: Vec<u8> = Vec::new();
    let mut i: usize = 0;
    while i < n
        invariant
            n == s@.len(),
            i <= n,
            r@.len() == i,
            forall|j: int| 0 <= j < i ==> r@[j] == s@[j] as u8,
        decreases n - i,
    {
        let c = s.get_char(i);
        r.push(c as u8);
        i += 1;
    }
    proof {
        assert(r@ =~= char_bytes(s@));
    }
    r
}

/// What lowering a character to lower case yields: ASCII letters map,
/// everything else stays.
pub open spec fn lower_char(c: char) -> char {
    if 'A' <= c <= 'Z' {
        ((c as u8) + 32) as char
    } else {
        c
    }
}

/// The lower-cased form of a string, ASCII letters only.
pub open spec fn lower_str(s: Seq<char>) -> Seq<char> {
    Seq::new(s.len(), |i: int| lower_char(s[i]))
}

/// Lower-case the ASCII letters of a string, as the request line of a
/// signing string demands of the method.
pub fn ascii_lower(s: &str) -> (r: String)
    ensures
        r@ == lower_str(s@),
{
    let n = s.unicode_len();
    let mut r = String::new();
    let mut i: usize = 0;
    while i < n
        invariant
            n == s@.len(),
            i <= n,
            r@.len() == i,
            forall|j: int| 0 <= j < i ==> r@[j] == lower_char(s@[j]),
        decreases n - i,
    {
        let c = s.get_char(i);
        if 'A' <= c && c <= 'Z' {
            let b = (c as u8) + 32;
            push_char(&mut r, b as char);
        } else {
            push_char(&mut r, c);
        }
        i += 1;
    }
    proof {
        assert(r@ =~= lower_str(s@));
    }
    r
}

/// Relies on String::push: appends exactly one character.
#[verifier::external_body]
pub(crate) fn push_char(s: &mut String, c: char)
    ensures
        final(s)@ == old(s)@.push(c),
{
    s.push(c);
}

/// The synthetic header standing for the request line.
pub open spec fn request_target_value(method: Seq<char>, path: Seq<char>) -> Seq<char> {
    lower_str(method) + " "@ + path
}

/// Append the synthetic `(request-target)` header for a method and path,
/// as verification and signing both expect to find it.
pub fn push_request_target(hs: &mut Vec<Header>, method: &str, path: &str)
    ensures
        final(hs)@.len() == old(hs)@.len() + 1,
        forall|j: int| 0 <= j < old(hs)@.len() ==> final(hs)@[j] == old(hs)@[j],
        final(hs)@.last().name@ == "(request-target)"@,
        final(hs)@.last().value@ == request_target_value(method@, path@),
{
    let mut value = ascii_lower(method);
    value.append(" ");
    value.append(path);
    let name: String = String::from_str("(request-target)");
    hs.push(Header { name, value });
}

} // verus!
