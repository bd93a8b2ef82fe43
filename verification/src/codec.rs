//! The opaque correlation token.
//!
//! A job carries its originating push event's identity and the path of its
//! temporary artifact through the broker as one opaque string.  The encoding
//! is a sequence of length-prefixed fields (`<decimal length>:<field>`); it
//! round-trips byte for byte, and a token the codec did not produce is a hard
//! decode error, never a partial context.

use vstd::prelude::*;
use vstd::string::StringExecFns;
use vstd::string::StrSliceExecFns;
use crate::decimal::all_digits;
use crate::decimal::dec_str;
use crate::decimal::dec_val;
use crate::decimal::digit_of;
use crate::decimal::is_digit;
use crate::decimal::lemma_canonical_digits;
use crate::decimal::lemma_dec_str_digits;
use crate::decimal::lemma_dec_str_no_leading_zero;
use crate::decimal::lemma_dec_val_dec_str;
use crate::decimal::lemma_dec_val_push;
use crate::decimal::lemma_dec_val_prefix_le;
use crate::decimal::usize_to_dec;

verus! {

/// What a token carries: enough of the push event to post a status back
/// (project, branch, commit), and the artifact file the job refers to.
pub struct JobContext {
    pub project: String,
    pub branch: String,
    pub commit: String,
    pub zip_path: String,
}

pub struct JobContextView {
    pub project: Seq<char>,
    pub branch: Seq<char>,
    pub commit: Seq<char>,
    pub zip_path: Seq<char>,
}

impl View for JobContext {
    type V = JobContextView;

    open spec fn view(&self) -> JobContextView {
        JobContextView {
            project: self.project@,
            branch: self.branch@,
            commit: self.commit@,
            zip_path: self.zip_path@,
        }
    }
}

/// Decoding failure: the string was not produced by this codec.
#[derive(Clone, Copy, PartialEq, Eq, Structural, Debug)]
pub enum DecodeError {
    Malformed,
}

/// One encoded field: the field's length in decimal, a colon, the field.
pub open spec fn encode_field(f: Seq<char>) -> Seq<char> {
    dec_str(f.len()) + seq![':'] + f
}

/// A context encodes as its four fields, each length-prefixed.
pub open spec fn encode_ctx(c: JobContextView) -> Seq<char> {
    encode_field(c.project) + encode_field(c.branch) + encode_field(c.commit) + encode_field(
        c.zip_path,
    )
}

/// First position at or after `i` holding a non-digit (or the end).
pub open spec fn scan_digits(s: Seq<char>, i: int) -> int
    decreases s.len() - i,
    when 0 <= i <= s.len()
{
    if i < s.len() && is_digit(s[i]) {
        scan_digits(s, i + 1)
    } else {
        i
    }
}

pub proof fn lemma_scan_digits(s: Seq<char>, i: int)
    requires
        0 <= i <= s.len(),
    ensures
        i <= scan_digits(s, i) <= s.len(),
        scan_digits(s, i) < s.len() ==> !is_digit(s[scan_digits(s, i)]),
        forall|k: int| i <= k < scan_digits(s, i) ==> is_digit(s[k]),
    decreases s.len() - i,
{
    if i < s.len() && is_digit(s[i]) {
        lemma_scan_digits(s, i + 1);
    }
}

/// Scanning stops exactly at the first non-digit.
pub proof fn lemma_scan_digits_exact(s: Seq<char>, i: int, j: int)
    requires
        0 <= i <= j <= s.len(),
        forall|k: int| i <= k < j ==> is_digit(s[k]),
        j < s.len() ==> !is_digit(s[j]),
    ensures
        scan_digits(s, i) == j,
    decreases j - i,
{
    if i < j {
        lemma_scan_digits_exact(s, i + 1, j);
    }
}

/// The field starting at `i`: `None` unless a non-empty digit run without a
/// leading zero (the only shape the encoder emits), a colon and enough
/// characters for the announced length follow.
pub open spec fn decode_field_at(s: Seq<char>, i: int) -> Option<(Seq<char>, int)>
    recommends
        0 <= i <= s.len(),
{
    let j = scan_digits(s, i);
    if j == i {
        None
    } else if j > i + 1 && s[i] == '0' {
        None
    } else if j >= s.len() || s[j] != ':' {
        None
    } else {
        let n = dec_val(s.subrange(i, j)) as int;
        if j + 1 + n <= s.len() {
            Some((s.subrange(j + 1, j + 1 + n), j + 1 + n))
        } else {
            None
        }
    }
}

/// What a token means: four length-prefixed fields that use the string up
/// exactly, or nothing.
pub open spec fn decode_ctx(s: Seq<char>) -> Option<JobContextView> {
    match decode_field_at(s, 0) {
        None => None,
        Some((project, i1)) => match decode_field_at(s, i1) {
            None => None,
            Some((branch, i2)) => match decode_field_at(s, i2) {
                None => None,
                Some((commit, i3)) => match decode_field_at(s, i3) {
                    None => None,
                    Some((zip_path, i4)) => if i4 == s.len() {
                        Some(JobContextView { project, branch, commit, zip_path })
                    } else {
                        None
                    },
                },
            },
        },
    }
}

/// Where a string holds an encoded field, decoding finds that field and
/// stops right after it.
pub proof fn lemma_decode_field_at_encode(s: Seq<char>, i: int, f: Seq<char>)
    requires
        0 <= i,
        i + encode_field(f).len() <= s.len(),
        s.subrange(i, i + encode_field(f).len() as int) == encode_field(f),
    ensures
        decode_field_at(s, i) == Some((f, i + encode_field(f).len() as int)),
{
    lemma_dec_str_digits(f.len());
    lemma_dec_str_no_leading_zero(f.len());
    let d = dec_str(f.len());
    let l = d.len() as int;
    let e = encode_field(f);
    assert(e.len() == l + 1 + f.len());
    assert forall|k: int| i <= k < i + l implies is_digit(s[k]) by {
        assert(s[k] == e[k - i]);
        assert(e[k - i] == d[k - i]);
    }
    assert(s[i] == s.subrange(i, i + e.len() as int)[0]);
    assert(e[0] == d[0]);
    assert(l > 1 ==> s[i] != '0');
    assert(s[i + l] == e[l]);
    assert(e[l] == ':');
    assert(!is_digit(':')) by {
        assert(digit_of(':') == 10);
    }
    lemma_scan_digits_exact(s, i, i + l);
    let j = scan_digits(s, i);
    assert(j == i + l);
    assert(j != i);
    assert(s.subrange(i, j) =~= d);
    lemma_dec_val_dec_str(f.len());
    let n = dec_val(s.subrange(i, j)) as int;
    assert(n == f.len());
    assert(j + 1 + n <= s.len());
    assert(s.subrange(j + 1, j + 1 + n) =~= f) by {
        assert forall|k: int| 0 <= k < n implies s.subrange(j + 1, j + 1 + n)[k] == f[k] by {
            assert(s[j + 1 + k] == e[l + 1 + k]);
            assert(e[l + 1 + k] == f[k]);
        }
    }
}

/// Decoding inverts encoding: the round trip gives the context back.
pub proof fn lemma_codec_roundtrip(c: JobContextView)
    ensures
        decode_ctx(encode_ctx(c)) == Some(c),
{
    let e1 = encode_field(c.project);
    let e2 = encode_field(c.branch);
    let e3 = encode_field(c.commit);
    let e4 = encode_field(c.zip_path);
    let s = encode_ctx(c);
    assert(s == e1 + e2 + e3 + e4);
    let o1 = e1.len() as int;
    let o2 = o1 + e2.len() as int;
    let o3 = o2 + e3.len() as int;
    let o4 = o3 + e4.len() as int;
    assert(s.len() == o4);
    assert(s.subrange(0, o1) =~= e1);
    assert(s.subrange(o1, o2) =~= e2);
    assert(s.subrange(o2, o3) =~= e3);
    assert(s.subrange(o3, o4) =~= e4);
    lemma_decode_field_at_encode(s, 0, c.project);
    lemma_decode_field_at_encode(s, o1, c.branch);
    lemma_decode_field_at_encode(s, o2, c.commit);
    lemma_decode_field_at_encode(s, o3, c.zip_path);
}

/// A field that decodes was encoded: the consumed span is exactly
/// `encode_field` of the field found.
pub proof fn lemma_decode_field_exact(s: Seq<char>, i: int)
    requires
        0 <= i <= s.len(),
        decode_field_at(s, i) is Some,
    ensures
        ({
            let (f, next) = decode_field_at(s, i)->Some_0;
            &&& i < next <= s.len()
            &&& s.subrange(i, next) == encode_field(f)
        }),
{
    lemma_scan_digits(s, i);
    let j = scan_digits(s, i);
    let d = s.subrange(i, j);
    assert(j > i);
    assert(d.len() == j - i);
    assert forall|k: int| 0 <= k < d.len() implies is_digit(d[k]) by {
        assert(d[k] == s[i + k]);
    }
    assert(d[0] == s[i]);
    lemma_canonical_digits(d);
    let n = dec_val(d) as int;
    let f = s.subrange(j + 1, j + 1 + n);
    assert(f.len() == n);
    assert(dec_str(f.len()) == d);
    assert(s.subrange(i, j + 1 + n) =~= d + seq![':'] + f) by {
        assert forall|k: int| 0 <= k < j + 1 + n - i implies s.subrange(i, j + 1 + n)[k] == (d
            + seq![':'] + f)[k] by {
            if k < j - i {
                assert((d + seq![':'] + f)[k] == d[k]);
            } else if k == j - i {
                assert((d + seq![':'] + f)[k] == ':');
            } else {
                assert((d + seq![':'] + f)[k] == f[k - (j - i) - 1]);
            }
        }
    }
}

/// A token that decodes at all is the encoding of the context it decodes
/// to: `decode` never accepts anything but a minted token.
pub proof fn lemma_decode_exact(s: Seq<char>)
    requires
        decode_ctx(s) is Some,
    ensures
        s == encode_ctx(decode_ctx(s)->Some_0),
{
    let (project, i1) = decode_field_at(s, 0)->Some_0;
    lemma_decode_field_exact(s, 0);
    let (branch, i2) = decode_field_at(s, i1)->Some_0;
    lemma_decode_field_exact(s, i1);
    let (commit, i3) = decode_field_at(s, i2)->Some_0;
    lemma_decode_field_exact(s, i2);
    let (zip_path, i4) = decode_field_at(s, i3)->Some_0;
    lemma_decode_field_exact(s, i3);
    assert(i4 == s.len());
    let c = decode_ctx(s)->Some_0;
    assert(c == JobContextView { project, branch, commit, zip_path });
    assert(s =~= s.subrange(0, i1) + s.subrange(i1, i2) + s.subrange(i2, i3) + s.subrange(
        i3,
        i4,
    ));
    assert(s == encode_field(project) + encode_field(branch) + encode_field(commit)
        + encode_field(zip_path));
}

/// The codec's guarantee in both directions: a string decodes exactly when
/// it is `encode` of some context.  Everything else is a hard decode error.
pub proof fn lemma_decode_only_minted(s: Seq<char>)
    ensures
        decode_ctx(s) is Some <==> exists|c: JobContextView| s == #[trigger] encode_ctx(c),
{
    if decode_ctx(s) is Some {
        lemma_decode_exact(s);
        let c = decode_ctx(s)->Some_0;
        assert(s == encode_ctx(c));
    }
    if exists|c: JobContextView| s == #[trigger] encode_ctx(c) {
        let c = choose|c: JobContextView| s == encode_ctx(c);
        lemma_codec_roundtrip(c);
    }
}

fn is_digit_char(c: char) -> (r: bool)
    ensures
        r == is_digit(c),
{
    match c {
        '0' | '1' | '2' | '3' | '4' | '5' | '6' | '7' | '8' | '9' => true,
        _ => false,
    }
}

fn digit_val_char(c: char) -> (d: usize)
    requires
        is_digit(c),
    ensures
        d == digit_of(c),
{
    match c {
        '0' => 0,
        '1' => 1,
        '2' => 2,
        '3' => 3,
        '4' => 4,
        '5' => 5,
        '6' => 6,
        '7' => 7,
        '8' => 8,
        _ => 9,
    }
}

fn find_digits_end(token: &str, i: usize, n: usize) -> (j: usize)
    requires
        n == token@.len(),
        i <= n,
    ensures
        i <= j <= n,
        j as int == scan_digits(token@, i as int),
    decreases n - i,
{
    if i < n && is_digit_char(token.get_char(i)) {
        find_digits_end(token, i + 1, n)
    } else {
        i
    }
}

fn append_field(s: &mut String, f: &str)
    ensures
        final(s)@ == old(s)@ + encode_field(f@),
{
    let n = f.unicode_len();
    s.append(usize_to_dec(n).as_str());
    proof {
        reveal_strlit(":");
        assert(":"@ =~= seq![':']);
    }
    s.append(":");
    s.append(f);
}

/// Encodes a context into an opaque token.
pub fn encode(ctx: &JobContext) -> (s: String)
    ensures
        s@ == encode_ctx(ctx@),
{
    let mut s = String::new();
    append_field(&mut s, ctx.project.as_str());
    append_field(&mut s, ctx.branch.as_str());
    append_field(&mut s, ctx.commit.as_str());
    append_field(&mut s, ctx.zip_path.as_str());
    s
}

fn decode_field(token: &str, i: usize, n: usize) -> (r: Result<(String, usize), DecodeError>)
    requires
        n == token@.len(),
        i <= n,
    ensures
        match r {
            Ok(p) => decode_field_at(token@, i as int) == Some((p.0@, p.1 as int)) && i < p.1
                <= n,
            Err(_) => decode_field_at(token@, i as int) is None,
        },
{
    let ghost s = token@;
    let j = find_digits_end(token, i, n);
    proof {
        lemma_scan_digits(s, i as int);
    }
    if j == i {
        return Err(DecodeError::Malformed);
    }
    if j > i + 1 && token.get_char(i) == '0' {
        // a leading zero in the length prefix: the encoder never writes one
        return Err(DecodeError::Malformed);
    }
    if j == n || token.get_char(j) != ':' {
        return Err(DecodeError::Malformed);
    }
    // read the announced length, rejecting a length the token cannot hold
    let mut acc: usize = 0;
    let mut k = i;
    proof {
        assert(s.subrange(i as int, i as int) =~= Seq::<char>::empty());
    }
    while k < j
        invariant
            i < j < n,
            i <= k <= j,
            n == s.len(),
            s == token@,
            j as int == scan_digits(s, i as int),
            s[j as int] == ':',
            forall|t: int| i <= t < j ==> is_digit(s[t]),
            acc == dec_val(s.subrange(i as int, k as int)),
            acc <= n,
        decreases j - k,
    {
        let c = token.get_char(k);
        let d = digit_val_char(c);
        proof {
            lemma_dec_val_push(s.subrange(i as int, k as int), s[k as int]);
            assert(s.subrange(i as int, k as int).push(s[k as int]) =~= s.subrange(
                i as int,
                k as int + 1,
            ));
        }
        let next = match acc.checked_mul(10) {
            Some(m) => m.checked_add(d),
            None => None,
        };
        match next {
            Some(v) if v <= n => {
                acc = v;
            },
            _ => {
                // the announced length alone exceeds the token: no field fits
                proof {
                    let t = s.subrange(i as int, j as int);
                    assert(s.subrange(i as int, k as int + 1) =~= t.subrange(
                        0,
                        k as int + 1 - i,
                    ));
                    lemma_dec_val_prefix_le(t, k as int + 1 - i);
                    assert(dec_val(t) > n);
                }
                return Err(DecodeError::Malformed);
            },
        }
        k += 1;
    }
    proof {
        assert(s.subrange(i as int, j as int) =~= s.subrange(i as int, k as int));
    }
    if acc > n - (j + 1) {
        return Err(DecodeError::Malformed);
    }
    let f = token.substring_char(j + 1, j + 1 + acc);
    Ok((f.to_owned(), j + 1 + acc))
}

/// Decodes an opaque token; a string this codec did not produce is rejected.
pub fn decode(token: &str) -> (r: Result<JobContext, DecodeError>)
    ensures
        match r {
            Ok(ctx) => decode_ctx(token@) == Some(ctx@),
            Err(_) => decode_ctx(token@) is None,
        },
{
    let n = token.unicode_len();
    let (project, i1) = match decode_field(token, 0, n) {
        Ok(p) => p,
        Err(e) => {
            return Err(e);
        },
    };
    let (branch, i2) = match decode_field(token, i1, n) {
        Ok(p) => p,
        Err(e) => {
            return Err(e);
        },
    };
    let (commit, i3) = match decode_field(token, i2, n) {
        Ok(p) => p,
        Err(e) => {
            return Err(e);
        },
    };
    let (zip_path, i4) = match decode_field(token, i3, n) {
        Ok(p) => p,
        Err(e) => {
            return Err(e);
        },
    };
    if i4 != n {
        return Err(DecodeError::Malformed);
    }
    Ok(JobContext { project, branch, commit, zip_path })
}

} // verus!
