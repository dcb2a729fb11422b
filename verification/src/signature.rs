//! Signing of Last.fm API calls: `api_sig` is the MD5 of the parameters'
//! names and values in ascending order of name (leaving out `format` and
//! `callback`) followed by the shared secret, written in lowercase hex.
use vstd::prelude::*;
use vstd::string::*;
use vstd::utf8::encode_utf8;

use crate::params::{entry_view, insert_entry, keys_sorted, lemma_insert_sorted, lemma_lookup_insert, lemma_sorted_unique, lookup, Entry, Params};
use crate::text::{chars_lt, str_eq};

verus! {

// ---------------------------------------------------------------------------
// MD5
// ---------------------------------------------------------------------------

/// The MD5 digest of a byte sequence, as `md5::compute` returns it.
pub uninterp spec fn md5_digest(data: Seq<u8>) -> Seq<u8>;

/// Calls `md5::compute` on `data`. Claimed: the digest is the one that
/// [`md5_digest`] names for these bytes, and it is 16 bytes long (the
/// crate's `Digest` is a `[u8; 16]`).
#[verifier::external_body]
fn md5_compute(data: &[u8]) -> (digest: Vec<u8>)
    ensures
        digest@ == md5_digest(data@),
        digest@.len() == 16,
{
    md5::compute(data).0.to_vec()
}

// ---------------------------------------------------------------------------
// Lowercase hex, as the digest's `LowerHex` writes it
// ---------------------------------------------------------------------------

/// The lowercase hex digit of `n`.
pub open spec fn hex_char(n: nat) -> char
    recommends
        n < 16,
{
    if n < 10 {
        (n + 48) as char
    } else {
        (n + 87) as char
    }
}

/// Each byte as two lowercase hex digits, high digit first (`{:02x}`).
pub open spec fn lower_hex(bytes: Seq<u8>) -> Seq<char>
    decreases bytes.len(),
{
    if bytes.len() == 0 {
        seq![]
    } else {
        lower_hex(bytes.drop_last()) + seq![
            hex_char(bytes.last() as nat / 16),
            hex_char(bytes.last() as nat % 16),
        ]
    }
}

/// Two hex digits per byte.
pub proof fn lemma_lower_hex_len(bytes: Seq<u8>)
    ensures
        lower_hex(bytes).len() == 2 * bytes.len(),
    decreases bytes.len(),
{
    if bytes.len() > 0 {
        lemma_lower_hex_len(bytes.drop_last());
    }
}

/// The text of the hex digit `n`.
fn hex_digit_str(n: u8) -> (r: &'static str)
    requires
        n < 16,
    ensures
        r@ == seq![hex_char(n as nat)],
{
    proof {
        reveal_strlit("0");
        reveal_strlit("1");
        reveal_strlit("2");
        reveal_strlit("3");
        reveal_strlit("4");
        reveal_strlit("5");
        reveal_strlit("6");
        reveal_strlit("7");
        reveal_strlit("8");
        reveal_strlit("9");
        reveal_strlit("a");
        reveal_strlit("b");
        reveal_strlit("c");
        reveal_strlit("d");
        reveal_strlit("e");
        reveal_strlit("f");
    }
    match n {
        0 => "0",
        1 => "1",
        2 => "2",
        3 => "3",
        4 => "4",
        5 => "5",
        6 => "6",
        7 => "7",
        8 => "8",
        9 => "9",
        10 => "a",
        11 => "b",
        12 => "c",
        13 => "d",
        14 => "e",
        _ => "f",
    }
}

/// Writes `bytes` in lowercase hex.
pub fn to_lower_hex(bytes: &Vec<u8>) -> (r: String)
    ensures
        r@ == lower_hex(bytes@),
{
    let mut out = String::new();
    let n = bytes.len();
    let mut i: usize = 0;
    assert(bytes@.take(0) =~= Seq::<u8>::empty());
    while i < n
        invariant
            n == bytes@.len(),
            i <= n,
            out@ == lower_hex(bytes@.take(i as int)),
        decreases n - i,
    {
        let b = bytes[i];
        out.append(hex_digit_str(b / 16));
        out.append(hex_digit_str(b % 16));
        assert(bytes@.take(i + 1).drop_last() =~= bytes@.take(i as int));
        i = i + 1;
    }
    assert(bytes@.take(n as int) =~= bytes@);
    out
}

// ---------------------------------------------------------------------------
// The signed text
// ---------------------------------------------------------------------------

/// Parameters that the signature leaves out.
pub open spec fn excluded_from_signature(name: Seq<char>) -> bool {
    name == "format"@ || name == "callback"@
}

/// The names and values of `s`, in order, each name followed by its value,
/// leaving out the parameters that are not signed.
pub open spec fn signing_text(s: Seq<Entry>) -> Seq<char>
    decreases s.len(),
{
    if s.len() == 0 {
        seq![]
    } else {
        (if excluded_from_signature(s[0].0) {
            Seq::<char>::empty()
        } else {
            s[0].0 + s[0].1
        }) + signing_text(s.drop_first())
    }
}

/// The `api_sig` of the parameters `s` under the shared secret `secret`:
/// the MD5 of the UTF-8 of the signed text followed by the secret, in
/// lowercase hex.
pub open spec fn signature(s: Seq<Entry>, secret: Seq<char>) -> Seq<char> {
    lower_hex(md5_digest(encode_utf8(signing_text(s) + secret)))
}

/// The signed text of one entry.
proof fn lemma_signing_text_single(e: Entry)
    ensures
        signing_text(seq![e]) == if excluded_from_signature(e.0) {
            Seq::<char>::empty()
        } else {
            e.0 + e.1
        },
{
    assert(seq![e][0] == e);
    assert(seq![e].drop_first() =~= Seq::<Entry>::empty());
    assert(signing_text(Seq::<Entry>::empty()) == Seq::<char>::empty());
    if excluded_from_signature(e.0) {
        assert(signing_text(seq![e]) =~= Seq::<char>::empty() + Seq::<char>::empty());
    } else {
        assert(signing_text(seq![e]) =~= e.0 + e.1 + Seq::<char>::empty());
    }
}

/// The signed text of two sequences one after the other.
pub proof fn lemma_signing_text_concat(a: Seq<Entry>, b: Seq<Entry>)
    ensures
        signing_text(a + b) == signing_text(a) + signing_text(b),
    decreases a.len(),
{
    if a.len() == 0 {
        assert(a + b =~= b);
    } else {
        lemma_signing_text_concat(a.drop_first(), b);
        assert((a + b).drop_first() =~= a.drop_first() + b);
    }
}

/// Setting a parameter that is not signed leaves the signed text as it was.
pub proof fn lemma_signing_text_ignores(s: Seq<Entry>, name: Seq<char>, value: Seq<char>)
    requires
        excluded_from_signature(name),
    ensures
        signing_text(insert_entry(s, name, value)) == signing_text(s),
    decreases s.len(),
{
    let r = insert_entry(s, name, value);
    if s.len() == 0 {
        assert(r[0] == (name, value));
        assert(r.drop_first() =~= Seq::<Entry>::empty());
        assert(signing_text(r) =~= Seq::<char>::empty() + signing_text(r.drop_first()));
    } else if s[0].0 == name {
        assert(r[0] == (name, value));
        assert(r.drop_first() =~= s.drop_first());
        assert(signing_text(r) =~= Seq::<char>::empty() + signing_text(r.drop_first()));
        assert(signing_text(s) =~= Seq::<char>::empty() + signing_text(s.drop_first()));
    } else if chars_lt(name, s[0].0) {
        assert(r[0] == (name, value));
        assert(r.drop_first() =~= s);
        assert(signing_text(r) =~= Seq::<char>::empty() + signing_text(r.drop_first()));
    } else {
        assert(r[0] == s[0]);
        lemma_signing_text_ignores(s.drop_first(), name, value);
        assert(r.drop_first() =~= insert_entry(s.drop_first(), name, value));
    }
}

/// Signs the parameters of a call with the shared secret.
pub fn sign(params: &Params, secret: &str) -> (sig: String)
    ensures
        sig@ == signature(params@, secret@),
        sig@.len() == 32,
{
    let entries = params.entries();
    let n = entries.len();
    let ghost s = params@;
    let mut text = String::new();
    let mut i: usize = 0;
    assert(s.take(0) =~= Seq::<Entry>::empty());
    while i < n
        invariant
            n == entries@.len(),
            s.len() == n,
            forall|j: int| 0 <= j < n ==> #[trigger] s[j] == entry_view(entries@[j]),
            i <= n,
            text@ == signing_text(s.take(i as int)),
        decreases n - i,
    {
        let name = entries[i].0.as_str();
        let value = entries[i].1.as_str();
        assert(s[i as int] == entry_view(entries@[i as int]));
        proof {
            assert(s.take(i + 1) =~= s.take(i as int) + seq![s[i as int]]);
            lemma_signing_text_concat(s.take(i as int), seq![s[i as int]]);
            assert(seq![s[i as int]].drop_first() =~= Seq::<Entry>::empty());
        }
        let ghost one = signing_text(seq![s[i as int]]);
        let ghost before = text@;
        proof {
            lemma_signing_text_single(s[i as int]);
        }
        if !(str_eq(name, "format") || str_eq(name, "callback")) {
            text.append(name);
            text.append(value);
        }
        assert(text@ =~= before + one);
        i = i + 1;
    }
    assert(s.take(n as int) =~= s);
    text.append(secret);
    let bytes = text.as_str().as_bytes();
    let digest = md5_compute(bytes);
    proof {
        lemma_lower_hex_len(digest@);
    }
    to_lower_hex(&digest)
}

// ---------------------------------------------------------------------------
// The form of a call
// ---------------------------------------------------------------------------

/// The parameters of a call with its method named: `method` is itself a
/// signed parameter.
pub open spec fn with_method(params: Seq<Entry>, method: Seq<char>) -> Seq<Entry> {
    insert_entry(params, "method"@, method)
}

/// The form that a call posts: the parameters, the method, the signature of
/// those two, and `format=json`.
pub open spec fn signed_form(params: Seq<Entry>, method: Seq<char>, secret: Seq<char>) -> Seq<Entry> {
    let m = with_method(params, method);
    insert_entry(insert_entry(m, "api_sig"@, signature(m, secret)), "format"@, "json"@)
}

/// Adds the method, the signature and the reply format to the parameters of
/// a call, as the web API asks.
pub fn prepare_call(method: &str, params: Params, secret: &str) -> (form: Params)
    ensures
        form@ == signed_form(params@, method@, secret@),
        keys_sorted(form@),
{
    let mut params = params;
    params.insert("method", method);
    let sig = sign(&params, secret);
    params.insert("api_sig", sig.as_str());
    params.insert("format", "json");
    params
}

// ---------------------------------------------------------------------------
// Laws
// ---------------------------------------------------------------------------

/// The parameters that a sequence holds after all of its entries but the
/// ones named `name`.
pub open spec fn remove_entry(s: Seq<Entry>, name: Seq<char>) -> Seq<Entry>
    decreases s.len(),
{
    if s.len() == 0 {
        s
    } else if s[0].0 == name {
        remove_entry(s.drop_first(), name)
    } else {
        seq![s[0]] + remove_entry(s.drop_first(), name)
    }
}

proof fn lemma_remove_absent(s: Seq<Entry>, name: Seq<char>)
    requires
        lookup(s, name) is None,
    ensures
        remove_entry(s, name) == s,
    decreases s.len(),
{
    if s.len() > 0 {
        lemma_remove_absent(s.drop_first(), name);
        assert(s =~= seq![s[0]] + s.drop_first());
    }
}

proof fn lemma_remove_inserted(s: Seq<Entry>, name: Seq<char>, value: Seq<char>)
    requires
        lookup(s, name) is None,
    ensures
        remove_entry(insert_entry(s, name, value), name) == s,
    decreases s.len(),
{
    let r = insert_entry(s, name, value);
    if s.len() == 0 {
        assert(r[0] == (name, value));
        assert(r.drop_first() =~= s);
        assert(remove_entry(r, name) == remove_entry(r.drop_first(), name));
    } else if chars_lt(name, s[0].0) {
        assert(s[0].0 != name);
        assert(r[0] == (name, value));
        assert(r.drop_first() =~= s);
        lemma_remove_absent(s, name);
        assert(remove_entry(r, name) == remove_entry(r.drop_first(), name));
    } else {
        assert(s[0].0 != name);
        assert(r[0] == s[0]);
        lemma_remove_inserted(s.drop_first(), name, value);
        assert(r.drop_first() =~= insert_entry(s.drop_first(), name, value));
        assert(s =~= seq![s[0]] + s.drop_first());
    }
}

/// Setting two different names gives the same parameters in either order.
pub proof fn lemma_insert_commutes(
    s: Seq<Entry>,
    a: Seq<char>,
    x: Seq<char>,
    b: Seq<char>,
    y: Seq<char>,
)
    requires
        keys_sorted(s),
        a != b,
    ensures
        insert_entry(insert_entry(s, a, x), b, y) == insert_entry(insert_entry(s, b, y), a, x),
{
    lemma_insert_sorted(s, a, x);
    lemma_insert_sorted(s, b, y);
    lemma_insert_sorted(insert_entry(s, a, x), b, y);
    lemma_insert_sorted(insert_entry(s, b, y), a, x);
    assert forall|k: Seq<char>|
        lookup(insert_entry(insert_entry(s, a, x), b, y), k) == lookup(
            insert_entry(insert_entry(s, b, y), a, x),
            k,
        ) by {
        lemma_lookup_insert(s, a, x, k);
        lemma_lookup_insert(s, b, y, k);
        lemma_lookup_insert(insert_entry(s, a, x), b, y, k);
        lemma_lookup_insert(insert_entry(s, b, y), a, x, k);
    }
    lemma_sorted_unique(
        insert_entry(insert_entry(s, a, x), b, y),
        insert_entry(insert_entry(s, b, y), a, x),
    );
}

/// The names of the parameters that the calls use are all different.
pub proof fn lemma_param_names_distinct()
    ensures
        "api_key"@ != "sk"@,
        "api_key"@ != "artist"@,
        "api_key"@ != "track"@,
        "api_key"@ != "timestamp"@,
        "api_key"@ != "album"@,
        "api_key"@ != "method"@,
        "api_key"@ != "api_sig"@,
        "api_key"@ != "format"@,
        "api_key"@ != "token"@,
        "sk"@ != "artist"@,
        "sk"@ != "track"@,
        "sk"@ != "timestamp"@,
        "sk"@ != "album"@,
        "sk"@ != "method"@,
        "sk"@ != "api_sig"@,
        "sk"@ != "format"@,
        "sk"@ != "token"@,
        "artist"@ != "track"@,
        "artist"@ != "timestamp"@,
        "artist"@ != "album"@,
        "artist"@ != "method"@,
        "artist"@ != "api_sig"@,
        "artist"@ != "format"@,
        "artist"@ != "token"@,
        "track"@ != "timestamp"@,
        "track"@ != "album"@,
        "track"@ != "method"@,
        "track"@ != "api_sig"@,
        "track"@ != "format"@,
        "track"@ != "token"@,
        "timestamp"@ != "album"@,
        "timestamp"@ != "method"@,
        "timestamp"@ != "api_sig"@,
        "timestamp"@ != "format"@,
        "timestamp"@ != "token"@,
        "album"@ != "method"@,
        "album"@ != "api_sig"@,
        "album"@ != "format"@,
        "album"@ != "token"@,
        "method"@ != "api_sig"@,
        "method"@ != "format"@,
        "method"@ != "token"@,
        "api_sig"@ != "format"@,
        "api_sig"@ != "token"@,
        "format"@ != "token"@,
{
    reveal_strlit("api_key");
    reveal_strlit("sk");
    reveal_strlit("artist");
    reveal_strlit("track");
    reveal_strlit("timestamp");
    reveal_strlit("album");
    reveal_strlit("method");
    reveal_strlit("api_sig");
    reveal_strlit("format");
    reveal_strlit("token");
    assert("api_key"@.len() != "sk"@.len());
    assert("api_key"@.len() != "artist"@.len());
    assert("api_key"@.len() != "track"@.len());
    assert("api_key"@.len() != "timestamp"@.len());
    assert("api_key"@.len() != "album"@.len());
    assert("api_key"@.len() != "method"@.len());
    assert("api_key"@[4] != "api_sig"@[4]);
    assert("api_key"@.len() != "format"@.len());
    assert("api_key"@.len() != "token"@.len());
    assert("sk"@.len() != "artist"@.len());
    assert("sk"@.len() != "track"@.len());
    assert("sk"@.len() != "timestamp"@.len());
    assert("sk"@.len() != "album"@.len());
    assert("sk"@.len() != "method"@.len());
    assert("sk"@.len() != "api_sig"@.len());
    assert("sk"@.len() != "format"@.len());
    assert("sk"@.len() != "token"@.len());
    assert("artist"@.len() != "track"@.len());
    assert("artist"@.len() != "timestamp"@.len());
    assert("artist"@.len() != "album"@.len());
    assert("artist"@[0] != "method"@[0]);
    assert("artist"@.len() != "api_sig"@.len());
    assert("artist"@[0] != "format"@[0]);
    assert("artist"@.len() != "token"@.len());
    assert("track"@.len() != "timestamp"@.len());
    assert("track"@[0] != "album"@[0]);
    assert("track"@.len() != "method"@.len());
    assert("track"@.len() != "api_sig"@.len());
    assert("track"@.len() != "format"@.len());
    assert("track"@[1] != "token"@[1]);
    assert("timestamp"@.len() != "album"@.len());
    assert("timestamp"@.len() != "method"@.len());
    assert("timestamp"@.len() != "api_sig"@.len());
    assert("timestamp"@.len() != "format"@.len());
    assert("timestamp"@.len() != "token"@.len());
    assert("album"@.len() != "method"@.len());
    assert("album"@.len() != "api_sig"@.len());
    assert("album"@.len() != "format"@.len());
    assert("album"@[0] != "token"@[0]);
    assert("method"@.len() != "api_sig"@.len());
    assert("method"@[0] != "format"@[0]);
    assert("method"@.len() != "token"@.len());
    assert("api_sig"@.len() != "format"@.len());
    assert("api_sig"@.len() != "token"@.len());
    assert("format"@.len() != "token"@.len());
}

/// The form of a call reads, under any name other than `method`, `api_sig`
/// and `format`, what the caller's parameters read.
pub proof fn lemma_signed_form_lookup(params: Seq<Entry>, method: Seq<char>, secret: Seq<char>, name: Seq<char>)
    requires
        keys_sorted(params),
        name != "method"@,
        name != "api_sig"@,
        name != "format"@,
    ensures
        lookup(signed_form(params, method, secret), name) == lookup(params, name),
{
    let m = with_method(params, method);
    let sig = signature(m, secret);
    lemma_insert_sorted(params, "method"@, method);
    lemma_lookup_insert(params, "method"@, method, name);
    lemma_insert_sorted(m, "api_sig"@, sig);
    lemma_lookup_insert(m, "api_sig"@, sig, name);
    lemma_lookup_insert(insert_entry(m, "api_sig"@, sig), "format"@, "json"@, name);
}

/// The form of a call names its method.
pub proof fn lemma_signed_form_method(params: Seq<Entry>, method: Seq<char>, secret: Seq<char>)
    requires
        keys_sorted(params),
    ensures
        lookup(signed_form(params, method, secret), "method"@) == Some(method),
{
    lemma_param_names_distinct();
    let m = with_method(params, method);
    let sig = signature(m, secret);
    lemma_insert_sorted(params, "method"@, method);
    lemma_lookup_insert(params, "method"@, method, "method"@);
    lemma_insert_sorted(m, "api_sig"@, sig);
    lemma_lookup_insert(m, "api_sig"@, sig, "method"@);
    lemma_lookup_insert(insert_entry(m, "api_sig"@, sig), "format"@, "json"@, "method"@);
}

/// The signature does not depend on `format` or `callback`: setting either
/// of them, to any value, leaves the signature of the parameters unchanged.
pub proof fn law_signature_ignores_unsigned(
    s: Seq<Entry>,
    name: Seq<char>,
    value: Seq<char>,
    secret: Seq<char>,
)
    requires
        excluded_from_signature(name),
    ensures
        signature(insert_entry(s, name, value), secret) == signature(s, secret),
{
    lemma_signing_text_ignores(s, name, value);
}

/// The signature depends on the parameters as a map from names to values,
/// not on the order in which they were set.
pub proof fn law_signature_of_map(s1: Seq<Entry>, s2: Seq<Entry>, secret: Seq<char>)
    requires
        keys_sorted(s1),
        keys_sorted(s2),
        forall|k: Seq<char>| lookup(s1, k) == lookup(s2, k),
    ensures
        signature(s1, secret) == signature(s2, secret),
{
    lemma_sorted_unique(s1, s2);
}

/// The form of a call carries a signature that checks: the `api_sig` it
/// sends is the signature of the rest of the form, and the form names the
/// method and asks for JSON. (The caller's parameters hold no `api_sig`.)
pub proof fn law_form_signature_checks(params: Seq<Entry>, method: Seq<char>, secret: Seq<char>)
    requires
        keys_sorted(params),
        lookup(params, "api_sig"@) is None,
    ensures
        lookup(signed_form(params, method, secret), "api_sig"@) == Some(
            signature(remove_entry(signed_form(params, method, secret), "api_sig"@), secret),
        ),
        lookup(signed_form(params, method, secret), "method"@) == Some(method),
        lookup(signed_form(params, method, secret), "format"@) == Some("json"@),
{
    reveal_strlit("api_sig");
    reveal_strlit("method");
    reveal_strlit("format");
    let m = with_method(params, method);
    let sig = signature(m, secret);
    lemma_insert_sorted(params, "method"@, method);
    lemma_lookup_insert(params, "method"@, method, "api_sig"@);
    lemma_insert_sorted(m, "api_sig"@, sig);
    lemma_insert_sorted(m, "format"@, "json"@);
    lemma_insert_commutes(m, "api_sig"@, sig, "format"@, "json"@);
    let mf = insert_entry(m, "format"@, "json"@);
    lemma_lookup_insert(m, "format"@, "json"@, "api_sig"@);
    lemma_remove_inserted(mf, "api_sig"@, sig);
    lemma_signing_text_ignores(m, "format"@, "json"@);
    lemma_lookup_insert(mf, "api_sig"@, sig, "api_sig"@);
    lemma_lookup_insert(insert_entry(m, "api_sig"@, sig), "format"@, "json"@, "method"@);
    lemma_lookup_insert(m, "api_sig"@, sig, "method"@);
    lemma_lookup_insert(params, "method"@, method, "method"@);
    lemma_lookup_insert(insert_entry(m, "api_sig"@, sig), "format"@, "json"@, "format"@);
}

} // verus!
