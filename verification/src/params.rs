//! The parameters of a Last.fm API call: a map from names to values that
//! keeps its entries in ascending order of name, each name once, as the
//! `BTreeMap<String, String>` of the web API's clients does.
use vstd::prelude::*;
use vstd::string::*;

use crate::text::{chars_lt, lemma_chars_lt_asymmetric, lemma_chars_lt_irreflexive, lemma_chars_lt_total, lemma_chars_lt_transitive, str_eq, str_lt};

verus! {

/// An entry of a parameter map, as text.
pub type Entry = (Seq<char>, Seq<char>);

/// The names of `s` ascend strictly, so no name occurs twice.
pub open spec fn keys_sorted(s: Seq<Entry>) -> bool {
    forall|i: int, j: int| 0 <= i < j < s.len() ==> chars_lt(#[trigger] s[i].0, #[trigger] s[j].0)
}

/// The value that `s` holds under `key`.
pub open spec fn lookup(s: Seq<Entry>, key: Seq<char>) -> Option<Seq<char>>
    decreases s.len(),
{
    if s.len() == 0 {
        None
    } else if s[0].0 == key {
        Some(s[0].1)
    } else {
        lookup(s.drop_first(), key)
    }
}

/// `s` with `key` set to `value`: the entry for `key` is replaced when there
/// is one, else a new entry goes in before the first greater name.
pub open spec fn insert_entry(s: Seq<Entry>, key: Seq<char>, value: Seq<char>) -> Seq<Entry>
    decreases s.len(),
{
    if s.len() == 0 {
        seq![(key, value)]
    } else if s[0].0 == key {
        seq![(key, value)] + s.drop_first()
    } else if chars_lt(key, s[0].0) {
        seq![(key, value)] + s
    } else {
        seq![s[0]] + insert_entry(s.drop_first(), key, value)
    }
}

/// The names of a sorted sequence that are greater than a given one.
proof fn lemma_sorted_tail(s: Seq<Entry>)
    requires
        keys_sorted(s),
        s.len() > 0,
    ensures
        keys_sorted(s.drop_first()),
        forall|j: int| 0 <= j < s.drop_first().len() ==> chars_lt(s[0].0, #[trigger] s.drop_first()[j].0),
{
    assert forall|i: int, j: int| 0 <= i < j < s.drop_first().len() implies chars_lt(
        #[trigger] s.drop_first()[i].0,
        #[trigger] s.drop_first()[j].0,
    ) by {
        assert(s.drop_first()[i] == s[i + 1]);
        assert(s.drop_first()[j] == s[j + 1]);
    }
    assert forall|j: int| 0 <= j < s.drop_first().len() implies chars_lt(s[0].0, #[trigger] s.drop_first()[j].0) by {
        assert(s.drop_first()[j] == s[j + 1]);
    }
}

/// A name that is below every name of `s` is not in `s`.
proof fn lemma_lookup_absent(s: Seq<Entry>, key: Seq<char>)
    requires
        forall|j: int| 0 <= j < s.len() ==> chars_lt(key, #[trigger] s[j].0),
    ensures
        lookup(s, key) is None,
    decreases s.len(),
{
    if s.len() > 0 {
        lemma_chars_lt_irreflexive(key);
        assert(chars_lt(key, s[0].0));
        assert forall|j: int| 0 <= j < s.drop_first().len() implies chars_lt(key, #[trigger] s.drop_first()[j].0) by {
            assert(s.drop_first()[j] == s[j + 1]);
        }
        lemma_lookup_absent(s.drop_first(), key);
    }
}

/// `lookup` finds exactly the entries of the sequence.
pub proof fn lemma_lookup_some(s: Seq<Entry>, key: Seq<char>)
    requires
        keys_sorted(s),
    ensures
        lookup(s, key) is Some <==> exists|i: int| 0 <= i < s.len() && s[i].0 == key,
        forall|i: int| 0 <= i < s.len() && s[i].0 == key ==> lookup(s, key) == Some(#[trigger] s[i].1),
    decreases s.len(),
{
    if s.len() > 0 {
        lemma_sorted_tail(s);
        lemma_lookup_some(s.drop_first(), key);
        if s[0].0 == key {
            assert forall|i: int| 0 <= i < s.len() && s[i].0 == key implies lookup(s, key) == Some(
                #[trigger] s[i].1,
            ) by {
                if i > 0 {
                    assert(s.drop_first()[i - 1] == s[i]);
                    lemma_chars_lt_irreflexive(key);
                }
            }
        } else {
            assert forall|i: int| 0 <= i < s.len() && s[i].0 == key implies lookup(s, key) == Some(
                #[trigger] s[i].1,
            ) by {
                assert(i > 0);
                assert(s.drop_first()[i - 1] == s[i]);
            }
            if lookup(s, key) is Some {
                let i = choose|i: int| 0 <= i < s.drop_first().len() && s.drop_first()[i].0 == key;
                assert(s[i + 1] == s.drop_first()[i]);
            }
            if exists|i: int| 0 <= i < s.len() && s[i].0 == key {
                let i = choose|i: int| 0 <= i < s.len() && s[i].0 == key;
                assert(s.drop_first()[i - 1] == s[i]);
            }
        }
    }
}

/// Setting a name keeps the names in order.
pub proof fn lemma_insert_sorted(s: Seq<Entry>, key: Seq<char>, value: Seq<char>)
    requires
        keys_sorted(s),
    ensures
        keys_sorted(insert_entry(s, key, value)),
        insert_entry(s, key, value).len() > 0,
        forall|j: int|
            0 <= j < insert_entry(s, key, value).len() ==> (#[trigger] insert_entry(s, key, value)[j].0
                == key || exists|i: int| 0 <= i < s.len() && s[i].0 == insert_entry(s, key, value)[j].0),
    decreases s.len(),
{
    let r = insert_entry(s, key, value);
    if s.len() == 0 {
    } else if s[0].0 == key {
        lemma_sorted_tail(s);
        assert forall|i: int, j: int| 0 <= i < j < r.len() implies chars_lt(#[trigger] r[i].0, #[trigger] r[j].0) by {
            assert(r[j] == s[j]);
            if i > 0 {
                assert(r[i] == s[i]);
            }
        }
        assert forall|j: int| 0 <= j < r.len() implies (#[trigger] r[j].0 == key || exists|i: int|
            0 <= i < s.len() && s[i].0 == r[j].0) by {
            if j > 0 {
                assert(r[j] == s[j]);
            }
        }
    } else if chars_lt(key, s[0].0) {
        assert forall|i: int, j: int| 0 <= i < j < r.len() implies chars_lt(#[trigger] r[i].0, #[trigger] r[j].0) by {
            assert(r[j] == s[j - 1]);
            if i > 0 {
                assert(r[i] == s[i - 1]);
            } else if j - 1 > 0 {
                assert(chars_lt(s[0].0, s[j - 1].0));
                lemma_chars_lt_transitive(key, s[0].0, s[j - 1].0);
            }
        }
        assert forall|j: int| 0 <= j < r.len() implies (#[trigger] r[j].0 == key || exists|i: int|
            0 <= i < s.len() && s[i].0 == r[j].0) by {
            if j > 0 {
                assert(r[j] == s[j - 1]);
            }
        }
    } else {
        lemma_sorted_tail(s);
        lemma_insert_sorted(s.drop_first(), key, value);
        lemma_chars_lt_total(key, s[0].0);
        let t = insert_entry(s.drop_first(), key, value);
        assert(r == seq![s[0]] + t);
        assert forall|j: int| 0 <= j < r.len() implies (#[trigger] r[j].0 == key || exists|i: int|
            0 <= i < s.len() && s[i].0 == r[j].0) by {
            if j > 0 {
                assert(r[j] == t[j - 1]);
                if t[j - 1].0 != key {
                    let i = choose|i: int| 0 <= i < s.drop_first().len() && s.drop_first()[i].0 == t[j - 1].0;
                    assert(s[i + 1] == s.drop_first()[i]);
                }
            } else {
                assert(r[0] == s[0]);
            }
        }
        assert forall|i: int, j: int| 0 <= i < j < r.len() implies chars_lt(#[trigger] r[i].0, #[trigger] r[j].0) by {
            assert(r[j] == t[j - 1]);
            if i > 0 {
                assert(r[i] == t[i - 1]);
            } else {
                assert(r[0] == s[0]);
                if t[j - 1].0 == key {
                } else {
                    let k = choose|k: int| 0 <= k < s.drop_first().len() && s.drop_first()[k].0 == t[j - 1].0;
                    assert(s.drop_first()[k] == s[k + 1]);
                }
            }
        }
    }
}

/// After setting `key` to `value`, `key` reads `value` and every other name
/// reads what it read before.
pub proof fn lemma_lookup_insert(s: Seq<Entry>, key: Seq<char>, value: Seq<char>, other: Seq<char>)
    requires
        keys_sorted(s),
    ensures
        lookup(insert_entry(s, key, value), other) == if other == key {
            Some(value)
        } else {
            lookup(s, other)
        },
    decreases s.len(),
{
    let r = insert_entry(s, key, value);
    if s.len() == 0 {
        assert(r[0] == (key, value));
        assert(r.drop_first() =~= Seq::<Entry>::empty());
        assert(lookup(r.drop_first(), other) is None);
    } else if s[0].0 == key {
        assert(r[0] == (key, value));
        assert(r.drop_first() =~= s.drop_first());
        if other != key {
            assert(lookup(r, other) == lookup(r.drop_first(), other));
            assert(lookup(s, other) == lookup(s.drop_first(), other));
        }
    } else if chars_lt(key, s[0].0) {
        assert(r[0] == (key, value));
        assert(r.drop_first() =~= s);
        if other != key {
            assert(lookup(r, other) == lookup(r.drop_first(), other));
        }
    } else {
        assert(r[0] == s[0]);
        lemma_sorted_tail(s);
        lemma_lookup_insert(s.drop_first(), key, value, other);
        assert(r.drop_first() =~= insert_entry(s.drop_first(), key, value));
        if s[0].0 != other {
            assert(lookup(r, other) == lookup(r.drop_first(), other));
            assert(lookup(s, other) == lookup(s.drop_first(), other));
        }
    }
}

/// Two sorted parameter sequences that read the same under every name are
/// the same sequence: the entries are fixed by the map they hold.
pub proof fn lemma_sorted_unique(s1: Seq<Entry>, s2: Seq<Entry>)
    requires
        keys_sorted(s1),
        keys_sorted(s2),
        forall|k: Seq<char>| lookup(s1, k) == lookup(s2, k),
    ensures
        s1 == s2,
    decreases s1.len(),
{
    if s1.len() == 0 {
        if s2.len() > 0 {
            lemma_lookup_some(s2, s2[0].0);
            assert(lookup(s2, s2[0].0) is Some);
        }
        assert(s1 =~= s2);
    } else {
        let k1 = s1[0].0;
        lemma_lookup_some(s1, k1);
        lemma_lookup_some(s2, k1);
        assert(lookup(s1, k1) == Some(s1[0].1));
        assert(s2.len() > 0);
        let k2 = s2[0].0;
        lemma_lookup_some(s2, k2);
        lemma_lookup_some(s1, k2);
        assert(lookup(s2, k2) == Some(s2[0].1));
        if k1 != k2 {
            let i = choose|i: int| 0 <= i < s2.len() && s2[i].0 == k1;
            let j = choose|j: int| 0 <= j < s1.len() && s1[j].0 == k2;
            assert(i > 0);
            assert(j > 0);
            assert(chars_lt(k2, k1));
            assert(chars_lt(k1, k2));
            lemma_chars_lt_asymmetric(k1, k2);
        }
        assert(s1[0] == s2[0]);
        lemma_sorted_tail(s1);
        lemma_sorted_tail(s2);
        assert forall|k: Seq<char>| lookup(s1.drop_first(), k) == lookup(s2.drop_first(), k) by {
            if k == k1 {
                lemma_lookup_absent(s1.drop_first(), k);
                lemma_lookup_absent(s2.drop_first(), k);
            } else {
                assert(lookup(s1, k) == lookup(s1.drop_first(), k));
                assert(lookup(s2, k) == lookup(s2.drop_first(), k));
            }
        }
        lemma_sorted_unique(s1.drop_first(), s2.drop_first());
        assert(s1 =~= seq![s1[0]] + s1.drop_first());
        assert(s2 =~= seq![s2[0]] + s2.drop_first());
    }
}

/// Where `insert_entry` puts a name that is greater than the first `pos`
/// names and not greater than the one at `pos`.
proof fn lemma_insert_at(s: Seq<Entry>, key: Seq<char>, value: Seq<char>, pos: int)
    requires
        keys_sorted(s),
        0 <= pos <= s.len(),
        forall|j: int| 0 <= j < pos ==> chars_lt(#[trigger] s[j].0, key),
        pos < s.len() ==> !chars_lt(s[pos].0, key),
    ensures
        pos < s.len() && s[pos].0 == key ==> insert_entry(s, key, value) == s.take(pos) + seq![(key, value)] + s.skip(pos + 1),
        !(pos < s.len() && s[pos].0 == key) ==> insert_entry(s, key, value) == s.take(pos) + seq![(key, value)] + s.skip(pos),
    decreases pos,
{
    if pos == 0 {
        if s.len() > 0 && s[0].0 != key {
            lemma_chars_lt_total(key, s[0].0);
        }
        if s.len() > 0 && s[0].0 == key {
            assert(s.take(0) + seq![(key, value)] + s.skip(1) =~= seq![(key, value)] + s.drop_first());
        } else {
            assert(s.take(0) + seq![(key, value)] + s.skip(0) =~= seq![(key, value)] + s);
        }
    } else {
        assert(chars_lt(s[0].0, key));
        lemma_chars_lt_asymmetric(s[0].0, key);
        lemma_chars_lt_irreflexive(key);
        lemma_sorted_tail(s);
        let t = s.drop_first();
        assert forall|j: int| 0 <= j < pos - 1 implies chars_lt(#[trigger] t[j].0, key) by {
            assert(t[j] == s[j + 1]);
        }
        if pos < s.len() {
            assert(t[pos - 1] == s[pos]);
        }
        lemma_insert_at(t, key, value, pos - 1);
        if pos < s.len() && s[pos].0 == key {
            assert(s.take(pos) + seq![(key, value)] + s.skip(pos + 1) =~= seq![s[0]] + (t.take(pos - 1) + seq![(key, value)] + t.skip(pos)));
        } else {
            assert(s.take(pos) + seq![(key, value)] + s.skip(pos) =~= seq![s[0]] + (t.take(pos - 1) + seq![(key, value)] + t.skip(pos - 1)));
        }
    }
}

/// The parameters of one API call, in ascending order of name.
pub struct Params {
    entries: Vec<(String, String)>,
}

/// The text of an entry.
pub open spec fn entry_view(e: (String, String)) -> Entry {
    (e.0@, e.1@)
}

impl View for Params {
    type V = Seq<Entry>;

    closed spec fn view(&self) -> Seq<Entry> {
        self.entries@.map_values(|e: (String, String)| entry_view(e))
    }
}

impl Params {
    /// The entries stay in ascending order of name.
    #[verifier::type_invariant]
    spec fn names_ascend(&self) -> bool {
        keys_sorted(self@)
    }

    /// No parameters.
    pub fn new() -> (p: Params)
        ensures
            p@ == Seq::<Entry>::empty(),
            keys_sorted(p@),
    {
        let p = Params { entries: Vec::new() };
        assert(p@ =~= Seq::<Entry>::empty());
        p
    }

    /// The number of parameters.
    pub fn len(&self) -> (n: usize)
        ensures
            n == self@.len(),
    {
        self.entries.len()
    }

    /// The parameters in ascending order of name.
    pub fn entries(&self) -> (e: &Vec<(String, String)>)
        ensures
            e@.map_values(|e: (String, String)| entry_view(e)) == self@,
            keys_sorted(self@),
    {
        proof {
            use_type_invariant(self);
        }
        &self.entries
    }

    /// Sets `key` to `value`, replacing the value that `key` had.
    pub fn insert(&mut self, key: &str, value: &str)
        ensures
            final(self)@ == insert_entry(old(self)@, key@, value@),
            keys_sorted(final(self)@),
    {
        proof {
            use_type_invariant(&*self);
            lemma_insert_sorted(self@, key@, value@);
        }
        let ghost s = self@;
        let n = self.entries.len();
        let mut pos: usize = 0;
        while pos < n && str_lt(self.entries[pos].0.as_str(), key)
            invariant
                n == self.entries.len(),
                s == self@,
                keys_sorted(s),
                pos <= n,
                forall|j: int| 0 <= j < pos ==> chars_lt(#[trigger] s[j].0, key@),
            decreases n - pos,
        {
            assert(s[pos as int] == entry_view(self.entries@[pos as int]));
            pos = pos + 1;
        }
        proof {
            if pos < n {
                assert(s[pos as int] == entry_view(self.entries@[pos as int]));
            }
            lemma_insert_at(s, key@, value@, pos as int);
        }
        let mut entries: Vec<(String, String)> = Vec::new();
        proof {
            assert(entries@.map_values(|e: (String, String)| entry_view(e)) =~= Seq::<Entry>::empty());
        }
        std::mem::swap(&mut entries, &mut self.entries);
        let ghost before = entries@;
        if pos < n && str_eq(entries[pos].0.as_str(), key) {
            entries.remove(pos);
        }
        entries.insert(pos, (String::from_str(key), String::from_str(value)));
        proof {
            let r = insert_entry(s, key@, value@);
            let v = entries@.map_values(|e: (String, String)| entry_view(e));
            if pos < n && s[pos as int].0 == key@ {
                assert(entries@ =~= before.take(pos as int) + seq![entries@[pos as int]] + before.skip(pos + 1));
            } else {
                assert(entries@ =~= before.take(pos as int) + seq![entries@[pos as int]] + before.skip(pos as int));
            }
            assert(v.len() == r.len());
            assert forall|j: int| 0 <= j < r.len() implies v[j] == r[j] by {
                if j < pos {
                    assert(before[j] == entries@[j]);
                } else if j > pos {
                    if pos < n && s[pos as int].0 == key@ {
                        assert(entries@[j] == before[j]);
                    } else {
                        assert(entries@[j] == before[j - 1]);
                    }
                }
            }
            assert(v =~= r);
        }
        self.entries = entries;
    }
}

} // verus!
