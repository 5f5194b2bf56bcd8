//! Plain-text primitives: character-level string comparison and an ordered
//! association map from strings to strings.
//!
//! The map keeps its entries in insertion order, which matters to the rest
//! of the engine: rendering contexts are serialized entry by entry, so the
//! order has to be pinned down for resolution to be deterministic.

use vstd::prelude::*;

verus! {

/// First value bound to `k` in the pair sequence `s`, scanning from the front.
pub open spec fn assoc_get(s: Seq<(Seq<char>, Seq<char>)>, k: Seq<char>) -> Option<Seq<char>>
    decreases s.len(),
{
    if s.len() == 0 {
        None
    } else if s[0].0 == k {
        Some(s[0].1)
    } else {
        assoc_get(s.skip(1), k)
    }
}

/// `s` with the first binding of `k` replaced by `v`, or `(k, v)` appended
/// when `k` is not bound yet.
pub open spec fn assoc_set(
    s: Seq<(Seq<char>, Seq<char>)>,
    k: Seq<char>,
    v: Seq<char>,
) -> Seq<(Seq<char>, Seq<char>)>
    decreases s.len(),
{
    if s.len() == 0 {
        seq![(k, v)]
    } else if s[0].0 == k {
        seq![(k, v)] + s.skip(1)
    } else {
        seq![s[0]] + assoc_set(s.skip(1), k, v)
    }
}

/// No key occurs twice.
pub open spec fn unique_keys(s: Seq<(Seq<char>, Seq<char>)>) -> bool {
    forall|i: int, j: int| 0 <= i < j < s.len() ==> s[i].0 != s[j].0
}

/// A string-to-string map that remembers insertion order.
#[derive(Debug)]
pub struct StrMap {
    pairs: Vec<(String, String)>,
}

impl View for StrMap {
    type V = Seq<(Seq<char>, Seq<char>)>;

    closed spec fn view(&self) -> Seq<(Seq<char>, Seq<char>)> {
        self.pairs@.map_values(|p: (String, String)| (p.0@, p.1@))
    }
}

impl StrMap {
    /// Each key is bound at most once.
    pub open spec fn wf(&self) -> bool {
        unique_keys(self@)
    }

    pub fn new() -> (r: StrMap)
        ensures
            r@ == Seq::<(Seq<char>, Seq<char>)>::empty(),
            r.wf(),
    {
        let r = StrMap { pairs: Vec::new() };
        proof {
            assert(r@ =~= Seq::<(Seq<char>, Seq<char>)>::empty());
        }
        r
    }

    pub fn len(&self) -> (r: usize)
        ensures
            r == self@.len(),
    {
        self.pairs.len()
    }

    pub fn key_at(&self, i: usize) -> (r: &String)
        requires
            i < self@.len(),
        ensures
            r@ == self@[i as int].0,
    {
        &self.pairs[i].0
    }

    pub fn val_at(&self, i: usize) -> (r: &String)
        requires
            i < self@.len(),
        ensures
            r@ == self@[i as int].1,
    {
        &self.pairs[i].1
    }

    /// Looks the key up, returning a copy of the bound value.
    pub fn get(&self, k: &str) -> (r: Option<String>)
        ensures
            r is Some <==> assoc_get(self@, k@) is Some,
            r matches Some(v) ==> assoc_get(self@, k@) == Some(v@),
    {
        let n = self.pairs.len();
        let mut i: usize = 0;
        proof {
            assert(self@.skip(0) =~= self@);
        }
        while i < n
            invariant
                n == self@.len(),
                i <= n,
                assoc_get(self@, k@) == assoc_get(self@.skip(i as int), k@),
            decreases n - i,
        {
            proof {
                lemma_assoc_get_step(self@, k@, i as int);
            }
            if str_eq(self.pairs[i].0.as_str(), k) {
                return Some(clone_string(&self.pairs[i].1));
            }
            i = i + 1;
        }
        proof {
            assert(self@.skip(n as int) =~= Seq::<(Seq<char>, Seq<char>)>::empty());
        }
        None
    }

    /// Binds `k` to `v`, replacing any earlier binding in place.
    pub fn set_pair(&mut self, k: String, v: String)
        requires
            old(self).wf(),
        ensures
            final(self)@ == assoc_set(old(self)@, k@, v@),
            final(self).wf(),
    {
        let ghost orig = self@;
        let n = self.pairs.len();
        let mut i: usize = 0;
        while i < n
            invariant
                n == self@.len(),
                i <= n,
                self@ == orig,
                orig == old(self)@,
                unique_keys(orig),
                forall|j: int| 0 <= j < i ==> orig[j].0 != k@,
            decreases n - i,
        {
            if str_eq(self.pairs[i].0.as_str(), k.as_str()) {
                self.pairs[i] = (k, v);
                proof {
                    lemma_assoc_set_found(orig, k@, v@, i as int);
                    assert(self@ =~= orig.update(i as int, (k@, v@)));
                    assert(self@ =~= assoc_set(orig, k@, v@));
                    lemma_assoc_set_unique(orig, k@, v@);
                }
                return;
            }
            i = i + 1;
        }
        self.pairs.push((k, v));
        proof {
            lemma_assoc_set_missing(orig, k@, v@);
            assert(self@ =~= orig.push((k@, v@)));
            assert(self@ =~= assoc_set(orig, k@, v@));
            lemma_assoc_set_unique(orig, k@, v@);
        }
    }

    /// An order-preserving copy.
    pub fn duplicate(&self) -> (r: StrMap)
        ensures
            r@ == self@,
    {
        let n = self.pairs.len();
        let mut out: Vec<(String, String)> = Vec::new();
        let mut i: usize = 0;
        while i < n
            invariant
                n == self@.len(),
                i <= n,
                out@.map_values(|p: (String, String)| (p.0@, p.1@)) =~= self@.subrange(
                    0,
                    i as int,
                ),
            decreases n - i,
        {
            let k = clone_string(&self.pairs[i].0);
            let v = clone_string(&self.pairs[i].1);
            out.push((k, v));
            proof {
                assert(out@.map_values(|p: (String, String)| (p.0@, p.1@)) =~= self@.subrange(
                    0,
                    i as int,
                ).push(self@[i as int]));
                assert(self@.subrange(0, i as int).push(self@[i as int]) =~= self@.subrange(
                    0,
                    i as int + 1,
                ));
            }
            i = i + 1;
        }
        let r = StrMap { pairs: out };
        proof {
            assert(self@.subrange(0, n as int) =~= self@);
            assert(r@ =~= self@);
        }
        r
    }
}

/// If the first `i` keys of `s` all differ from `k`, the lookup outcome on
/// the remaining suffix is the outcome on the suffix one element shorter.
proof fn lemma_assoc_get_step(s: Seq<(Seq<char>, Seq<char>)>, k: Seq<char>, i: int)
    requires
        0 <= i < s.len(),
        assoc_get(s, k) == assoc_get(s.skip(i), k),
    ensures
        s[i].0 == k ==> assoc_get(s, k) == Some(s[i].1),
        s[i].0 != k ==> assoc_get(s, k) == assoc_get(s.skip(i + 1), k),
{
    assert(s.skip(i).len() > 0);
    assert(s.skip(i)[0] == s[i]);
    if s[i].0 != k {
        assert(s.skip(i).skip(1) =~= s.skip(i + 1));
    }
}

/// Replacing a binding keeps keys unique.
proof fn lemma_assoc_set_unique(s: Seq<(Seq<char>, Seq<char>)>, k: Seq<char>, v: Seq<char>)
    requires
        unique_keys(s),
    ensures
        unique_keys(assoc_set(s, k, v)),
    decreases s.len(),
{
    if s.len() == 0 {
    } else if s[0].0 == k {
        let t = assoc_set(s, k, v);
        assert forall|i: int, j: int| 0 <= i < j < t.len() implies t[i].0 != t[j].0 by {
            assert(s[0].0 == k);
            if i == 0 {
                assert(t[j] == s[j]);
                assert(s[0].0 != s[j].0);
            } else {
                assert(t[i] == s[i] && t[j] == s[j]);
            }
        }
    } else {
        assert(unique_keys(s.skip(1))) by {
            assert(forall|i: int, j: int|
                0 <= i < j < s.skip(1).len() ==> s.skip(1)[i] == s[i + 1] && s.skip(1)[j] == s[j
                    + 1]);
        }
        lemma_assoc_set_unique(s.skip(1), k, v);
        let t = assoc_set(s, k, v);
        let u = assoc_set(s.skip(1), k, v);
        assert forall|i: int, j: int| 0 <= i < j < t.len() implies t[i].0 != t[j].0 by {
            if i == 0 {
                assert(t[j] == u[j - 1]);
                lemma_assoc_set_keys(s.skip(1), k, v, j - 1);
                if u[j - 1].0 == s[0].0 {
                    if u[j - 1].0 == k {
                        assert(s[0].0 != k);
                    } else {
                        let m = choose|m: int|
                            0 <= m < s.skip(1).len() && s.skip(1)[m].0 == u[j - 1].0;
                        assert(s[m + 1].0 == s[0].0);
                    }
                    assert(false);
                }
            } else {
                assert(t[i] == u[i - 1] && t[j] == u[j - 1]);
            }
        }
    }
}

/// Every key of the updated sequence is `k` or a key of the original.
proof fn lemma_assoc_set_keys(s: Seq<(Seq<char>, Seq<char>)>, k: Seq<char>, v: Seq<char>, i: int)
    requires
        0 <= i < assoc_set(s, k, v).len(),
    ensures
        assoc_set(s, k, v)[i].0 == k || exists|j: int|
            0 <= j < s.len() && s[j].0 == assoc_set(s, k, v)[i].0,
    decreases s.len(),
{
    if s.len() == 0 {
    } else if s[0].0 == k {
        if i > 0 {
            assert(assoc_set(s, k, v)[i] == s.skip(1)[i - 1]);
            assert(s.skip(1)[i - 1] == s[i]);
        }
    } else {
        if i > 0 {
            lemma_assoc_set_keys(s.skip(1), k, v, i - 1);
            let u = assoc_set(s.skip(1), k, v);
            assert(assoc_set(s, k, v)[i] == u[i - 1]);
            if u[i - 1].0 != k {
                let j = choose|j: int| 0 <= j < s.skip(1).len() && s.skip(1)[j].0 == u[i - 1].0;
                assert(s[j + 1].0 == u[i - 1].0);
            }
        }
    }
}

/// When `k` first occurs at position `i`, setting it rewrites that slot.
proof fn lemma_assoc_set_found(s: Seq<(Seq<char>, Seq<char>)>, k: Seq<char>, v: Seq<char>, i: int)
    requires
        0 <= i < s.len(),
        s[i].0 == k,
        forall|j: int| 0 <= j < i ==> s[j].0 != k,
    ensures
        assoc_set(s, k, v) == s.update(i, (k, v)),
    decreases s.len(),
{
    if i == 0 {
        assert(assoc_set(s, k, v) == seq![(k, v)] + s.skip(1));
        assert(seq![(k, v)] + s.skip(1) =~= s.update(0, (k, v)));
    } else {
        assert(s.skip(1)[i - 1] == s[i]);
        assert(forall|j: int| 0 <= j < i - 1 ==> s.skip(1)[j] == s[j + 1]);
        lemma_assoc_set_found(s.skip(1), k, v, i - 1);
        assert(assoc_set(s, k, v) == seq![s[0]] + assoc_set(s.skip(1), k, v));
        assert(seq![s[0]] + s.skip(1).update(i - 1, (k, v)) =~= s.update(i, (k, v)));
    }
}

/// When `k` is absent, setting it appends the new pair.
proof fn lemma_assoc_set_missing(s: Seq<(Seq<char>, Seq<char>)>, k: Seq<char>, v: Seq<char>)
    requires
        forall|j: int| 0 <= j < s.len() ==> s[j].0 != k,
    ensures
        assoc_set(s, k, v) == s.push((k, v)),
    decreases s.len(),
{
    if s.len() == 0 {
        assert(assoc_set(s, k, v) =~= s.push((k, v)));
    } else {
        assert(forall|j: int| 0 <= j < s.skip(1).len() ==> s.skip(1)[j] == s[j + 1]);
        lemma_assoc_set_missing(s.skip(1), k, v);
        assert(seq![s[0]] + s.skip(1).push((k, v)) =~= s.push((k, v)));
    }
}

/// Setting a key makes it readable; other keys keep their old value.
pub proof fn lemma_assoc_set_get(
    s: Seq<(Seq<char>, Seq<char>)>,
    k: Seq<char>,
    v: Seq<char>,
    q: Seq<char>,
)
    ensures
        assoc_get(assoc_set(s, k, v), k) == Some(v),
        q != k ==> assoc_get(assoc_set(s, k, v), q) == assoc_get(s, q),
    decreases s.len(),
{
    if s.len() == 0 {
        let t = assoc_set(s, k, v);
        assert(t[0] == (k, v));
        assert(t.skip(1) =~= Seq::<(Seq<char>, Seq<char>)>::empty());
        assert(assoc_get(Seq::<(Seq<char>, Seq<char>)>::empty(), q) is None);
    } else if s[0].0 == k {
        let t = assoc_set(s, k, v);
        assert(t[0] == (k, v));
        assert(t.skip(1) =~= s.skip(1));
    } else {
        lemma_assoc_set_get(s.skip(1), k, v, q);
        let t = assoc_set(s, k, v);
        assert(t[0] == s[0]);
        assert(t.skip(1) =~= assoc_set(s.skip(1), k, v));
    }
}

/// All the pieces, concatenated in order.
pub open spec fn concat_all(ss: Seq<Seq<char>>) -> Seq<char>
    decreases ss.len(),
{
    if ss.len() == 0 {
        Seq::<char>::empty()
    } else {
        ss[0] + concat_all(ss.skip(1))
    }
}

/// Concatenating one more piece appends it.
pub proof fn lemma_concat_all_snoc(ss: Seq<Seq<char>>, x: Seq<char>)
    ensures
        concat_all(ss.push(x)) == concat_all(ss) + x,
    decreases ss.len(),
{
    if ss.len() == 0 {
        assert(ss.push(x)[0] == x);
        assert(ss.push(x).skip(1) =~= Seq::<Seq<char>>::empty());
        assert(concat_all(Seq::<Seq<char>>::empty()) =~= Seq::<char>::empty());
        assert(x + Seq::<char>::empty() =~= x);
        assert(concat_all(ss) + x =~= x);
    } else {
        lemma_concat_all_snoc(ss.skip(1), x);
        let t = ss.push(x);
        assert(t[0] == ss[0]);
        assert(t.skip(1) =~= ss.skip(1).push(x));
        assert(ss[0] + (concat_all(ss.skip(1)) + x) =~= (ss[0] + concat_all(ss.skip(1))) + x);
    }
}

/// Joins the pieces into one string, in order, with nothing between.
pub fn concat_strings(pieces: &Vec<String>) -> (r: String)
    ensures
        r@ == concat_all(pieces@.map_values(|s: String| s@)),
{
    let ghost views = pieces@.map_values(|s: String| s@);
    let mut out = String::new();
    let n = pieces.len();
    let mut i: usize = 0;
    proof {
        assert(views.subrange(0, 0) =~= Seq::<Seq<char>>::empty());
        assert(out@ =~= concat_all(Seq::<Seq<char>>::empty()));
    }
    while i < n
        invariant
            n == pieces@.len(),
            views == pieces@.map_values(|s: String| s@),
            views.len() == n,
            i <= n,
            out@ == concat_all(views.subrange(0, i as int)),
        decreases n - i,
    {
        out.append(pieces[i].as_str());
        proof {
            lemma_concat_all_snoc(views.subrange(0, i as int), views[i as int]);
            assert(views.subrange(0, i as int).push(views[i as int]) =~= views.subrange(
                0,
                i as int + 1,
            ));
        }
        i = i + 1;
    }
    proof {
        assert(views.subrange(0, n as int) =~= views);
    }
    out
}

/// Character-by-character equality of string slices.
pub fn str_eq(a: &str, b: &str) -> (r: bool)
    ensures
        r == (a@ == b@),
{
    let alen = a.unicode_len();
    let blen = b.unicode_len();
    if alen != blen {
        return false;
    }
    let mut i: usize = 0;
    while i < alen
        invariant
            alen == a@.len(),
            blen == b@.len(),
            alen == blen,
            i <= alen,
            forall|j: int| 0 <= j < i ==> a@[j] == b@[j],
        decreases alen - i,
    {
        if a.get_char(i) != b.get_char(i) {
            return false;
        }
        i = i + 1;
    }
    proof {
        assert(a@ =~= b@);
    }
    true
}

/// Whether `s` begins with `prefix`.
pub fn str_starts_with(s: &str, prefix: &str) -> (r: bool)
    ensures
        r == (s@.len() >= prefix@.len() && s@.subrange(0, prefix@.len() as int) == prefix@),
{
    let slen = s.unicode_len();
    let plen = prefix.unicode_len();
    if slen < plen {
        return false;
    }
    let mut i: usize = 0;
    while i < plen
        invariant
            slen == s@.len(),
            plen == prefix@.len(),
            plen <= slen,
            i <= plen,
            forall|j: int| 0 <= j < i ==> s@[j] == prefix@[j],
        decreases plen - i,
    {
        if s.get_char(i) != prefix.get_char(i) {
            proof {
                if s@.subrange(0, plen as int) == prefix@ {
                    assert(s@.subrange(0, plen as int)[i as int] == prefix@[i as int]);
                }
            }
            return false;
        }
        i = i + 1;
    }
    proof {
        assert(s@.subrange(0, plen as int) =~= prefix@);
    }
    true
}

/// A heap copy of the string with the same characters.
pub fn clone_string(s: &String) -> (r: String)
    ensures
        r@ == s@,
{
    let r: String = s.clone();
    r
}

} // verus!
