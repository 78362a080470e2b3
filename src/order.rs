use vstd::prelude::*;
use std::cmp::Ordering;
use crate::types::VersionInfo;

verus! {

/// Lexicographic order of texts by code point: the order of `str`'s `Ord`, which
/// compares UTF-8 bytes and so orders code points by their value.
pub open spec fn text_cmp(a: Seq<char>, b: Seq<char>) -> Ordering
    decreases a.len(),
{
    if a.len() == 0 {
        if b.len() == 0 {
            Ordering::Equal
        } else {
            Ordering::Less
        }
    } else if b.len() == 0 {
        Ordering::Greater
    } else if a[0] == b[0] {
        text_cmp(a.drop_first(), b.drop_first())
    } else if (a[0] as u32) < (b[0] as u32) {
        Ordering::Less
    } else {
        Ordering::Greater
    }
}

/// Compares two texts code point by code point.
pub fn compare_text(a: &String, b: &String) -> (r: Ordering)
    ensures
        r == text_cmp(a@, b@),
{
    reveal(text_cmp);
    let sa = a.as_str();
    let sb = b.as_str();
    let na = sa.unicode_len();
    let nb = sb.unicode_len();
    let mut i: usize = 0;
    proof {
        assert(a@.skip(0) =~= a@);
        assert(b@.skip(0) =~= b@);
    }
    while i < na && i < nb
        invariant
            na == a@.len(),
            nb == b@.len(),
            sa@ == a@,
            sb@ == b@,
            i <= na,
            i <= nb,
            text_cmp(a@, b@) == text_cmp(a@.skip(i as int), b@.skip(i as int)),
        decreases na - i,
    {
        let ca = sa.get_char(i);
        let cb = sb.get_char(i);
        if ca != cb {
            if (ca as u32) < (cb as u32) {
                return Ordering::Less;
            } else {
                return Ordering::Greater;
            }
        }
        proof {
            assert(a@.skip(i as int).drop_first() =~= a@.skip(i + 1));
            assert(b@.skip(i as int).drop_first() =~= b@.skip(i + 1));
        }
        i = i + 1;
    }
    if i < na {
        Ordering::Greater
    } else if i < nb {
        Ordering::Less
    } else {
        Ordering::Equal
    }
}

/// The key by which records are sorted.
#[derive(Clone, Copy, Debug, PartialEq, Eq, Structural)]
pub enum SortKey {
    /// The environment name alone.
    Environment,
    /// The service name, then the environment name.
    ServiceEnvironment,
}

/// The key of a record: (service name, environment name), with the service name left
/// empty where only the environment counts.
pub open spec fn record_key(r: VersionInfo, k: SortKey) -> (Seq<char>, Seq<char>) {
    match k {
        SortKey::Environment => (Seq::empty(), r.env_name@),
        SortKey::ServiceEnvironment => (r.service_name@, r.env_name@),
    }
}

/// Lexicographic order of keys.
pub open spec fn key_cmp(a: (Seq<char>, Seq<char>), b: (Seq<char>, Seq<char>)) -> Ordering {
    match text_cmp(a.0, b.0) {
        Ordering::Equal => text_cmp(a.1, b.1),
        o => o,
    }
}

/// How two records compare under a key.
pub open spec fn record_cmp(a: VersionInfo, b: VersionInfo, k: SortKey) -> Ordering {
    key_cmp(record_key(a, k), record_key(b, k))
}

/// Compares two records under a key.
pub fn compare_records(a: &VersionInfo, b: &VersionInfo, k: SortKey) -> (r: Ordering)
    ensures
        r == record_cmp(*a, *b, k),
{
    match k {
        SortKey::Environment => {
            assert(text_cmp(Seq::<char>::empty(), Seq::<char>::empty()) == Ordering::Equal) by {
                reveal(text_cmp);
            }
            compare_text(&a.env_name, &b.env_name)
        },
        SortKey::ServiceEnvironment => match compare_text(&a.service_name, &b.service_name) {
            Ordering::Equal => compare_text(&a.env_name, &b.env_name),
            o => o,
        },
    }
}

impl PartialEq for VersionInfo {
    fn eq(&self, other: &VersionInfo) -> (r: bool) {
        self.service_name == other.service_name && self.env_name == other.env_name
    }
}

impl vstd::std_specs::cmp::PartialEqSpecImpl for VersionInfo {
    open spec fn obeys_eq_spec() -> bool {
        true
    }

    open spec fn eq_spec(&self, other: &VersionInfo) -> bool {
        self.service_name@ == other.service_name@ && self.env_name@ == other.env_name@
    }
}

impl Eq for VersionInfo {
}

impl PartialOrd for VersionInfo {
    fn partial_cmp(&self, other: &VersionInfo) -> (r: Option<Ordering>) {
        Some(compare_records(self, other, SortKey::ServiceEnvironment))
    }
}

impl vstd::std_specs::cmp::PartialOrdSpecImpl for VersionInfo {
    open spec fn obeys_partial_cmp_spec() -> bool {
        true
    }

    open spec fn partial_cmp_spec(&self, other: &VersionInfo) -> Option<Ordering> {
        Some(record_cmp(*self, *other, SortKey::ServiceEnvironment))
    }
}

/// `t` with `x` placed after every record that does not follow it, scanning from the end.
pub open spec fn insert_in_order(t: Seq<VersionInfo>, x: VersionInfo, k: SortKey) -> Seq<VersionInfo>
    decreases t.len(),
{
    if t.len() == 0 {
        seq![x]
    } else if record_cmp(x, t.last(), k) == Ordering::Less {
        insert_in_order(t.drop_last(), x, k).push(t.last())
    } else {
        t.push(x)
    }
}

/// The stable sort of `s` under `k`: records with equal keys keep their relative order.
pub open spec fn stable_sort(s: Seq<VersionInfo>, k: SortKey) -> Seq<VersionInfo>
    decreases s.len(),
{
    if s.len() == 0 {
        s
    } else {
        insert_in_order(stable_sort(s.drop_last(), k), s.last(), k)
    }
}

proof fn lemma_insert_at(t: Seq<VersionInfo>, x: VersionInfo, p: int, k: SortKey)
    requires
        0 <= p <= t.len(),
        forall|q: int| p <= q < t.len() ==> record_cmp(x, #[trigger] t[q], k) == Ordering::Less,
        p == 0 || record_cmp(x, t[p - 1], k) != Ordering::Less,
    ensures
        insert_in_order(t, x, k) == t.insert(p, x),
    decreases t.len(),
{
    if t.len() == 0 {
        assert(t.insert(p, x) =~= seq![x]);
    } else if p == t.len() {
        assert(t.insert(p, x) =~= t.push(x));
    } else {
        let d = t.drop_last();
        assert forall|q: int| p <= q < d.len() implies record_cmp(x, #[trigger] d[q], k)
            == Ordering::Less by {
            assert(d[q] == t[q]);
        }
        lemma_insert_at(d, x, p, k);
        assert(d.insert(p, x).push(t.last()) =~= t.insert(p, x));
    }
}

/// Sorts records stably under a key.
pub fn sort_records(v: Vec<VersionInfo>, k: SortKey) -> (r: Vec<VersionInfo>)
    ensures
        r@ == stable_sort(v@, k),
{
    let ghost s = v@;
    let n = v.len();
    let mut rest = v;
    let mut out: Vec<VersionInfo> = Vec::new();
    let mut done: usize = 0;
    proof {
        assert(s.subrange(0, 0) =~= Seq::<VersionInfo>::empty());
        assert(s.subrange(0, n as int) =~= s);
    }
    while done < n
        invariant
            n == s.len(),
            done <= n,
            rest@ == s.subrange(done as int, n as int),
            out@ == stable_sort(s.subrange(0, done as int), k),
        decreases n - done,
    {
        let x = rest.remove(0);
        proof {
            assert(rest@ =~= s.subrange(done + 1, n as int));
        }
        let mut p: usize = out.len();
        while p > 0 && matches!(compare_records(&x, &out[p - 1], k), Ordering::Less)
            invariant
                p <= out@.len(),
                forall|q: int| p <= q < out@.len() ==> record_cmp(x, #[trigger] out@[q], k)
                    == Ordering::Less,
            decreases p,
        {
            p = p - 1;
        }
        proof {
            let prefix = s.subrange(0, done + 1);
            assert(prefix.drop_last() =~= s.subrange(0, done as int));
            assert(prefix.last() == x);
            lemma_insert_at(out@, x, p as int, k);
        }
        out.insert(p, x);
        done = done + 1;
    }
    out
}

/// The reverse of an ordering.
pub open spec fn flipped(o: Ordering) -> Ordering {
    match o {
        Ordering::Less => Ordering::Greater,
        Ordering::Equal => Ordering::Equal,
        Ordering::Greater => Ordering::Less,
    }
}

proof fn lemma_char_code_distinct(a: char, b: char)
    requires
        a != b,
    ensures
        (a as u32) != (b as u32),
{
}

/// Texts compare equal exactly when they are the same, and swapping them flips the result.
pub proof fn lemma_text_cmp_basics(a: Seq<char>, b: Seq<char>)
    ensures
        (text_cmp(a, b) == Ordering::Equal) == (a == b),
        text_cmp(b, a) == flipped(text_cmp(a, b)),
    decreases a.len(),
{
    reveal(text_cmp);
    if a.len() > 0 && b.len() > 0 {
        if a[0] == b[0] {
            lemma_text_cmp_basics(a.drop_first(), b.drop_first());
            if a.drop_first() == b.drop_first() {
                assert(a =~= seq![a[0]] + a.drop_first());
                assert(b =~= seq![b[0]] + b.drop_first());
            }
        } else {
            lemma_char_code_distinct(a[0], b[0]);
        }
    } else if a.len() == 0 && b.len() == 0 {
        assert(a =~= b);
    }
}

/// `text_cmp` orders strictly: `Less` is transitive.
pub proof fn lemma_text_cmp_transitive(a: Seq<char>, b: Seq<char>, c: Seq<char>)
    requires
        text_cmp(a, b) == Ordering::Less,
        text_cmp(b, c) == Ordering::Less,
    ensures
        text_cmp(a, c) == Ordering::Less,
    decreases a.len(),
{
    reveal(text_cmp);
    if a.len() > 0 && b.len() > 0 && c.len() > 0 && a[0] == b[0] && b[0] == c[0] {
        lemma_text_cmp_transitive(a.drop_first(), b.drop_first(), c.drop_first());
    }
}

/// Keys compare equal exactly when they are the same, and swapping them flips the result.
pub proof fn lemma_key_cmp_basics(a: (Seq<char>, Seq<char>), b: (Seq<char>, Seq<char>))
    ensures
        (key_cmp(a, b) == Ordering::Equal) == (a == b),
        key_cmp(b, a) == flipped(key_cmp(a, b)),
{
    lemma_text_cmp_basics(a.0, b.0);
    lemma_text_cmp_basics(a.1, b.1);
}

/// Not following is transitive for keys.
pub proof fn lemma_key_le_transitive(
    a: (Seq<char>, Seq<char>),
    b: (Seq<char>, Seq<char>),
    c: (Seq<char>, Seq<char>),
)
    requires
        key_cmp(a, b) != Ordering::Greater,
        key_cmp(b, c) != Ordering::Greater,
    ensures
        key_cmp(a, c) != Ordering::Greater,
{
    lemma_key_cmp_basics(a, b);
    lemma_key_cmp_basics(b, c);
    lemma_key_cmp_basics(a, c);
    lemma_text_cmp_basics(a.0, b.0);
    lemma_text_cmp_basics(b.0, c.0);
    lemma_text_cmp_basics(a.1, b.1);
    lemma_text_cmp_basics(b.1, c.1);
    if text_cmp(a.0, b.0) == Ordering::Less && text_cmp(b.0, c.0) == Ordering::Less {
        lemma_text_cmp_transitive(a.0, b.0, c.0);
    }
    if text_cmp(a.1, b.1) == Ordering::Less && text_cmp(b.1, c.1) == Ordering::Less {
        lemma_text_cmp_transitive(a.1, b.1, c.1);
    }
}

/// No record of `s` follows a later one under `k`.
pub open spec fn sorted_by(s: Seq<VersionInfo>, k: SortKey) -> bool {
    forall|i: int, j: int| 0 <= i < j < s.len() ==> record_cmp(s[i], s[j], k) != Ordering::Greater
}

proof fn lemma_insert_position(t: Seq<VersionInfo>, x: VersionInfo, k: SortKey) -> (p: int)
    ensures
        0 <= p <= t.len(),
        forall|q: int| p <= q < t.len() ==> record_cmp(x, #[trigger] t[q], k) == Ordering::Less,
        p == 0 || record_cmp(x, t[p - 1], k) != Ordering::Less,
    decreases t.len(),
{
    if t.len() == 0 {
        0
    } else if record_cmp(x, t.last(), k) == Ordering::Less {
        let d = t.drop_last();
        let p = lemma_insert_position(d, x, k);
        assert forall|q: int| p <= q < t.len() implies record_cmp(x, #[trigger] t[q], k)
            == Ordering::Less by {
            if q < d.len() {
                assert(t[q] == d[q]);
            }
        }
        p
    } else {
        t.len() as int
    }
}

/// Inserting in order keeps a sorted sequence sorted, and adds exactly the one record.
pub proof fn lemma_insert_in_order(t: Seq<VersionInfo>, x: VersionInfo, k: SortKey)
    requires
        sorted_by(t, k),
    ensures
        sorted_by(insert_in_order(t, x, k), k),
        insert_in_order(t, x, k).to_multiset() == t.to_multiset().insert(x),
{
    broadcast use vstd::seq_lib::to_multiset_insert;

    let p = lemma_insert_position(t, x, k);
    lemma_insert_at(t, x, p, k);
    let u = t.insert(p, x);
    t.insert_ensures(p, x);
    assert forall|i: int, j: int| 0 <= i < j < u.len() implies record_cmp(u[i], u[j], k)
        != Ordering::Greater by {
        lemma_insert_pair(t, x, p, k, i, j);
    }
}

proof fn lemma_insert_pair(t: Seq<VersionInfo>, x: VersionInfo, p: int, k: SortKey, i: int, j: int)
    requires
        sorted_by(t, k),
        0 <= p <= t.len(),
        forall|q: int| p <= q < t.len() ==> record_cmp(x, #[trigger] t[q], k) == Ordering::Less,
        p == 0 || record_cmp(x, t[p - 1], k) != Ordering::Less,
        0 <= i < j <= t.len(),
    ensures
        record_cmp(t.insert(p, x)[i], t.insert(p, x)[j], k) != Ordering::Greater,
{
    t.insert_ensures(p, x);
    let u = t.insert(p, x);
    if j < p {
        assert(u[i] == t[i] && u[j] == t[j]);
    } else if j == p {
        assert(u[i] == t[i] && u[j] == x);
        lemma_key_cmp_basics(record_key(x, k), record_key(t[p - 1], k));
        if i < p - 1 {
            assert(record_cmp(t[i], t[p - 1], k) != Ordering::Greater);
            lemma_key_le_transitive(record_key(t[i], k), record_key(t[p - 1], k), record_key(x, k));
        }
    } else if i == p {
        assert(u[i] == x && u[j] == t[j - 1]);
        assert(record_cmp(x, t[j - 1], k) == Ordering::Less);
    } else if i < p {
        assert(u[i] == t[i] && u[j] == t[j - 1]);
        assert(record_cmp(t[i], t[j - 1], k) != Ordering::Greater);
    } else {
        assert(u[i] == t[i - 1] && u[j] == t[j - 1]);
        assert(record_cmp(t[i - 1], t[j - 1], k) != Ordering::Greater);
    }
}

/// The stable sort is sorted and holds exactly the records it was given.
pub proof fn lemma_stable_sort(s: Seq<VersionInfo>, k: SortKey)
    ensures
        sorted_by(stable_sort(s, k), k),
        stable_sort(s, k).to_multiset() == s.to_multiset(),
        stable_sort(s, k).len() == s.len(),
    decreases s.len(),
{
    broadcast use vstd::seq_lib::to_multiset_build, vstd::seq_lib::to_multiset_len;

    if s.len() > 0 {
        lemma_stable_sort(s.drop_last(), k);
        lemma_insert_in_order(stable_sort(s.drop_last(), k), s.last(), k);
        assert(s.drop_last().push(s.last()) =~= s);
        assert(s.drop_last().push(s.last()).to_multiset() == s.drop_last().to_multiset().insert(s.last()));
        assert(stable_sort(s, k).to_multiset().len() == stable_sort(s, k).len());
    }
}

} // verus!
