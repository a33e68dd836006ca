//! The callbacks waiting for answers, keyed by the correlation id that
//! travels with each request and comes back with its answer.
use vstd::prelude::*;
use vstd::string::*;
use vstd::set_lib::{set_int_range, lemma_int_range, lemma_len_subset, lemma_map_size, lemma_map_size_bound};
use vstd::relations::injective_on;
use crate::requester::Continuation;

verus! {

/// Whether `c` is a lower-case hexadecimal digit.
pub open spec fn is_lower_hex(c: char) -> bool {
    ('0' <= c && c <= '9') || ('a' <= c && c <= 'f')
}

/// Whether `s` is the hyphenated lower-case text of a random (version 4,
/// RFC 4122 variant) UUID, such as `67e55044-10b1-426f-9247-bb680e5fe0c8`:
/// 36 characters, hyphens at positions 8, 13, 18 and 23, hexadecimal
/// digits elsewhere, the version digit `4` at position 14 and one of
/// `8`, `9`, `a`, `b` at position 19.
pub open spec fn is_correlation_id(s: Seq<char>) -> bool {
    &&& s.len() == 36
    &&& forall|i: int|
        0 <= i < 36 ==> if i == 8 || i == 13 || i == 18 || i == 23 {
            #[trigger] s[i] == '-'
        } else {
            is_lower_hex(s[i])
        }
    &&& s[14] == '4'
    &&& (s[19] == '8' || s[19] == '9' || s[19] == 'a' || s[19] == 'b')
}

/// A fresh correlation id: `uuid::Uuid::new_v4` rendered by its `Display`
/// impl. Its value is random; the contract states the format that every
/// outcome has.
#[verifier::external_body]
fn new_correlation_id() -> (id: String)
    ensures
        is_correlation_id(id@),
{
    uuid::Uuid::new_v4().to_string()
}

/// The correlation id of entry `i`.
spec fn key_at(s: Seq<(String, Continuation)>, i: int) -> Seq<char> {
    s[i].0@
}

/// No correlation id occurs twice among the entries.
spec fn distinct_keys(s: Seq<(String, Continuation)>) -> bool {
    forall|i: int, j: int| 0 <= i < s.len() && 0 <= j < s.len() && i != j ==> key_at(s, i) != key_at(s, j)
}

spec fn has_key(s: Seq<(String, Continuation)>, k: Seq<char>) -> bool {
    exists|i: int| 0 <= i < s.len() && key_at(s, i) == k
}

spec fn index_of(s: Seq<(String, Continuation)>, k: Seq<char>) -> int {
    choose|i: int| 0 <= i < s.len() && key_at(s, i) == k
}

/// The continuation waiting under each correlation id of the entries.
spec fn map_of(s: Seq<(String, Continuation)>) -> Map<Seq<char>, Continuation> {
    Map::new(|k: Seq<char>| has_key(s, k), |k: Seq<char>| s[index_of(s, k)].1)
}

proof fn lemma_index_of(s: Seq<(String, Continuation)>, i: int)
    requires
        distinct_keys(s),
        0 <= i < s.len(),
    ensures
        index_of(s, key_at(s, i)) == i,
        map_of(s).dom().contains(key_at(s, i)),
        map_of(s)[key_at(s, i)] == s[i].1,
{
    let k = key_at(s, i);
    assert(has_key(s, k));
    let j = index_of(s, k);
    assert(key_at(s, j) == k);
}

/// Entry `i` replaced by one under the same id: the map changes at that id.
proof fn lemma_replace(s: Seq<(String, Continuation)>, i: int, e: (String, Continuation))
    requires
        distinct_keys(s),
        0 <= i < s.len(),
        e.0@ == key_at(s, i),
    ensures
        distinct_keys(s.update(i, e)),
        map_of(s.update(i, e)) == map_of(s).insert(e.0@, e.1),
{
    let t = s.update(i, e);
    let k = e.0@;
    assert forall|a: int, b: int| 0 <= a < t.len() && 0 <= b < t.len() && a != b
        implies key_at(t, a) != key_at(t, b) by {
        assert(key_at(s, a) != key_at(s, b));
    }
    assert forall|x: Seq<char>| #[trigger] map_of(t).dom().contains(x) == map_of(s).insert(k, e.1).dom().contains(x) by {
        if has_key(s, x) {
            let j = index_of(s, x);
            assert(key_at(t, j) == x);
        }
        if has_key(t, x) {
            let j = index_of(t, x);
            assert(key_at(s, j) == x);
        }
    }
    assert forall|x: Seq<char>| #[trigger] map_of(t).dom().contains(x)
        implies map_of(t)[x] == map_of(s).insert(k, e.1)[x] by {
        let j = index_of(t, x);
        lemma_index_of(t, j);
        lemma_index_of(t, i);
        if x != k {
            assert(j != i);
            assert(key_at(s, j) == x);
            lemma_index_of(s, j);
        }
    }
    assert(map_of(t) =~= map_of(s).insert(k, e.1));
}

/// An entry under a new id appended: the map gains that id.
proof fn lemma_push(s: Seq<(String, Continuation)>, e: (String, Continuation))
    requires
        distinct_keys(s),
        !map_of(s).dom().contains(e.0@),
    ensures
        distinct_keys(s.push(e)),
        map_of(s.push(e)) == map_of(s).insert(e.0@, e.1),
{
    let t = s.push(e);
    let n = s.len() as int;
    let k = e.0@;
    assert(key_at(t, n) == k);
    assert forall|a: int, b: int| 0 <= a < t.len() && 0 <= b < t.len() && a != b
        implies key_at(t, a) != key_at(t, b) by {
        if a < n && b < n {
            assert(key_at(s, a) != key_at(s, b));
        } else if a < n {
            assert(key_at(s, a) == key_at(t, a));
            assert(!has_key(s, k));
        } else {
            assert(key_at(s, b) == key_at(t, b));
            assert(!has_key(s, k));
        }
    }
    assert forall|x: Seq<char>| #[trigger] map_of(t).dom().contains(x) == map_of(s).insert(k, e.1).dom().contains(x) by {
        if has_key(s, x) {
            let j = index_of(s, x);
            assert(key_at(t, j) == x);
        }
        if has_key(t, x) {
            let j = index_of(t, x);
            if j < n {
                assert(key_at(s, j) == x);
            }
        }
    }
    assert forall|x: Seq<char>| #[trigger] map_of(t).dom().contains(x)
        implies map_of(t)[x] == map_of(s).insert(k, e.1)[x] by {
        let j = index_of(t, x);
        lemma_index_of(t, j);
        if x != k {
            assert(j < n);
            assert(key_at(s, j) == x);
            lemma_index_of(s, j);
        }
    }
    assert(map_of(t) =~= map_of(s).insert(k, e.1));
}

/// Entry `i` removed: the map loses its id.
proof fn lemma_remove(s: Seq<(String, Continuation)>, i: int)
    requires
        distinct_keys(s),
        0 <= i < s.len(),
    ensures
        distinct_keys(s.remove(i)),
        map_of(s.remove(i)) == map_of(s).remove(key_at(s, i)),
{
    let t = s.remove(i);
    let k = key_at(s, i);
    lemma_index_of(s, i);
    assert forall|a: int| 0 <= a < t.len() implies #[trigger] key_at(t, a) == key_at(s, if a < i { a } else { a + 1 }) by {}
    assert forall|a: int, b: int| 0 <= a < t.len() && 0 <= b < t.len() && a != b
        implies key_at(t, a) != key_at(t, b) by {
        let a2 = if a < i { a } else { a + 1 };
        let b2 = if b < i { b } else { b + 1 };
        assert(key_at(s, a2) != key_at(s, b2));
    }
    assert forall|x: Seq<char>| #[trigger] map_of(t).dom().contains(x) == map_of(s).remove(k).dom().contains(x) by {
        if has_key(s, x) && x != k {
            let j = index_of(s, x);
            assert(j != i);
            let j2 = if j < i { j } else { j - 1 };
            assert(key_at(t, j2) == x);
        }
        if has_key(t, x) {
            let j = index_of(t, x);
            let j2 = if j < i { j } else { j + 1 };
            assert(key_at(s, j2) == x);
            assert(j2 != i);
        }
    }
    assert forall|x: Seq<char>| #[trigger] map_of(t).dom().contains(x)
        implies map_of(t)[x] == map_of(s).remove(k)[x] by {
        let j = index_of(t, x);
        lemma_index_of(t, j);
        let j2 = if j < i { j } else { j + 1 };
        assert(key_at(s, j2) == x);
        lemma_index_of(s, j2);
    }
    assert(map_of(t) =~= map_of(s).remove(k));
}

fn find(entries: &Vec<(String, Continuation)>, id: &String) -> (r: Option<usize>)
    requires
        distinct_keys(entries@),
    ensures
        r matches Some(i) ==> i < entries@.len() && key_at(entries@, i as int) == id@,
        r is None ==> !map_of(entries@).dom().contains(id@),
{
    let mut i: usize = 0;
    while i < entries.len()
        invariant
            i <= entries@.len(),
            forall|j: int| 0 <= j < i ==> key_at(entries@, j) != id@,
        decreases entries@.len() - i,
    {
        if entries[i].0 == *id {
            return Some(i);
        }
        i = i + 1;
    }
    None
}

/// What waits for answers, each under its correlation id.
pub struct PendingCallbacks {
    entries: Vec<(String, Continuation)>,
}

impl PendingCallbacks {
    /// No correlation id occurs twice.
    #[verifier::type_invariant]
    spec fn inv(&self) -> bool {
        distinct_keys(self.entries@)
    }
}

impl View for PendingCallbacks {
    type V = Map<Seq<char>, Continuation>;

    /// The continuation waiting under each correlation id.
    closed spec fn view(&self) -> Map<Seq<char>, Continuation> {
        map_of(self.entries@)
    }
}

impl PendingCallbacks {
    /// Nothing is waiting.
    pub fn new() -> (p: PendingCallbacks)
        ensures
            p@ == Map::<Seq<char>, Continuation>::empty(),
    {
        let p = PendingCallbacks { entries: Vec::new() };
        assert(map_of(p.entries@) =~= Map::<Seq<char>, Continuation>::empty());
        p
    }

    /// Makes `c` wait under `id`, replacing what waited there before.
    pub fn register(&mut self, id: String, c: Continuation)
        ensures
            final(self)@ == old(self)@.insert(id@, c),
    {
        proof {
            use_type_invariant(&*self);
        }
        let mut entries: Vec<(String, Continuation)> = Vec::new();
        std::mem::swap(&mut entries, &mut self.entries);
        let ghost before = entries@;
        match find(&entries, &id) {
            Some(i) => {
                proof {
                    lemma_replace(before, i as int, (id, c));
                }
                entries.set(i, (id, c));
            },
            None => {
                proof {
                    lemma_push(before, (id, c));
                }
                entries.push((id, c));
            },
        }
        self.entries = entries;
    }

    /// Removes what waits under `id` and returns it; `None` when nothing
    /// waits there.
    pub fn take(&mut self, id: &String) -> (r: Option<Continuation>)
        ensures
            final(self)@ == old(self)@.remove(id@),
            r is Some <==> old(self)@.dom().contains(id@),
            r matches Some(c) ==> c == old(self)@[id@],
    {
        proof {
            use_type_invariant(&*self);
        }
        let mut entries: Vec<(String, Continuation)> = Vec::new();
        std::mem::swap(&mut entries, &mut self.entries);
        let ghost before = entries@;
        let r = match find(&entries, id) {
            Some(i) => {
                proof {
                    lemma_remove(before, i as int);
                    lemma_index_of(before, i as int);
                }
                let (_, c) = entries.remove(i);
                Some(c)
            },
            None => {
                assert(map_of(before) =~= map_of(before).remove(id@));
                None
            },
        };
        self.entries = entries;
        r
    }

    /// Whether something waits under `id`.
    pub fn contains(&self, id: &String) -> (b: bool)
        ensures
            b == self@.dom().contains(id@),
    {
        proof {
            use_type_invariant(self);
        }
        match find(&self.entries, id) {
            Some(i) => {
                proof {
                    lemma_index_of(self.entries@, i as int);
                }
                true
            },
            None => false,
        }
    }

    /// Only finitely many ids have something waiting.
    pub proof fn lemma_dom_finite(&self)
        ensures
            self@.dom().finite(),
    {
        lemma_dom_finite(self.entries@);
    }

    /// Makes `c` wait under a correlation id that nothing waits under yet,
    /// and returns that id, which goes out with the request (or the timer).
    /// The id is a fresh random one; should it already be in use, the
    /// first of the ids `fallback_id(0)`, `fallback_id(1)`, ... that is not
    /// is taken instead.
    pub fn prepare_send(&mut self, c: Continuation) -> (id: String)
        ensures
            is_correlation_id(id@),
            !old(self)@.dom().contains(id@),
            final(self)@ == old(self)@.insert(id@, c),
            final(self)@.dom().len() == old(self)@.dom().len() + 1,
    {
        proof {
            use_type_invariant(&*self);
            lemma_dom_finite(self.entries@);
        }
        let id = new_correlation_id();
        if !self.contains(&id) {
            let key = id.clone();
            self.register(key, c);
            return id;
        }
        let m: u64 = self.entries.len() as u64;
        let mut k: u64 = 0;
        loop
            invariant
                k <= m,
                m == self.entries@.len(),
                distinct_keys(self.entries@),
                *self == *old(self),
                self@.dom().finite(),
                forall|j: nat| j < k ==> #[trigger] self@.dom().contains(fallback_id(j)),
            decreases m - k,
        {
            let cand = fallback_correlation_id(k);
            if !self.contains(&cand) {
                proof {
                    lemma_fallback_format(k as nat);
                }
                let key = cand.clone();
                self.register(key, c);
                return cand;
            }
            proof {
                assert forall|j: nat| j <= k implies #[trigger] map_of(self.entries@).dom().contains(fallback_id(j)) by {
                    if j < k {
                        assert(self@.dom().contains(fallback_id(j)));
                    }
                }
                lemma_fallbacks_in_use(self.entries@, k as nat);
            }
            k = k + 1;
        }
    }
}

/// The digit `d < 16` in lower-case hexadecimal.
pub open spec fn hex_char(d: nat) -> char {
    if d < 10 {
        ((48 + d) as u32) as char
    } else {
        ((87 + d) as u32) as char
    }
}

/// The last `n` hexadecimal digits of `k`, most significant first.
pub open spec fn hex_digits(k: nat, n: nat) -> Seq<char>
    decreases n,
{
    if n == 0 {
        Seq::<char>::empty()
    } else {
        hex_digits(k / 16, (n - 1) as nat).push(hex_char(k % 16))
    }
}

/// `16` to the power `n`.
pub open spec fn pow16(n: nat) -> nat
    decreases n,
{
    if n == 0 {
        1
    } else {
        16 * pow16((n - 1) as nat)
    }
}

/// The `k`-th stand-in correlation id, used when a random one is already
/// in use: the sixteen hexadecimal digits of `k` laid out as a version 4
/// UUID, `dddddddd-dddd-4ddd-8d00-000000000000`.
pub open spec fn fallback_id(k: nat) -> Seq<char> {
    let d = hex_digits(k, 16);
    d.subrange(0, 8) + "-"@ + d.subrange(8, 12) + "-4"@ + d.subrange(12, 15) + "-8"@
        + d.subrange(15, 16) + "00-000000000000"@
}

proof fn lemma_hex_digits(k: nat, n: nat)
    ensures
        hex_digits(k, n).len() == n,
        forall|i: int| 0 <= i < n ==> is_lower_hex(#[trigger] hex_digits(k, n)[i]),
    decreases n,
{
    if n > 0 {
        lemma_hex_digits(k / 16, (n - 1) as nat);
        let d = hex_digits(k, n);
        assert forall|i: int| 0 <= i < n implies is_lower_hex(#[trigger] d[i]) by {
            if i < n - 1 {
                assert(d[i] == hex_digits(k / 16, (n - 1) as nat)[i]);
            } else {
                assert(d[i] == hex_char(k % 16));
            }
        }
    }
}

proof fn lemma_hex_injective(a: nat, b: nat, n: nat)
    requires
        a < pow16(n),
        b < pow16(n),
        hex_digits(a, n) == hex_digits(b, n),
    ensures
        a == b,
    decreases n,
{
    if n > 0 {
        let da = hex_digits(a, n);
        let db = hex_digits(b, n);
        assert(da.last() == hex_char(a % 16));
        assert(db.last() == hex_char(b % 16));
        assert(a % 16 == b % 16);
        assert(da.drop_last() == hex_digits(a / 16, (n - 1) as nat));
        assert(db.drop_last() == hex_digits(b / 16, (n - 1) as nat));
        lemma_hex_injective(a / 16, b / 16, (n - 1) as nat);
    }
}

proof fn lemma_pow16_16()
    ensures
        pow16(16) == 0x1_0000_0000_0000_0000,
{
    reveal_with_fuel(pow16, 17);
}

proof fn lemma_fallback_format(k: nat)
    ensures
        is_correlation_id(fallback_id(k)),
{
    reveal_strlit("-");
    reveal_strlit("-4");
    reveal_strlit("-8");
    reveal_strlit("00-000000000000");
    lemma_hex_digits(k, 16);
    let d = hex_digits(k, 16);
    let f = fallback_id(k);
    assert(f.len() == 36);
    assert forall|i: int| 0 <= i < 36 implies if i == 8 || i == 13 || i == 18 || i == 23 {
        #[trigger] f[i] == '-'
    } else {
        is_lower_hex(f[i])
    } by {
        if i < 8 {
            assert(f[i] == d[i]);
        } else if 9 <= i < 13 {
            assert(f[i] == d[i - 1]);
        } else if 15 <= i < 18 {
            assert(f[i] == d[i - 3]);
        } else if i == 20 {
            assert(f[i] == d[15]);
        }
    }
    assert(f[14] == '4');
    assert(f[19] == '8');
}

proof fn lemma_fallback_injective(a: nat, b: nat)
    requires
        a < 0x1_0000_0000_0000_0000,
        b < 0x1_0000_0000_0000_0000,
        fallback_id(a) == fallback_id(b),
    ensures
        a == b,
{
    reveal_strlit("-");
    reveal_strlit("-4");
    reveal_strlit("-8");
    reveal_strlit("00-000000000000");
    lemma_hex_digits(a, 16);
    lemma_hex_digits(b, 16);
    let da = hex_digits(a, 16);
    let db = hex_digits(b, 16);
    let fa = fallback_id(a);
    let fb = fallback_id(b);
    assert forall|i: int| 0 <= i < 16 implies #[trigger] da[i] == db[i] by {
        if i < 8 {
            assert(da[i] == fa[i] && db[i] == fb[i]);
        } else if i < 12 {
            assert(da[i] == fa[i + 1] && db[i] == fb[i + 1]);
        } else if i < 15 {
            assert(da[i] == fa[i + 3] && db[i] == fb[i + 3]);
        } else {
            assert(da[i] == fa[20] && db[i] == fb[20]);
        }
    }
    assert(da =~= db);
    lemma_pow16_16();
    lemma_hex_injective(a, b, 16);
}

/// The ids with something waiting are finitely many.
proof fn lemma_dom_finite(s: Seq<(String, Continuation)>)
    ensures
        map_of(s).dom().finite(),
{
    let x = set_int_range(0, s.len() as int);
    lemma_int_range(0, s.len() as int);
    let f = |i: int| key_at(s, i);
    assert(map_of(s).dom() =~= x.map(f)) by {
        assert forall|k: Seq<char>| #[trigger] map_of(s).dom().contains(k) implies x.map(f).contains(k) by {
            let i = index_of(s, k);
            assert(x.contains(i) && f(i) == k);
        }
        assert forall|k: Seq<char>| #[trigger] x.map(f).contains(k) implies map_of(s).dom().contains(k) by {
            let i = choose|i: int| x.contains(i) && f(i) == k;
            assert(has_key(s, k));
        }
    }
    lemma_map_size_bound(x, x.map(f), f);
}

/// When the stand-in ids `0..=k` are all in use, there are more than `k`
/// entries: each of them is the id of a different entry.
proof fn lemma_fallbacks_in_use(s: Seq<(String, Continuation)>, k: nat)
    requires
        distinct_keys(s),
        k < 0x1_0000_0000_0000_0000,
        forall|j: nat| j <= k ==> #[trigger] map_of(s).dom().contains(fallback_id(j)),
    ensures
        k + 1 <= s.len(),
{
    let x = set_int_range(0, (k + 1) as int);
    lemma_int_range(0, (k + 1) as int);
    let g = |j: int| index_of(s, fallback_id(j as nat));
    assert forall|j: int| x.contains(j) implies 0 <= #[trigger] g(j) < s.len() && key_at(s, g(j)) == fallback_id(j as nat) by {
        assert(map_of(s).dom().contains(fallback_id(j as nat)));
    }
    assert(injective_on(g, x)) by {
        assert forall|a: int, b: int| x.contains(a) && x.contains(b) && #[trigger] g(a) == #[trigger] g(b) implies a == b by {
            assert(key_at(s, g(a)) == fallback_id(a as nat));
            assert(key_at(s, g(b)) == fallback_id(b as nat));
            lemma_fallback_injective(a as nat, b as nat);
        }
    }
    let y = x.map(g);
    lemma_map_size(x, y, g);
    let r = set_int_range(0, s.len() as int);
    lemma_int_range(0, s.len() as int);
    assert(y.subset_of(r)) by {
        assert forall|v: int| #[trigger] y.contains(v) implies r.contains(v) by {
            let j = choose|j: int| x.contains(j) && g(j) == v;
        }
    }
    lemma_len_subset(y, r);
}

fn push_hex(out: &mut String, k: u64, n: usize)
    ensures
        final(out)@ == old(out)@ + hex_digits(k as nat, n as nat),
    decreases n,
{
    if n > 0 {
        push_hex(out, k / 16, n - 1);
        let d: usize = (k % 16) as usize;
        let digits = "0123456789abcdef";
        proof {
            reveal_strlit("0123456789abcdef");
        }
        let h = digits.substring_char(d, d + 1);
        assert(h@ =~= seq![hex_char(d as nat)]);
        out.append(h);
    }
}

/// The `k`-th stand-in correlation id.
fn fallback_correlation_id(k: u64) -> (id: String)
    ensures
        id@ == fallback_id(k as nat),
{
    let mut digits = String::new();
    push_hex(&mut digits, k, 16);
    proof {
        lemma_hex_digits(k as nat, 16);
    }
    let d = digits.as_str();
    let id = String::from_str(d.substring_char(0, 8));
    let id = id.concat("-");
    let id = id.concat(d.substring_char(8, 12));
    let id = id.concat("-4");
    let id = id.concat(d.substring_char(12, 15));
    let id = id.concat("-8");
    let id = id.concat(d.substring_char(15, 16));
    let id = id.concat("00-000000000000");
    id
}

} // verus!
