//! Scope sets: the normalised, order-independent form of a list of scopes.
//!
//! A scope set holds each requested scope once, in ascending order of its
//! UTF-8 encoding (the order in which Rust compares strings, which is
//! case-sensitive). Two requests naming the same scopes in any order and with
//! any repetition therefore have the same scope set.

use vstd::prelude::*;
use vstd::string::*;
use vstd::utf8::*;

verus! {

/// `a` and `b` agree on their first `k` bytes, and there `a` either ends
/// while `b` goes on, or holds the smaller byte.
pub open spec fn splits_before(a: Seq<u8>, b: Seq<u8>, k: int) -> bool {
    &&& 0 <= k <= a.len()
    &&& k < b.len()
    &&& forall|j: int| 0 <= j < k ==> a[j] == b[j]
    &&& (k < a.len() ==> a[k] < b[k])
}

/// Lexicographic order on byte strings: `a` sorts strictly before `b`.
pub open spec fn bytes_before(a: Seq<u8>, b: Seq<u8>) -> bool {
    exists|k: int| splits_before(a, b, k)
}

/// Order on texts: by their UTF-8 encoding, byte by byte.
pub open spec fn text_before(a: Seq<char>, b: Seq<char>) -> bool {
    bytes_before(encode_utf8(a), encode_utf8(b))
}

/// A sequence of texts in strictly ascending order, hence without repeats.
pub open spec fn is_normalized(s: Seq<Seq<char>>) -> bool {
    forall|i: int, j: int| 0 <= i < j < s.len() ==> text_before(#[trigger] s[i], #[trigger] s[j])
}

/// The texts of a sequence of string slices.
pub open spec fn texts(s: Seq<&str>) -> Seq<Seq<char>> {
    Seq::new(s.len(), |i: int| s[i]@)
}

/// The texts of a sequence of owned strings.
pub open spec fn owned_texts(s: Seq<String>) -> Seq<Seq<char>> {
    Seq::new(s.len(), |i: int| s[i]@)
}

/// `key` is the normal form of the requested `scopes`: ascending, without
/// repeats, and naming exactly the scopes requested.
pub open spec fn is_normal_form_of(key: Seq<Seq<char>>, scopes: Seq<Seq<char>>) -> bool {
    &&& is_normalized(key)
    &&& key.to_set() == scopes.to_set()
}

/// The normal form of the requested `scopes`.
pub open spec fn normal_form(scopes: Seq<Seq<char>>) -> Seq<Seq<char>> {
    choose|key: Seq<Seq<char>>| is_normal_form_of(key, scopes)
}

/// No byte string sorts before itself.
pub proof fn lemma_bytes_before_irreflexive(a: Seq<u8>)
    ensures
        !bytes_before(a, a),
{
}

/// The byte order is transitive.
pub proof fn lemma_bytes_before_transitive(a: Seq<u8>, b: Seq<u8>, c: Seq<u8>)
    requires
        bytes_before(a, b),
        bytes_before(b, c),
    ensures
        bytes_before(a, c),
{
    let k1 = choose|k: int| splits_before(a, b, k);
    let k2 = choose|k: int| splits_before(b, c, k);
    if k1 <= k2 {
        assert(splits_before(a, c, k1));
    } else {
        assert(splits_before(a, c, k2));
    }
}

proof fn lemma_first_gap(a: Seq<u8>, b: Seq<u8>, i: int)
    requires
        0 <= i <= a.len(),
        i <= b.len(),
        forall|j: int| 0 <= j < i ==> a[j] == b[j],
        a != b,
    ensures
        bytes_before(a, b) || bytes_before(b, a),
    decreases a.len() - i,
{
    if i == a.len() {
        if i == b.len() {
            assert(a =~= b);
        }
        assert(splits_before(a, b, i));
    } else if i == b.len() {
        assert(splits_before(b, a, i));
    } else if a[i] < b[i] {
        assert(splits_before(a, b, i));
    } else if b[i] < a[i] {
        assert(splits_before(b, a, i));
    } else {
        lemma_first_gap(a, b, i + 1);
    }
}

/// Of two different byte strings one sorts before the other.
pub proof fn lemma_bytes_before_total(a: Seq<u8>, b: Seq<u8>)
    requires
        a != b,
    ensures
        bytes_before(a, b) || bytes_before(b, a),
{
    lemma_first_gap(a, b, 0);
}

/// Where two texts have the same encoding they are the same text.
pub proof fn lemma_encoding_injective(a: Seq<char>, b: Seq<char>)
    requires
        encode_utf8(a) == encode_utf8(b),
    ensures
        a == b,
{
    encode_utf8_decode_utf8(a);
    encode_utf8_decode_utf8(b);
}

/// How one byte string stands to another in the byte order.
enum Rank {
    Before,
    Same,
    After,
}

fn rank_bytes(a: &[u8], b: &[u8]) -> (r: Rank)
    ensures
        match r {
            Rank::Before => bytes_before(a@, b@),
            Rank::Same => a@ == b@,
            Rank::After => bytes_before(b@, a@),
        },
{
    let mut i: usize = 0;
    while i < a.len() && i < b.len()
        invariant
            i <= a.len(),
            i <= b.len(),
            forall|j: int| 0 <= j < i ==> a@[j] == b@[j],
        decreases a.len() - i,
    {
        if a[i] < b[i] {
            assert(splits_before(a@, b@, i as int));
            return Rank::Before;
        }
        if b[i] < a[i] {
            assert(splits_before(b@, a@, i as int));
            return Rank::After;
        }
        i += 1;
    }
    if i < b.len() {
        assert(splits_before(a@, b@, i as int));
        Rank::Before
    } else if i < a.len() {
        assert(splits_before(b@, a@, i as int));
        Rank::After
    } else {
        assert(a@ =~= b@);
        Rank::Same
    }
}

fn rank_text(a: &str, b: &str) -> (r: Rank)
    ensures
        match r {
            Rank::Before => text_before(a@, b@),
            Rank::Same => a@ == b@,
            Rank::After => text_before(b@, a@),
        },
{
    let r = rank_bytes(a.as_bytes(), b.as_bytes());
    proof {
        if a.spec_bytes() == b.spec_bytes() {
            lemma_encoding_injective(a@, b@);
        }
    }
    r
}

/// No text sorts before itself.
pub proof fn lemma_text_before_irreflexive(a: Seq<char>)
    ensures
        !text_before(a, a),
{
    lemma_bytes_before_irreflexive(encode_utf8(a));
}

/// The order on texts is transitive.
pub proof fn lemma_text_before_transitive(a: Seq<char>, b: Seq<char>, c: Seq<char>)
    requires
        text_before(a, b),
        text_before(b, c),
    ensures
        text_before(a, c),
{
    lemma_bytes_before_transitive(encode_utf8(a), encode_utf8(b), encode_utf8(c));
}

/// Of two different texts one sorts before the other.
pub proof fn lemma_text_before_total(a: Seq<char>, b: Seq<char>)
    requires
        a != b,
    ensures
        text_before(a, b) || text_before(b, a),
{
    if encode_utf8(a) == encode_utf8(b) {
        lemma_encoding_injective(a, b);
    }
    lemma_bytes_before_total(encode_utf8(a), encode_utf8(b));
}

/// A normalised sequence is determined by the set of its members: two
/// normalised sequences with the same members are the same sequence.
pub proof fn lemma_normal_form_unique(s: Seq<Seq<char>>, t: Seq<Seq<char>>)
    requires
        is_normalized(s),
        is_normalized(t),
        s.to_set() == t.to_set(),
    ensures
        s == t,
    decreases s.len(),
{
    if s.len() == 0 {
        if t.len() > 0 {
            assert(t.contains(t[0]));
            assert(t.to_set().contains(t[0]));
            assert(s.contains(t[0]));
        }
        assert(s =~= t);
    } else {
        assert(s.contains(s[0]));
        assert(s.to_set().contains(s[0]));
        assert(t.contains(s[0]));
        let j = choose|j: int| 0 <= j < t.len() && t[j] == s[0];
        assert(t.contains(t[0]));
        assert(t.to_set().contains(t[0]));
        assert(s.contains(t[0]));
        let i = choose|i: int| 0 <= i < s.len() && s[i] == t[0];
        if i > 0 && j > 0 {
            assert(text_before(s[0], s[i]));
            assert(text_before(t[0], t[j]));
            lemma_text_before_transitive(s[0], t[0], s[0]);
            lemma_text_before_irreflexive(s[0]);
        }
        assert(s[0] == t[0]);
        let s1 = s.drop_first();
        let t1 = t.drop_first();
        assert(is_normalized(s1)) by {
            assert forall|a: int, b: int| 0 <= a < b < s1.len() implies text_before(
                #[trigger] s1[a],
                #[trigger] s1[b],
            ) by {
                assert(text_before(s[a + 1], s[b + 1]));
            }
        }
        assert(is_normalized(t1)) by {
            assert forall|a: int, b: int| 0 <= a < b < t1.len() implies text_before(
                #[trigger] t1[a],
                #[trigger] t1[b],
            ) by {
                assert(text_before(t[a + 1], t[b + 1]));
            }
        }
        assert forall|x: Seq<char>| s1.contains(x) <==> t1.contains(x) by {
            lemma_text_before_irreflexive(x);
            if s1.contains(x) {
                let a = choose|a: int| 0 <= a < s1.len() && s1[a] == x;
                assert(s[a + 1] == x);
                assert(text_before(s[0], s[a + 1]));
                assert(s.contains(x));
                assert(s.to_set().contains(x));
                assert(t.contains(x));
                let b = choose|b: int| 0 <= b < t.len() && t[b] == x;
                assert(b > 0);
                assert(t1[b - 1] == x);
            }
            if t1.contains(x) {
                let b = choose|b: int| 0 <= b < t1.len() && t1[b] == x;
                assert(t[b + 1] == x);
                assert(text_before(t[0], t[b + 1]));
                assert(t.contains(x));
                assert(t.to_set().contains(x));
                assert(s.contains(x));
                let a = choose|a: int| 0 <= a < s.len() && s[a] == x;
                assert(a > 0);
                assert(s1[a - 1] == x);
            }
        }
        assert(s1.to_set() =~= t1.to_set());
        lemma_normal_form_unique(s1, t1);
        assert(s =~= seq![s[0]] + s1);
        assert(t =~= seq![t[0]] + t1);
    }
}

/// The order in which scopes are requested, and how often each is named,
/// does not matter: requests naming the same scopes have the same normal
/// form.
pub proof fn lemma_scope_order_irrelevant(
    a: Seq<Seq<char>>,
    b: Seq<Seq<char>>,
    key_a: Seq<Seq<char>>,
    key_b: Seq<Seq<char>>,
)
    requires
        a.to_set() == b.to_set(),
        is_normal_form_of(key_a, a),
        is_normal_form_of(key_b, b),
    ensures
        key_a == key_b,
{
    lemma_normal_form_unique(key_a, key_b);
}

/// The ascending sequence `key` with `name` put in its place, unless it is
/// a member already.
spec fn with_name(key: Seq<Seq<char>>, name: Seq<char>) -> Seq<Seq<char>>
    decreases key.len(),
{
    if key.len() == 0 {
        seq![name]
    } else if key.last() == name {
        key
    } else if text_before(key.last(), name) {
        key.push(name)
    } else {
        with_name(key.drop_last(), name).push(key.last())
    }
}

proof fn lemma_with_name(key: Seq<Seq<char>>, name: Seq<char>)
    requires
        is_normalized(key),
    ensures
        is_normalized(with_name(key, name)),
        forall|x: Seq<char>|
            #![trigger with_name(key, name).contains(x)]
            #![trigger key.contains(x)]
            with_name(key, name).contains(x) <==> (key.contains(x) || x == name),
        forall|x: Seq<char>|
            (forall|i: int| 0 <= i < key.len() ==> text_before(#[trigger] key[i], x)) && text_before(
                name,
                x,
            ) ==> (forall|i: int|
                0 <= i < with_name(key, name).len() ==> text_before(
                    #[trigger] with_name(key, name)[i],
                    x,
                )),
    decreases key.len(),
{
    let out = with_name(key, name);
    if key.len() == 0 {
        assert(out[0] == name);
    } else if key.last() == name {
        assert(key[key.len() - 1] == name);
    } else if text_before(key.last(), name) {
        assert forall|i: int, j: int| 0 <= i < j < out.len() implies text_before(
            #[trigger] out[i],
            #[trigger] out[j],
        ) by {
            if j < key.len() {
                assert(text_before(key[i], key[j]));
            } else if i < key.len() - 1 {
                assert(text_before(key[i], key[key.len() - 1]));
                lemma_text_before_transitive(key[i], key.last(), name);
            }
        }
        assert forall|x: Seq<char>| out.contains(x) <==> (key.contains(x) || x == name) by {
            if out.contains(x) {
                let k = choose|k: int| 0 <= k < out.len() && out[k] == x;
                if k < key.len() {
                    assert(key[k] == x);
                }
            }
            if key.contains(x) {
                let k = choose|k: int| 0 <= k < key.len() && key[k] == x;
                assert(out[k] == x);
            }
            if x == name {
                assert(out[key.len() as int] == x);
            }
        }
    } else {
        let rest = key.drop_last();
        let last = key.last();
        assert(is_normalized(rest)) by {
            assert forall|a: int, b: int| 0 <= a < b < rest.len() implies text_before(
                #[trigger] rest[a],
                #[trigger] rest[b],
            ) by {
                assert(text_before(key[a], key[b]));
            }
        }
        lemma_with_name(rest, name);
        lemma_text_before_total(last, name);
        let inner = with_name(rest, name);
        assert forall|i: int| 0 <= i < rest.len() implies text_before(#[trigger] rest[i], last) by {
            assert(text_before(key[i], key[key.len() - 1]));
        }
        assert forall|i: int| 0 <= i < inner.len() implies text_before(#[trigger] inner[i], last) by {}
        assert forall|i: int, j: int| 0 <= i < j < out.len() implies text_before(
            #[trigger] out[i],
            #[trigger] out[j],
        ) by {
            if j < inner.len() {
                assert(text_before(inner[i], inner[j]));
            } else {
                assert(text_before(inner[i], last));
            }
        }
        assert forall|x: Seq<char>| out.contains(x) <==> (key.contains(x) || x == name) by {
            if out.contains(x) {
                let k = choose|k: int| 0 <= k < out.len() && out[k] == x;
                if k < inner.len() {
                    assert(inner.contains(x));
                    if rest.contains(x) {
                        let m = choose|m: int| 0 <= m < rest.len() && rest[m] == x;
                        assert(key[m] == x);
                    }
                } else {
                    assert(key[key.len() - 1] == x);
                }
            }
            if key.contains(x) {
                let k = choose|k: int| 0 <= k < key.len() && key[k] == x;
                if k < rest.len() {
                    assert(rest[k] == x);
                    assert(rest.contains(x));
                    assert(inner.contains(x));
                    let m = choose|m: int| 0 <= m < inner.len() && inner[m] == x;
                    assert(out[m] == x);
                } else {
                    assert(out[inner.len() as int] == x);
                }
            }
            if x == name {
                assert(inner.contains(x));
                let m = choose|m: int| 0 <= m < inner.len() && inner[m] == x;
                assert(out[m] == x);
            }
        }
        assert forall|x: Seq<char>|
            (forall|i: int| 0 <= i < key.len() ==> text_before(#[trigger] key[i], x)) && text_before(
                name,
                x,
            ) implies (forall|i: int|
            0 <= i < out.len() ==> text_before(#[trigger] out[i], x)) by {
            assert forall|i: int| 0 <= i < rest.len() implies text_before(#[trigger] rest[i], x) by {
                assert(text_before(key[i], x));
            }
            assert(text_before(key[key.len() - 1], x));
        }
    }
}

/// Every request has a normal form.
pub proof fn lemma_normal_form_exists(scopes: Seq<Seq<char>>)
    ensures
        is_normal_form_of(normal_form(scopes), scopes),
    decreases scopes.len(),
{
    if scopes.len() == 0 {
        let empty = Seq::<Seq<char>>::empty();
        assert(empty.to_set() =~= scopes.to_set());
        assert(is_normal_form_of(empty, scopes));
    } else {
        lemma_normal_form_exists(scopes.drop_last());
        let inner = normal_form(scopes.drop_last());
        lemma_with_name(inner, scopes.last());
        let key = with_name(inner, scopes.last());
        assert forall|x: Seq<char>| key.contains(x) <==> scopes.contains(x) by {
            if scopes.contains(x) {
                let k = choose|k: int| 0 <= k < scopes.len() && scopes[k] == x;
                if k < scopes.len() - 1 {
                    assert(scopes.drop_last()[k] == x);
                    assert(scopes.drop_last().contains(x));
                    assert(scopes.drop_last().to_set().contains(x));
                    assert(inner.to_set().contains(x));
                }
            }
            if inner.contains(x) {
                assert(inner.to_set().contains(x));
                assert(scopes.drop_last().to_set().contains(x));
                assert(scopes.drop_last().contains(x));
                let k = choose|k: int| 0 <= k < scopes.drop_last().len() && scopes.drop_last()[k] == x;
                assert(scopes[k] == x);
            }
            if x == scopes.last() {
                assert(scopes[scopes.len() - 1] == x);
            }
        }
        assert(key.to_set() =~= scopes.to_set());
        assert(is_normal_form_of(key, scopes));
    }
}

/// Where `name` stands in the ascending `names`: the index of the first
/// member that does not sort before it, and whether that member is `name`.
fn position(names: &Vec<String>, name: &str) -> (r: (usize, bool))
    requires
        is_normalized(owned_texts(names@)),
    ensures
        r.0 <= names.len(),
        forall|j: int| 0 <= j < r.0 ==> text_before(#[trigger] owned_texts(names@)[j], name@),
        r.1 ==> r.0 < names.len() && owned_texts(names@)[r.0 as int] == name@,
        !r.1 ==> forall|j: int|
            r.0 <= j < names.len() ==> text_before(name@, #[trigger] owned_texts(names@)[j]),
{
    let ghost all = owned_texts(names@);
    let mut p: usize = 0;
    while p < names.len()
        invariant
            p <= names.len(),
            all == owned_texts(names@),
            is_normalized(all),
            forall|j: int| 0 <= j < p ==> text_before(#[trigger] all[j], name@),
        decreases names.len() - p,
    {
        match rank_text(names[p].as_str(), name) {
            Rank::Before => {
                assert(all[p as int] == names@[p as int]@);
                p += 1;
            },
            Rank::Same => {
                assert(all[p as int] == names@[p as int]@);
                return (p, true);
            },
            Rank::After => {
                assert(all[p as int] == names@[p as int]@);
                assert forall|j: int| p <= j < names.len() implies text_before(
                    name@,
                    #[trigger] all[j],
                ) by {
                    if j > p {
                        assert(text_before(all[p as int], all[j]));
                        lemma_text_before_transitive(name@, all[p as int], all[j]);
                    }
                }
                return (p, false);
            },
        }
    }
    (p, false)
}

/// Adds `name` to the ascending `names` unless it is there already.
fn insert_name(names: &mut Vec<String>, name: &str)
    requires
        is_normalized(owned_texts(old(names)@)),
    ensures
        is_normalized(owned_texts(final(names)@)),
        owned_texts(final(names)@).to_set() == owned_texts(old(names)@).to_set().insert(name@),
{
    let ghost before = owned_texts(names@);
    let (p, found) = position(names, name);
    if found {
        assert(before.contains(name@));
        assert(before.to_set().insert(name@) =~= before.to_set());
    } else {
        names.insert(p, name.to_owned());
        let ghost after = owned_texts(names@);
        assert(after =~= before.insert(p as int, name@));
        assert forall|i: int, j: int| 0 <= i < j < after.len() implies text_before(
            #[trigger] after[i],
            #[trigger] after[j],
        ) by {
            if j < p {
                assert(text_before(before[i], before[j]));
            } else if j == p {
                assert(text_before(before[i], name@));
            } else if i < p {
                assert(text_before(before[i], before[j - 1]));
            } else if i == p {
                assert(text_before(name@, before[j - 1]));
            } else {
                assert(text_before(before[i - 1], before[j - 1]));
            }
        }
        assert forall|x: Seq<char>| after.contains(x) <==> (before.contains(x) || x == name@) by {
            if after.contains(x) {
                let k = choose|k: int| 0 <= k < after.len() && after[k] == x;
                if k < p {
                    assert(before[k] == x);
                } else if k > p {
                    assert(before[k - 1] == x);
                }
            }
            if before.contains(x) {
                let k = choose|k: int| 0 <= k < before.len() && before[k] == x;
                if k < p {
                    assert(after[k] == x);
                } else {
                    assert(after[k + 1] == x);
                }
            }
            if x == name@ {
                assert(after[p as int] == x);
            }
        }
        assert(after.to_set() =~= before.to_set().insert(name@));
    }
}

/// A set of scopes in normal form: the key under which tokens are cached.
#[derive(Debug)]
pub struct ScopeSet {
    names: Vec<String>,
}

impl View for ScopeSet {
    type V = Seq<Seq<char>>;

    /// The scopes of the set, in ascending order.
    closed spec fn view(&self) -> Seq<Seq<char>> {
        owned_texts(self.names@)
    }
}

impl ScopeSet {
    #[verifier::type_invariant]
    spec fn ascending(&self) -> bool {
        is_normalized(owned_texts(self.names@))
    }

    /// Normalises the requested scopes: the result names exactly the scopes
    /// requested, each once, in ascending order.
    pub fn new(scopes: &[&str]) -> (key: ScopeSet)
        ensures
            is_normal_form_of(key@, texts(scopes@)),
            key@ == normal_form(texts(scopes@)),
    {
        let mut names: Vec<String> = Vec::new();
        let ghost all = texts(scopes@);
        assert(owned_texts(names@).to_set() =~= all.take(0).to_set());
        let mut i: usize = 0;
        while i < scopes.len()
            invariant
                i <= scopes.len(),
                all == texts(scopes@),
                is_normalized(owned_texts(names@)),
                owned_texts(names@).to_set() == all.take(i as int).to_set(),
            decreases scopes.len() - i,
        {
            insert_name(&mut names, scopes[i]);
            proof {
                let next = all.take(i + 1);
                assert(next =~= all.take(i as int).push(scopes@[i as int]@));
                all.take(i as int).lemma_push_to_set_commute(scopes@[i as int]@);
            }
            i += 1;
        }
        assert(all.take(i as int) =~= all);
        proof {
            assert(is_normal_form_of(owned_texts(names@), all));
            lemma_normal_form_unique(owned_texts(names@), normal_form(all));
        }
        ScopeSet { names }
    }

    /// The number of distinct scopes in the set.
    pub fn len(&self) -> (n: usize)
        ensures
            n == self@.len(),
    {
        self.names.len()
    }

    /// The scope at position `i` of the ascending order.
    pub fn get(&self, i: usize) -> (scope: &str)
        requires
            i < self@.len(),
        ensures
            scope@ == self@[i as int],
    {
        self.names[i].as_str()
    }

    /// Whether `scope` is a member of the set.
    pub fn contains(&self, scope: &str) -> (found: bool)
        ensures
            found == self@.contains(scope@),
    {
        proof {
            use_type_invariant(self);
        }
        let (p, found) = position(&self.names, scope);
        proof {
            if !found {
                assert forall|j: int| 0 <= j < self@.len() implies self@[j] != scope@ by {
                    lemma_text_before_irreflexive(scope@);
                }
            }
        }
        found
    }

    /// Whether two scope sets name the same scopes.
    pub fn same(&self, other: &ScopeSet) -> (equal: bool)
        ensures
            equal == (self@ == other@),
    {
        if self.names.len() != other.names.len() {
            assert(self@.len() != other@.len());
            return false;
        }
        let mut i: usize = 0;
        while i < self.names.len()
            invariant
                i <= self.names.len(),
                self.names.len() == other.names.len(),
                forall|j: int| 0 <= j < i ==> self@[j] == other@[j],
            decreases self.names.len() - i,
        {
            if self.names[i] != other.names[i] {
                assert(self@[i as int] != other@[i as int]);
                return false;
            }
            i += 1;
        }
        assert(self@ =~= other@);
        true
    }

    /// An independent copy of the set.
    pub fn duplicate(&self) -> (copy: ScopeSet)
        ensures
            copy@ == self@,
    {
        proof {
            use_type_invariant(self);
        }
        let mut names: Vec<String> = Vec::new();
        let mut i: usize = 0;
        while i < self.names.len()
            invariant
                i <= self.names.len(),
                names.len() == i,
                forall|j: int| 0 <= j < i ==> names@[j]@ == self.names@[j]@,
            decreases self.names.len() - i,
        {
            names.push(self.names[i].clone());
            i += 1;
        }
        assert(owned_texts(names@) =~= owned_texts(self.names@));
        ScopeSet { names }
    }
}

} // verus!
