//! The lexicographic order on texts (by code point), and insertion into
//! sequences kept strictly sorted by it.
use crate::model::{names, Address, AddressKey, ModuleId, ModuleKey, Named};
use vstd::prelude::*;

verus! {

/// Whether `a` comes strictly before `b`, comparing code points from the left.
pub open spec fn text_lt(a: Seq<char>, b: Seq<char>) -> bool
    decreases a.len(),
{
    if a.len() == 0 {
        b.len() > 0
    } else if b.len() == 0 {
        false
    } else if a[0] != b[0] {
        (a[0] as int) < (b[0] as int)
    } else {
        text_lt(a.drop_first(), b.drop_first())
    }
}

/// Whether every text comes strictly before each later one.
pub open spec fn strictly_sorted(s: Seq<Seq<char>>) -> bool {
    forall|i: int, j: int| 0 <= i < j < s.len() ==> text_lt(#[trigger] s[i], #[trigger] s[j])
}

pub proof fn lemma_text_lt_irreflexive(a: Seq<char>)
    ensures
        !text_lt(a, a),
    decreases a.len(),
{
    if a.len() > 0 {
        lemma_text_lt_irreflexive(a.drop_first());
    }
}

pub proof fn lemma_text_lt_transitive(a: Seq<char>, b: Seq<char>, c: Seq<char>)
    requires
        text_lt(a, b),
        text_lt(b, c),
    ensures
        text_lt(a, c),
    decreases a.len(),
{
    if a.len() > 0 && b.len() > 0 && c.len() > 0 {
        if a[0] == b[0] && b[0] == c[0] {
            lemma_text_lt_transitive(a.drop_first(), b.drop_first(), c.drop_first());
        }
    }
}

pub proof fn lemma_text_lt_total(a: Seq<char>, b: Seq<char>)
    ensures
        a == b || text_lt(a, b) || text_lt(b, a),
    decreases a.len(),
{
    if a.len() > 0 && b.len() > 0 {
        if a[0] != b[0] {
            assert((a[0] as int) != (b[0] as int));
        } else {
            lemma_text_lt_total(a.drop_first(), b.drop_first());
            if a.drop_first() == b.drop_first() {
                assert(a =~= seq![a[0]] + a.drop_first());
                assert(b =~= seq![b[0]] + b.drop_first());
            }
        }
    } else if a.len() == 0 && b.len() == 0 {
        assert(a =~= b);
    }
}

/// Whether two texts are in order, compared by code point.
pub fn text_less(a: &String, b: &String) -> (r: bool)
    ensures
        r == text_lt(a@, b@),
{
    let sa = a.as_str();
    let sb = b.as_str();
    let la = sa.unicode_len();
    let lb = sb.unicode_len();
    assert(a@.skip(0) =~= a@ && b@.skip(0) =~= b@);
    let mut i: usize = 0;
    while i < la && i < lb
        invariant
            i <= la,
            i <= lb,
            la == a@.len(),
            lb == b@.len(),
            sa@ == a@,
            sb@ == b@,
            text_lt(a@, b@) == text_lt(a@.skip(i as int), b@.skip(i as int)),
        decreases la - i,
    {
        let ca = sa.get_char(i);
        let cb = sb.get_char(i);
        let ghost ra = a@.skip(i as int);
        let ghost rb = b@.skip(i as int);
        assert(ra[0] == ca && rb[0] == cb);
        if ca != cb {
            return (ca as u32) < (cb as u32);
        }
        assert(ra.drop_first() =~= a@.skip(i + 1));
        assert(rb.drop_first() =~= b@.skip(i + 1));
        i = i + 1;
    }
    i < lb
}

/// `s` with `x` inserted in its place, unless a text equal to `x` is present.
pub open spec fn insert_text(s: Seq<Seq<char>>, x: Seq<char>) -> Seq<Seq<char>>
    decreases s.len(),
{
    if s.len() == 0 {
        seq![x]
    } else if text_lt(s[0], x) {
        seq![s[0]] + insert_text(s.drop_first(), x)
    } else if s[0] == x {
        s
    } else {
        seq![x] + s
    }
}

/// The texts of `s`, sorted, each once.
pub open spec fn sort_texts(s: Seq<Seq<char>>) -> Seq<Seq<char>>
    decreases s.len(),
{
    if s.len() == 0 {
        s
    } else {
        insert_text(sort_texts(s.drop_last()), s.last())
    }
}

/// `s` with `x` inserted in name order, unless an entry of that name is present.
pub open spec fn insert_by_name<T: Named>(s: Seq<T>, x: T) -> Seq<T>
    decreases s.len(),
{
    if s.len() == 0 {
        seq![x]
    } else if text_lt(s[0].key(), x.key()) {
        seq![s[0]] + insert_by_name(s.drop_first(), x)
    } else if s[0].key() == x.key() {
        s
    } else {
        seq![x] + s
    }
}

pub proof fn lemma_insert_text(s: Seq<Seq<char>>, x: Seq<char>)
    requires
        strictly_sorted(s),
    ensures
        strictly_sorted(insert_text(s, x)),
        forall|y: Seq<char>| insert_text(s, x).contains(y) <==> (s.contains(y) || y == x),
    decreases s.len(),
{
    let r = insert_text(s, x);
    if s.len() == 0 {
        assert(r =~= seq![x]);
        assert forall|y: Seq<char>| r.contains(y) <==> (s.contains(y) || y == x) by {
            if r.contains(y) {
                assert(r[0] == y);
            }
            if y == x {
                assert(r[0] == y);
            }
        }
    } else {
        let t = s.drop_first();
        assert(strictly_sorted(t)) by {
            assert forall|i: int, j: int| 0 <= i < j < t.len() implies text_lt(t[i], t[j]) by {
                assert(t[i] == s[i + 1] && t[j] == s[j + 1]);
            }
        }
        assert forall|y: Seq<char>| s.contains(y) <==> (y == s[0] || t.contains(y)) by {
            if s.contains(y) {
                let k = choose|k: int| 0 <= k < s.len() && s[k] == y;
                if k > 0 {
                    assert(t[k - 1] == y);
                }
            }
            if t.contains(y) {
                let k = choose|k: int| 0 <= k < t.len() && t[k] == y;
                assert(s[k + 1] == y);
            }
            if y == s[0] {
                assert(s.contains(y));
            }
        }
        if text_lt(s[0], x) {
            lemma_insert_text(t, x);
            let u = insert_text(t, x);
            assert(r == seq![s[0]] + u);
            assert forall|y: Seq<char>| r.contains(y) <==> (y == s[0] || u.contains(y)) by {
                if r.contains(y) {
                    let k = choose|k: int| 0 <= k < r.len() && r[k] == y;
                    if k > 0 {
                        assert(u[k - 1] == y);
                    }
                }
                if u.contains(y) {
                    let k = choose|k: int| 0 <= k < u.len() && u[k] == y;
                    assert(r[k + 1] == y);
                }
                if y == s[0] {
                    assert(r[0] == y);
                }
            }
            assert forall|i: int, j: int| 0 <= i < j < r.len() implies text_lt(r[i], r[j]) by {
                if i == 0 {
                    assert(r[j] == u[j - 1]);
                    assert(u.contains(u[j - 1]));
                    if u[j - 1] != x {
                        assert(t.contains(u[j - 1]));
                        let k = choose|k: int| 0 <= k < t.len() && t[k] == u[j - 1];
                        assert(s[k + 1] == u[j - 1]);
                    }
                } else {
                    assert(r[i] == u[i - 1] && r[j] == u[j - 1]);
                }
            }
        } else if s[0] == x {
        } else {
            lemma_text_lt_total(s[0], x);
            assert(r == seq![x] + s);
            assert forall|y: Seq<char>| r.contains(y) <==> (s.contains(y) || y == x) by {
                if r.contains(y) {
                    let k = choose|k: int| 0 <= k < r.len() && r[k] == y;
                    if k > 0 {
                        assert(s[k - 1] == y);
                    }
                }
                if s.contains(y) {
                    let k = choose|k: int| 0 <= k < s.len() && s[k] == y;
                    assert(r[k + 1] == y);
                }
                if y == x {
                    assert(r[0] == y);
                }
            }
            assert forall|i: int, j: int| 0 <= i < j < r.len() implies text_lt(r[i], r[j]) by {
                if i == 0 {
                    assert(r[j] == s[j - 1]);
                    if j - 1 > 0 {
                        lemma_text_lt_transitive(x, s[0], s[j - 1]);
                    }
                } else {
                    assert(r[i] == s[i - 1] && r[j] == s[j - 1]);
                }
            }
        }
    }
}

/// Sorting yields a strictly sorted sequence of exactly the texts given.
pub proof fn lemma_sort_texts(s: Seq<Seq<char>>)
    ensures
        strictly_sorted(sort_texts(s)),
        forall|y: Seq<char>| sort_texts(s).contains(y) <==> s.contains(y),
    decreases s.len(),
{
    if s.len() > 0 {
        let p = s.drop_last();
        lemma_sort_texts(p);
        lemma_insert_text(sort_texts(p), s.last());
        assert forall|y: Seq<char>| s.contains(y) <==> (p.contains(y) || y == s.last()) by {
            if s.contains(y) {
                let k = choose|k: int| 0 <= k < s.len() && s[k] == y;
                if k < p.len() {
                    assert(p[k] == y);
                }
            }
            if p.contains(y) {
                let k = choose|k: int| 0 <= k < p.len() && p[k] == y;
                assert(s[k] == y);
            }
            if y == s.last() {
                assert(s[s.len() - 1] == y);
            }
        }
    }
}

pub proof fn lemma_sort_texts_push(s: Seq<Seq<char>>, x: Seq<char>)
    ensures
        sort_texts(s.push(x)) == insert_text(sort_texts(s), x),
{
    assert(s.push(x).drop_last() =~= s);
}

pub proof fn lemma_insert_by_name_names<T: Named>(s: Seq<T>, x: T)
    ensures
        names(insert_by_name(s, x)) == insert_text(names(s), x.key()),
    decreases s.len(),
{
    if s.len() > 0 {
        lemma_insert_by_name_names(s.drop_first(), x);
        assert(names(s).drop_first() =~= names(s.drop_first()));
        assert(names(s)[0] == s[0].key());
        if text_lt(s[0].key(), x.key()) {
            assert(names(insert_by_name(s, x)) =~= seq![s[0].key()] + names(
                insert_by_name(s.drop_first(), x),
            ));
        } else if s[0].key() == x.key() {
        } else {
            assert(names(insert_by_name(s, x)) =~= seq![x.key()] + names(s));
        }
    } else {
        assert(names(insert_by_name(s, x)) =~= seq![x.key()]);
    }
}

proof fn lemma_insert_by_name_prefix<T: Named>(s: Seq<T>, x: T, k: int)
    requires
        0 <= k <= s.len(),
        forall|j: int| 0 <= j < k ==> text_lt(#[trigger] s[j].key(), x.key()),
    ensures
        insert_by_name(s, x) == s.take(k) + insert_by_name(s.skip(k), x),
    decreases k,
{
    if k == 0 {
        assert(s.take(0) + insert_by_name(s.skip(0), x) =~= insert_by_name(s, x)) by {
            assert(s.skip(0) =~= s);
        }
    } else {
        let t = s.drop_first();
        assert forall|j: int| 0 <= j < k - 1 implies text_lt(#[trigger] t[j].key(), x.key()) by {
            assert(t[j] == s[j + 1]);
        }
        lemma_insert_by_name_prefix(t, x, k - 1);
        assert(text_lt(s[0].key(), x.key()));
        assert(t.skip(k - 1) =~= s.skip(k));
        assert(seq![s[0]] + t.take(k - 1) =~= s.take(k));
        assert(s.take(k) + insert_by_name(s.skip(k), x) =~= seq![s[0]] + (t.take(k - 1)
            + insert_by_name(t.skip(k - 1), x)));
    }
}

/// Inserts `x` into `out`, which is kept in name order, unless an entry of
/// that name is present.
pub fn insert_named<T: Named>(out: &mut Vec<T>, x: T)
    ensures
        final(out)@ == insert_by_name(old(out)@, x),
{
    let ghost s = out@;
    let mut p: usize = 0;
    while p < out.len() && text_less(out[p].name(), x.name())
        invariant
            p <= out.len(),
            out@ == s,
            forall|j: int| 0 <= j < p ==> text_lt(#[trigger] s[j].key(), x.key()),
        decreases out.len() - p,
    {
        p = p + 1;
    }
    proof {
        lemma_insert_by_name_prefix(s, x, p as int);
        if p < s.len() {
            assert(s.skip(p as int)[0] == s[p as int]);
            assert(s.skip(p as int).drop_first() =~= s.skip(p + 1));
        }
    }
    if p < out.len() && *out[p].name() == *x.name() {
        assert(s.take(p as int) + s.skip(p as int) =~= s);
        return;
    }
    out.insert(p, x);
    assert(out@ =~= s.take(p as int) + (seq![x] + s.skip(p as int)));
}

/// The order of addresses: numeric ones first, by value, then named ones by name.
pub open spec fn address_lt(a: AddressKey, b: AddressKey) -> bool {
    match (a, b) {
        (AddressKey::Numerical(x), AddressKey::Numerical(y)) => x.high < y.high || (x.high
            == y.high && x.low < y.low),
        (AddressKey::Numerical(_), AddressKey::Named(_)) => true,
        (AddressKey::Named(_), AddressKey::Numerical(_)) => false,
        (AddressKey::Named(m), AddressKey::Named(n)) => text_lt(m, n),
    }
}

/// The order of module identities: by address, then by name.
pub open spec fn module_lt(a: ModuleKey, b: ModuleKey) -> bool {
    address_lt(a.address, b.address) || (a.address == b.address && text_lt(a.module, b.module))
}

pub proof fn lemma_module_lt_irreflexive(a: ModuleKey)
    ensures
        !module_lt(a, a),
{
    lemma_text_lt_irreflexive(a.module);
    if let AddressKey::Named(n) = a.address {
        lemma_text_lt_irreflexive(n);
    }
}

pub proof fn lemma_module_lt_transitive(a: ModuleKey, b: ModuleKey, c: ModuleKey)
    requires
        module_lt(a, b),
        module_lt(b, c),
    ensures
        module_lt(a, c),
{
    if let (AddressKey::Named(x), AddressKey::Named(y), AddressKey::Named(z)) = (
        a.address,
        b.address,
        c.address,
    ) {
        if text_lt(x, y) && text_lt(y, z) {
            lemma_text_lt_transitive(x, y, z);
        }
    }
    if a.address == b.address && b.address == c.address && text_lt(a.module, b.module) && text_lt(
        b.module,
        c.module,
    ) {
        lemma_text_lt_transitive(a.module, b.module, c.module);
    }
}

pub proof fn lemma_module_lt_total(a: ModuleKey, b: ModuleKey)
    ensures
        a == b || module_lt(a, b) || module_lt(b, a),
{
    lemma_text_lt_total(a.module, b.module);
    if let (AddressKey::Named(x), AddressKey::Named(y)) = (a.address, b.address) {
        lemma_text_lt_total(x, y);
    }
}

/// Whether two modules are in identity order.
pub fn module_less(a: &ModuleId, b: &ModuleId) -> (r: bool)
    ensures
        r == module_lt(a@, b@),
{
    let address_before = match (&a.address, &b.address) {
        (Address::Numerical { value: x, .. }, Address::Numerical { value: y, .. }) => x.high
            < y.high || (x.high == y.high && x.low < y.low),
        (Address::Numerical { .. }, Address::NamedUnassigned(_)) => true,
        (Address::NamedUnassigned(_), Address::Numerical { .. }) => false,
        (Address::NamedUnassigned(m), Address::NamedUnassigned(n)) => text_less(m, n),
    };
    address_before || (a.address.same(&b.address) && text_less(&a.module, &b.module))
}

/// Whether every module identity comes strictly before each later one.
pub open spec fn modules_sorted(s: Seq<ModuleId>) -> bool {
    forall|i: int, j: int| 0 <= i < j < s.len() ==> module_lt(#[trigger] s[i]@, #[trigger] s[j]@)
}

/// Whether a module of identity `k` is among `s`.
pub open spec fn holds_module(s: Seq<ModuleId>, k: ModuleKey) -> bool {
    exists|i: int| 0 <= i < s.len() && #[trigger] s[i]@ == k
}

/// `s` with `x` inserted in identity order, unless a module of that identity
/// is present.
pub open spec fn insert_module(s: Seq<ModuleId>, x: ModuleId) -> Seq<ModuleId>
    decreases s.len(),
{
    if s.len() == 0 {
        seq![x]
    } else if module_lt(s[0]@, x@) {
        seq![s[0]] + insert_module(s.drop_first(), x)
    } else if s[0]@ == x@ {
        s
    } else {
        seq![x] + s
    }
}

/// The modules of `s` in identity order, the first of each identity kept.
pub open spec fn sort_modules(s: Seq<ModuleId>) -> Seq<ModuleId>
    decreases s.len(),
{
    if s.len() == 0 {
        s
    } else {
        insert_module(sort_modules(s.drop_last()), s.last())
    }
}

proof fn lemma_holds_cons(h: ModuleId, t: Seq<ModuleId>)
    ensures
        forall|k: ModuleKey| holds_module(seq![h] + t, k) <==> (h@ == k || holds_module(t, k)),
{
    let s = seq![h] + t;
    assert forall|k: ModuleKey| holds_module(s, k) <==> (h@ == k || holds_module(t, k)) by {
        if holds_module(s, k) {
            let i = choose|i: int| 0 <= i < s.len() && #[trigger] s[i]@ == k;
            if i > 0 {
                assert(t[i - 1]@ == k);
            }
        }
        if holds_module(t, k) {
            let i = choose|i: int| 0 <= i < t.len() && #[trigger] t[i]@ == k;
            assert(s[i + 1]@ == k);
        }
        if h@ == k {
            assert(s[0]@ == k);
        }
    }
}

pub proof fn lemma_insert_module(s: Seq<ModuleId>, x: ModuleId)
    requires
        modules_sorted(s),
    ensures
        modules_sorted(insert_module(s, x)),
        forall|k: ModuleKey| holds_module(insert_module(s, x), k) <==> (holds_module(s, k) || k == x@),
    decreases s.len(),
{
    let r = insert_module(s, x);
    if s.len() == 0 {
        lemma_holds_cons(x, s);
        assert(r =~= seq![x] + s);
        assert forall|k: ModuleKey| holds_module(r, k) <==> (holds_module(s, k) || k == x@) by {
            assert(!holds_module(s, k));
        }
    } else {
        let t = s.drop_first();
        assert(s =~= seq![s[0]] + t);
        lemma_holds_cons(s[0], t);
        assert(modules_sorted(t)) by {
            assert forall|i: int, j: int| 0 <= i < j < t.len() implies module_lt(
                #[trigger] t[i]@,
                #[trigger] t[j]@,
            ) by {
                assert(t[i] == s[i + 1] && t[j] == s[j + 1]);
            }
        }
        if module_lt(s[0]@, x@) {
            lemma_insert_module(t, x);
            let u = insert_module(t, x);
            assert(r == seq![s[0]] + u);
            lemma_holds_cons(s[0], u);
            assert forall|k: ModuleKey| holds_module(r, k) <==> (holds_module(s, k) || k == x@) by {
                assert(holds_module(r, k) <==> (s[0]@ == k || holds_module(u, k)));
                assert(holds_module(s, k) <==> (s[0]@ == k || holds_module(t, k)));
            }
            assert forall|i: int, j: int| 0 <= i < j < r.len() implies module_lt(
                #[trigger] r[i]@,
                #[trigger] r[j]@,
            ) by {
                if i == 0 {
                    assert(r[j] == u[j - 1]);
                    assert(holds_module(u, u[j - 1]@));
                    if u[j - 1]@ != x@ {
                        assert(holds_module(t, u[j - 1]@));
                        let k = choose|k: int| 0 <= k < t.len() && #[trigger] t[k]@ == u[j - 1]@;
                        assert(s[k + 1] == t[k]);
                    }
                } else {
                    assert(r[i] == u[i - 1] && r[j] == u[j - 1]);
                }
            }
        } else if s[0]@ == x@ {
            assert(holds_module(s, x@)) by {
                assert(s[0]@ == x@);
            }
        } else {
            lemma_module_lt_total(s[0]@, x@);
            assert(r == seq![x] + s);
            lemma_holds_cons(x, s);
            assert forall|i: int, j: int| 0 <= i < j < r.len() implies module_lt(
                #[trigger] r[i]@,
                #[trigger] r[j]@,
            ) by {
                if i == 0 {
                    assert(r[j] == s[j - 1]);
                    if j - 1 > 0 {
                        lemma_module_lt_transitive(x@, s[0]@, s[j - 1]@);
                    }
                } else {
                    assert(r[i] == s[i - 1] && r[j] == s[j - 1]);
                }
            }
        }
    }
}

/// Sorting yields modules strictly in identity order, with exactly the
/// identities given.
pub proof fn lemma_sort_modules(s: Seq<ModuleId>)
    ensures
        modules_sorted(sort_modules(s)),
        forall|k: ModuleKey| holds_module(sort_modules(s), k) <==> holds_module(s, k),
    decreases s.len(),
{
    if s.len() > 0 {
        let p = s.drop_last();
        lemma_sort_modules(p);
        lemma_insert_module(sort_modules(p), s.last());
        assert forall|k: ModuleKey| holds_module(s, k) <==> (holds_module(p, k) || k == s.last()@) by {
            if holds_module(s, k) {
                let i = choose|i: int| 0 <= i < s.len() && #[trigger] s[i]@ == k;
                if i < p.len() {
                    assert(p[i]@ == k);
                }
            }
            if holds_module(p, k) {
                let i = choose|i: int| 0 <= i < p.len() && #[trigger] p[i]@ == k;
                assert(s[i]@ == k);
            }
            if k == s.last()@ {
                assert(s[s.len() - 1]@ == k);
            }
        }
    }
}

pub proof fn lemma_sort_modules_push(s: Seq<ModuleId>, x: ModuleId)
    ensures
        sort_modules(s.push(x)) == insert_module(sort_modules(s), x),
{
    assert(s.push(x).drop_last() =~= s);
}

proof fn lemma_insert_module_prefix(s: Seq<ModuleId>, x: ModuleId, k: int)
    requires
        0 <= k <= s.len(),
        forall|j: int| 0 <= j < k ==> module_lt(#[trigger] s[j]@, x@),
    ensures
        insert_module(s, x) == s.take(k) + insert_module(s.skip(k), x),
    decreases k,
{
    if k == 0 {
        assert(s.skip(0) =~= s);
        assert(s.take(0) + insert_module(s.skip(0), x) =~= insert_module(s, x));
    } else {
        let t = s.drop_first();
        assert forall|j: int| 0 <= j < k - 1 implies module_lt(#[trigger] t[j]@, x@) by {
            assert(t[j] == s[j + 1]);
        }
        lemma_insert_module_prefix(t, x, k - 1);
        assert(module_lt(s[0]@, x@));
        assert(t.skip(k - 1) =~= s.skip(k));
        assert(seq![s[0]] + t.take(k - 1) =~= s.take(k));
        assert(s.take(k) + insert_module(s.skip(k), x) =~= seq![s[0]] + (t.take(k - 1)
            + insert_module(t.skip(k - 1), x)));
    }
}

/// Inserts `x` into `out`, which is kept in identity order, unless a module
/// of that identity is present.
pub fn insert_module_sorted(out: &mut Vec<ModuleId>, x: ModuleId)
    ensures
        final(out)@ == insert_module(old(out)@, x),
{
    let ghost s = out@;
    let mut p: usize = 0;
    while p < out.len() && module_less(&out[p], &x)
        invariant
            p <= out.len(),
            out@ == s,
            forall|j: int| 0 <= j < p ==> module_lt(#[trigger] s[j]@, x@),
        decreases out.len() - p,
    {
        p = p + 1;
    }
    proof {
        lemma_insert_module_prefix(s, x, p as int);
        if p < s.len() {
            assert(s.skip(p as int)[0] == s[p as int]);
            assert(s.skip(p as int).drop_first() =~= s.skip(p + 1));
        }
    }
    if p < out.len() && out[p].same(&x) {
        assert(s.take(p as int) + s.skip(p as int) =~= s);
        return;
    }
    out.insert(p, x);
    assert(out@ =~= s.take(p as int) + (seq![x] + s.skip(p as int)));
}

} // verus!
