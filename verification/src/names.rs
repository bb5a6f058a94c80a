//! Display names that stay apart: a name already taken gets a number.
use vstd::prelude::*;
use vstd::set_lib::{lemma_int_range, lemma_len_subset, lemma_map_size, set_int_range};
use std::collections::BTreeMap;
use vstd::std_specs::btree::{increasing_seq, spec_btree_map_iter};
use vstd::std_specs::iter::IteratorSpec;
use crate::maps::lemma_keys_increase;
use crate::path::push_char;

verus! {

/// The digit character for `d` (`0` to `9`).
pub open spec fn digit_char(d: nat) -> char {
    if d == 0 {
        '0'
    } else if d == 1 {
        '1'
    } else if d == 2 {
        '2'
    } else if d == 3 {
        '3'
    } else if d == 4 {
        '4'
    } else if d == 5 {
        '5'
    } else if d == 6 {
        '6'
    } else if d == 7 {
        '7'
    } else if d == 8 {
        '8'
    } else {
        '9'
    }
}

/// `n` written in decimal, without leading zeros.
pub open spec fn decimal(n: nat) -> Seq<char>
    decreases n,
{
    if n < 10 {
        seq![digit_char(n)]
    } else {
        decimal(n / 10).push(digit_char(n % 10))
    }
}

/// The name for copy number `copies` of `base`: `base` itself for the first,
/// `base (copies)` for the others.
pub open spec fn numbered(base: Seq<char>, copies: nat) -> Seq<char> {
    if copies <= 1 {
        base
    } else {
        base + seq![' ', '('] + decimal(copies) + seq![')']
    }
}

/// `name` is the first of `base`, `base (2)`, `base (3)`, ... that is not in
/// `taken`.
pub open spec fn is_first_free(taken: Seq<Seq<char>>, base: Seq<char>, name: Seq<char>) -> bool {
    exists|c: nat|
        c >= 1 && name == numbered(base, c) && !taken.contains(name) && forall|k: nat|
            1 <= k < c ==> taken.contains(#[trigger] numbered(base, k))
}

/// The names in a list of (name, id) pairs.
pub open spec fn names_of<T>(list: Seq<(String, T)>) -> Seq<Seq<char>> {
    list.map_values(|p: (String, T)| p.0@)
}

proof fn lemma_digit_injective(a: nat, b: nat)
    requires
        a < 10,
        b < 10,
        digit_char(a) == digit_char(b),
    ensures
        a == b,
{
}

proof fn lemma_decimal_len(n: nat)
    ensures
        decimal(n).len() >= 1,
        decimal(n).len() == 1 <==> n < 10,
    decreases n,
{
    if n >= 10 {
        lemma_decimal_len(n / 10);
    }
}

/// Different numbers are written differently.
pub proof fn decimal_is_injective(a: nat, b: nat)
    requires
        decimal(a) == decimal(b),
    ensures
        a == b,
    decreases a,
{
    lemma_decimal_len(a);
    lemma_decimal_len(b);
    if a < 10 {
        assert(decimal(a)[0] == digit_char(a));
        assert(decimal(b)[0] == digit_char(b));
        lemma_digit_injective(a, b);
    } else {
        assert(decimal(a).last() == digit_char(a % 10));
        assert(decimal(b).last() == digit_char(b % 10));
        lemma_digit_injective(a % 10, b % 10);
        assert(decimal(a).drop_last() =~= decimal(a / 10));
        assert(decimal(b).drop_last() =~= decimal(b / 10));
        decimal_is_injective(a / 10, b / 10);
    }
}

/// Different copy numbers of one base name give different names.
pub proof fn numbered_is_injective(base: Seq<char>, a: nat, b: nat)
    requires
        a >= 1,
        b >= 1,
        numbered(base, a) == numbered(base, b),
    ensures
        a == b,
{
    lemma_decimal_len(a);
    lemma_decimal_len(b);
    if a >= 2 && b >= 2 {
        let na = numbered(base, a);
        let nb = numbered(base, b);
        let lo = base.len() + 2;
        assert(na.subrange(lo as int, na.len() - 1) =~= decimal(a));
        assert(nb.subrange(lo as int, nb.len() - 1) =~= decimal(b));
        decimal_is_injective(a, b);
    } else if a >= 2 {
        assert(numbered(base, a).len() > base.len());
    } else if b >= 2 {
        assert(numbered(base, b).len() > base.len());
    }
}

/// If the first `c` names of `base` are all taken, there are at least `c`
/// taken names.
proof fn lemma_taken_bound(taken: Seq<Seq<char>>, base: Seq<char>, c: nat)
    requires
        forall|k: nat| 1 <= k <= c ==> taken.contains(#[trigger] numbered(base, k)),
    ensures
        c <= taken.len(),
{
    let x = set_int_range(1, (c + 1) as int);
    lemma_int_range(1, (c + 1) as int);
    let f = |k: int| numbered(base, k as nat);
    let y = x.map(f);
    assert forall|i: int, j: int| x.contains(i) && x.contains(j) && #[trigger] f(i) == #[trigger] f(j) implies i == j by {
        numbered_is_injective(base, i as nat, j as nat);
    }
    lemma_map_size(x, y, f);
    let t = taken.to_set();
    assert forall|n: Seq<char>| y.contains(n) implies t.contains(n) by {
        let k = choose|k: int| x.contains(k) && f(k) == n;
        assert(taken.contains(numbered(base, k as nat)));
    }
    lemma_len_subset(y, t);
    taken.lemma_cardinality_of_set();
}

/// The digit character for `d`.
fn digit(d: usize) -> (c: char)
    requires
        d < 10,
    ensures
        c == digit_char(d as nat),
{
    if d == 0 {
        '0'
    } else if d == 1 {
        '1'
    } else if d == 2 {
        '2'
    } else if d == 3 {
        '3'
    } else if d == 4 {
        '4'
    } else if d == 5 {
        '5'
    } else if d == 6 {
        '6'
    } else if d == 7 {
        '7'
    } else if d == 8 {
        '8'
    } else {
        '9'
    }
}

/// Appends `n` in decimal to `s`.
fn push_decimal(s: &mut String, n: usize)
    ensures
        final(s)@ == old(s)@ + decimal(n as nat),
    decreases n,
{
    if n >= 10 {
        push_decimal(s, n / 10);
    }
    let ghost mid = s@;
    push_char(s, digit(n % 10));
    proof {
        if n >= 10 {
            assert(s@ =~= old(s)@ + decimal(n as nat));
        } else {
            assert(s@ =~= old(s)@ + decimal(n as nat));
        }
    }
}

/// The name for copy number `copies` of `base`; see [`numbered`].
pub fn numbered_name(base: &String, copies: usize) -> (r: String)
    ensures
        r@ == numbered(base@, copies as nat),
{
    let mut r = base.clone();
    if copies > 1 {
        push_char(&mut r, ' ');
        push_char(&mut r, '(');
        push_decimal(&mut r, copies);
        push_char(&mut r, ')');
        assert(r@ =~= numbered(base@, copies as nat));
    }
    r
}

/// Whether some pair in `list` has the name `name`.
pub fn name_taken<T>(list: &Vec<(String, T)>, name: &String) -> (r: bool)
    ensures
        r == names_of(list@).contains(name@),
{
    let mut i: usize = 0;
    while i < list.len()
        invariant
            i <= list.len(),
            forall|k: int| 0 <= k < i ==> list@[k].0@ != name@,
        decreases list.len() - i,
    {
        if list[i].0 == *name {
            assert(names_of(list@)[i as int] == name@);
            return true;
        }
        i += 1;
    }
    proof {
        if names_of(list@).contains(name@) {
            let k = choose|k: int| 0 <= k < names_of(list@).len() && names_of(list@)[k] == name@;
            assert(list@[k].0@ == name@);
        }
    }
    false
}

/// The first of `base`, `base (2)`, `base (3)`, ... that no pair in `taken`
/// has as its name.
pub fn unique_name<T>(taken: &Vec<(String, T)>, base: &String) -> (r: String)
    requires
        taken.len() < usize::MAX,
    ensures
        is_first_free(names_of(taken@), base@, r@),
{
    let ghost names = names_of(taken@);
    let mut copies: usize = 1;
    let mut name = numbered_name(base, copies);
    while name_taken(taken, &name)
        invariant
            names == names_of(taken@),
            names.len() == taken@.len(),
            1 <= copies <= taken.len() + 1,
            taken.len() < usize::MAX,
            name@ == numbered(base@, copies as nat),
            forall|k: nat| 1 <= k < copies ==> names.contains(#[trigger] numbered(base@, k)),
        decreases taken.len() + 1 - copies,
    {
        proof {
            assert(forall|k: nat| 1 <= k <= copies ==> names.contains(#[trigger] numbered(base@, k)));
            lemma_taken_bound(names, base@, copies as nat);
        }
        copies += 1;
        name = numbered_name(base, copies);
    }
    assert(is_first_free(names, base@, name@)) by {
        assert(copies as nat >= 1);
    }
    name
}

/// Something listed under a name.
pub trait Named {
    spec fn name_view(&self) -> Seq<char>;

    fn name(&self) -> (r: &String)
        ensures
            r@ == self.name_view(),
    ;
}

/// The base names of the entries of a map.
pub open spec fn base_names<V: Named>(m: Map<u64, V>) -> Map<u64, Seq<char>> {
    m.map_values(|v: V| v.name_view())
}

/// The (name, id) pairs of a list, with the names as character sequences.
pub open spec fn listing<T>(list: Seq<(String, T)>) -> Seq<(Seq<char>, T)> {
    list.map_values(|p: (String, T)| (p.0@, p.1))
}

/// `out` lists every id of `bases` once, in increasing order, each with the
/// first of its base name, `name (2)`, `name (3)`, ... that no earlier entry
/// of the list has.
pub open spec fn is_name_list(bases: Map<u64, Seq<char>>, out: Seq<(Seq<char>, u64)>) -> bool {
    &&& forall|i: int, j: int| 0 <= i < j < out.len() ==> #[trigger] out[i].1 < #[trigger] out[j].1
    &&& forall|i: int| 0 <= i < out.len() ==> bases.contains_key(#[trigger] out[i].1)
    &&& forall|k: u64| #[trigger] bases.contains_key(k) ==> exists|i: int| 0 <= i < out.len() && out[i].1 == k
    &&& forall|i: int|
        0 <= i < out.len() ==> is_first_free(
            out.take(i).map_values(|p: (Seq<char>, u64)| p.0),
            bases[out[i].1],
            #[trigger] out[i].0,
        )
}

/// The entries of `map` in increasing id order, each under a name that no
/// earlier entry has: its own name when free, else the first free of
/// `name (2)`, `name (3)`, ...
pub fn name_list<V: Named>(map: &BTreeMap<u64, V>) -> (out: Vec<(String, u64)>)
    ensures
        is_name_list(base_names(map@), listing(out@)),
{
    let mut out: Vec<(String, u64)> = Vec::new();
    let entries = map.iter();
    let ghost all = entries.remaining();
    assert(map@.len() == map.len());
    for (id, value) in it: entries
        invariant
            it.seq() == all,
            all == spec_btree_map_iter(map).remaining(),
            all.len() == map@.len(),
            map@.len() <= usize::MAX,
            increasing_seq(all.map_values(|kv: (&u64, &V)| *kv.0)),
            out.len() == it.index(),
            forall|i: int| 0 <= i < it.index() ==> out@[i].1 == *all[i].0,
            forall|i: int|
                0 <= i < it.index() ==> is_first_free(
                    names_of(out@.take(i)),
                    (*all[i].1).name_view(),
                    #[trigger] out@[i].0@,
                ),
    {
        let ghost at = it.index();
        assert(all[at] == (id, value));
        let name = unique_name(&out, value.name());
        let ghost before = out@;
        out.push((name, *id));
        proof {
            assert forall|i: int| 0 <= i <= at implies is_first_free(
                names_of(out@.take(i)),
                (*all[i].1).name_view(),
                #[trigger] out@[i].0@,
            ) by {
                assert(out@.take(i) =~= before.take(i));
                if i == at {
                    assert(before.take(i) =~= before);
                }
            }
        }
    }
    proof {
        let m = map@;
        let bases = base_names(m);
        let l = listing(out@);
        assert forall|i: int, j: int| 0 <= i < j < l.len() implies #[trigger] l[i].1 < #[trigger] l[j].1 by {
            lemma_keys_increase::<V>(all, i, j);
        }
        assert forall|i: int| 0 <= i < l.len() implies bases.contains_key(#[trigger] l[i].1) by {
            assert(m.contains_key(*all[i].0));
        }
        assert forall|k: u64| #[trigger] bases.contains_key(k) implies exists|i: int|
            0 <= i < l.len() && l[i].1 == k by {
            assert(all.contains((&k, &m[k])));
            let i = choose|i: int| 0 <= i < all.len() && all[i] == (&k, &m[k]);
            assert(l[i].1 == k);
        }
        assert forall|i: int| 0 <= i < l.len() implies is_first_free(
            l.take(i).map_values(|p: (Seq<char>, u64)| p.0),
            bases[l[i].1],
            #[trigger] l[i].0,
        ) by {
            assert(m.contains_key(*all[i].0));
            assert(l.take(i).map_values(|p: (Seq<char>, u64)| p.0) =~= names_of(out@.take(i)));
        }
    }
    out
}

/// The names in a name list are all different.
pub proof fn listed_names_are_distinct(bases: Map<u64, Seq<char>>, out: Seq<(Seq<char>, u64)>)
    requires
        is_name_list(bases, out),
    ensures
        forall|i: int, j: int| 0 <= i < j < out.len() ==> #[trigger] out[i].0 != #[trigger] out[j].0,
{
    assert forall|i: int, j: int| 0 <= i < j < out.len() implies #[trigger] out[i].0 != #[trigger] out[j].0 by {
        let prior = out.take(j).map_values(|p: (Seq<char>, u64)| p.0);
        assert(is_first_free(prior, bases[out[j].1], out[j].0));
        assert(prior[i] == out[i].0);
        assert(prior.contains(out[i].0));
    }
}

/// There is only one first free name.
pub proof fn first_free_is_unique(taken: Seq<Seq<char>>, base: Seq<char>, n1: Seq<char>, n2: Seq<char>)
    requires
        is_first_free(taken, base, n1),
        is_first_free(taken, base, n2),
    ensures
        n1 == n2,
{
    let c1 = choose|c: nat|
        c >= 1 && n1 == numbered(base, c) && !taken.contains(n1) && forall|k: nat|
            1 <= k < c ==> taken.contains(#[trigger] numbered(base, k));
    let c2 = choose|c: nat|
        c >= 1 && n2 == numbered(base, c) && !taken.contains(n2) && forall|k: nat|
            1 <= k < c ==> taken.contains(#[trigger] numbered(base, k));
    if c1 < c2 {
        assert(taken.contains(numbered(base, c1)));
    } else if c2 < c1 {
        assert(taken.contains(numbered(base, c2)));
    }
}

proof fn lemma_keys_agree(bases: Map<u64, Seq<char>>, a: Seq<(Seq<char>, u64)>, b: Seq<(Seq<char>, u64)>, i: int)
    requires
        is_name_list(bases, a),
        is_name_list(bases, b),
        0 <= i < a.len(),
        i < b.len(),
        forall|j: int| 0 <= j < i ==> a[j].1 == b[j].1,
    ensures
        a[i].1 == b[i].1,
{
    let k = a[i].1;
    assert(bases.contains_key(k));
    let jb = choose|j: int| 0 <= j < b.len() && b[j].1 == k;
    let k2 = b[i].1;
    assert(bases.contains_key(k2));
    let ja = choose|j: int| 0 <= j < a.len() && a[j].1 == k2;
    if jb < i {
        assert(a[jb].1 == b[jb].1);
        assert(a[jb].1 < a[i].1);
    }
    if ja < i {
        assert(a[ja].1 == b[ja].1);
        assert(b[ja].1 < b[i].1);
    }
    if jb > i {
        assert(b[i].1 < b[jb].1);
        if ja > i {
            assert(a[i].1 < a[ja].1);
        }
    }
}

proof fn lemma_prefixes_agree(bases: Map<u64, Seq<char>>, a: Seq<(Seq<char>, u64)>, b: Seq<(Seq<char>, u64)>, n: int)
    requires
        is_name_list(bases, a),
        is_name_list(bases, b),
        0 <= n <= a.len(),
        n <= b.len(),
    ensures
        a.take(n) == b.take(n),
    decreases n,
{
    if n > 0 {
        lemma_prefixes_agree(bases, a, b, n - 1);
        let i = n - 1;
        assert forall|j: int| 0 <= j < i implies a[j].1 == b[j].1 by {
            assert(a.take(i)[j] == b.take(i)[j]);
        }
        lemma_keys_agree(bases, a, b, i);
        let pa = a.take(i).map_values(|p: (Seq<char>, u64)| p.0);
        let pb = b.take(i).map_values(|p: (Seq<char>, u64)| p.0);
        assert(pa == pb);
        assert(is_first_free(pa, bases[a[i].1], a[i].0));
        assert(is_first_free(pb, bases[b[i].1], b[i].0));
        first_free_is_unique(pa, bases[a[i].1], a[i].0, b[i].0);
        assert(a.take(n) =~= a.take(i).push(a[i]));
        assert(b.take(n) =~= b.take(i).push(b[i]));
    }
}

/// A name list is determined by the entries it lists: the ids, their order
/// and every name follow from the map alone.
pub proof fn name_list_is_unique(bases: Map<u64, Seq<char>>, a: Seq<(Seq<char>, u64)>, b: Seq<(Seq<char>, u64)>)
    requires
        is_name_list(bases, a),
        is_name_list(bases, b),
    ensures
        a == b,
{
    if a.len() > b.len() {
        lemma_prefixes_agree(bases, a, b, b.len() as int);
        let n = b.len() as int;
        assert(bases.contains_key(a[n].1));
        let j = choose|j: int| 0 <= j < b.len() && b[j].1 == a[n].1;
        assert(a.take(n)[j] == b.take(n)[j]);
        assert(a[j].1 < a[n].1);
    } else if b.len() > a.len() {
        lemma_prefixes_agree(bases, a, b, a.len() as int);
        let n = a.len() as int;
        assert(bases.contains_key(b[n].1));
        let j = choose|j: int| 0 <= j < a.len() && a[j].1 == b[n].1;
        assert(a.take(n)[j] == b.take(n)[j]);
        assert(b[j].1 < b[n].1);
    } else {
        lemma_prefixes_agree(bases, a, b, a.len() as int);
        assert(a.take(a.len() as int) =~= a);
        assert(b.take(b.len() as int) =~= b);
    }
}

/// A name in a name list is its entry's own name, or that name followed by
/// ` (n)` for some n of at least 2; and it is its entry's own name whenever
/// no earlier entry has that name.
pub proof fn listed_name_is_numbered(bases: Map<u64, Seq<char>>, out: Seq<(Seq<char>, u64)>, i: int)
    requires
        is_name_list(bases, out),
        0 <= i < out.len(),
    ensures
        exists|c: nat| c >= 1 && out[i].0 == #[trigger] numbered(bases[out[i].1], c),
        !out.take(i).map_values(|p: (Seq<char>, u64)| p.0).contains(bases[out[i].1]) ==> out[i].0
            == bases[out[i].1],
{
    let prior = out.take(i).map_values(|p: (Seq<char>, u64)| p.0);
    let base = bases[out[i].1];
    assert(is_first_free(prior, base, out[i].0));
    let c = choose|c: nat|
        c >= 1 && out[i].0 == numbered(base, c) && !prior.contains(out[i].0) && forall|k: nat|
            1 <= k < c ==> prior.contains(#[trigger] numbered(base, k));
    if !prior.contains(base) && c > 1 {
        assert(prior.contains(numbered(base, 1)));
    }
}

} // verus!
