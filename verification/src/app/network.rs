//! The interface table: its order, and the selection that follows an
//! interface when the table is reordered.
use vstd::prelude::*;
use crate::app::state::{NetworkSort, NetworkState};
use crate::net::Interface;
use crate::selection::{next_of, previous_of};
use crate::text::is_text;

verus! {

/// Strict lexicographic order of texts by character, the order of `String`.
pub open spec fn text_less(a: Seq<char>, b: Seq<char>) -> bool
    decreases a.len(),
{
    if a.len() == 0 {
        b.len() > 0
    } else if b.len() == 0 {
        false
    } else if a[0] != b[0] {
        a[0] < b[0]
    } else {
        text_less(a.drop_first(), b.drop_first())
    }
}

pub proof fn lemma_text_less_irreflexive(a: Seq<char>)
    ensures
        !text_less(a, a),
    decreases a.len(),
{
    if a.len() > 0 {
        lemma_text_less_irreflexive(a.drop_first());
    }
}

pub proof fn lemma_text_less_asymmetric(a: Seq<char>, b: Seq<char>)
    ensures
        text_less(a, b) ==> !text_less(b, a),
    decreases a.len(),
{
    if a.len() > 0 && b.len() > 0 && a[0] == b[0] {
        lemma_text_less_asymmetric(a.drop_first(), b.drop_first());
    }
}

pub proof fn lemma_text_less_transitive(a: Seq<char>, b: Seq<char>, c: Seq<char>)
    requires
        text_less(a, b),
        text_less(b, c),
    ensures
        text_less(a, c),
    decreases a.len(),
{
    if a.len() > 0 && b.len() > 0 && c.len() > 0 && a[0] == b[0] && b[0] == c[0] {
        lemma_text_less_transitive(a.drop_first(), b.drop_first(), c.drop_first());
    }
}

pub proof fn lemma_text_less_total(a: Seq<char>, b: Seq<char>)
    ensures
        a == b || text_less(a, b) || text_less(b, a),
    decreases a.len(),
{
    if a.len() > 0 && b.len() > 0 && a[0] == b[0] {
        lemma_text_less_total(a.drop_first(), b.drop_first());
        if a.drop_first() == b.drop_first() {
            assert(a =~= seq![a[0]] + a.drop_first());
            assert(b =~= seq![b[0]] + b.drop_first());
        }
    } else if a.len() == 0 && b.len() == 0 {
        assert(a =~= b);
    }
}

/// The loopback interface, which the table always shows last.
pub open spec fn is_loopback(i: Interface) -> bool {
    i.name@ == "lo"@
}

pub open spec fn key_less(a: Interface, b: Interface, sort: NetworkSort) -> bool {
    match sort {
        NetworkSort::Name => text_less(a.name@, b.name@),
        NetworkSort::State => text_less(a.operstate@, b.operstate@),
        NetworkSort::Mtu => a.mtu < b.mtu,
    }
}

/// `a` comes before `b` in the table: `lo` comes after every other
/// interface, the others in the order of the sort key.
pub open spec fn ranks_before(a: Interface, b: Interface, sort: NetworkSort) -> bool {
    !is_loopback(a) && (is_loopback(b) || key_less(a, b, sort))
}

/// Neither comes before the other.
pub open spec fn same_rank(a: Interface, b: Interface, sort: NetworkSort) -> bool {
    !ranks_before(a, b, sort) && !ranks_before(b, a, sort)
}

/// The interfaces of `s` that rank with `z`, in order.
pub open spec fn rank_class(s: Seq<Interface>, z: Interface, sort: NetworkSort) -> Seq<Interface> {
    s.filter(|y: Interface| same_rank(y, z, sort))
}

/// `m` is the table `n` put in the order of its sort key, the selection
/// following the interface that was selected.
pub open spec fn table_resorted(n: NetworkState, m: NetworkState) -> bool {
    &&& m.sort == n.sort
    &&& sorted_stably(m.interfaces@, n.interfaces@, n.sort)
    &&& m.interface_state.selected == reselected(
        n.interface_state.selected,
        selected_name(n),
        m.interfaces@,
    )
}

/// `b` is `a` sorted stably: no interface comes before one ahead of it, and
/// interfaces of one rank keep their order.
pub open spec fn sorted_stably(b: Seq<Interface>, a: Seq<Interface>, sort: NetworkSort) -> bool {
    &&& b.len() == a.len()
    &&& forall|i: int, j: int| 0 <= i < j < b.len() ==> !ranks_before(b[j], b[i], sort)
    &&& forall|z: Interface| #[trigger] rank_class(b, z, sort) == rank_class(a, z, sort)
}

proof fn lemma_key_split(x: Interface, y: Interface, z: Interface, sort: NetworkSort)
    requires
        key_less(x, y, sort),
    ensures
        key_less(x, z, sort) || key_less(z, y, sort),
{
    match sort {
        NetworkSort::Name => {
            lemma_text_less_total(x.name@, z.name@);
            if text_less(z.name@, x.name@) {
                lemma_text_less_transitive(z.name@, x.name@, y.name@);
            }
        },
        NetworkSort::State => {
            lemma_text_less_total(x.operstate@, z.operstate@);
            if text_less(z.operstate@, x.operstate@) {
                lemma_text_less_transitive(z.operstate@, x.operstate@, y.operstate@);
            }
        },
        NetworkSort::Mtu => {},
    }
}

proof fn lemma_key_asymmetric(x: Interface, y: Interface, sort: NetworkSort)
    ensures
        key_less(x, y, sort) ==> !key_less(y, x, sort),
{
    match sort {
        NetworkSort::Name => lemma_text_less_asymmetric(x.name@, y.name@),
        NetworkSort::State => lemma_text_less_asymmetric(x.operstate@, y.operstate@),
        NetworkSort::Mtu => {},
    }
}

/// Whatever `z` is, it comes after `x` or before `y` when `x` comes before `y`.
pub proof fn lemma_rank_split(x: Interface, y: Interface, z: Interface, sort: NetworkSort)
    requires
        ranks_before(x, y, sort),
    ensures
        ranks_before(x, z, sort) || ranks_before(z, y, sort),
{
    if !is_loopback(y) && !is_loopback(z) {
        lemma_key_split(x, y, z, sort);
    }
}

pub proof fn lemma_rank_asymmetric(x: Interface, y: Interface, sort: NetworkSort)
    ensures
        ranks_before(x, y, sort) ==> !ranks_before(y, x, sort),
{
    lemma_key_asymmetric(x, y, sort);
}

proof fn lemma_class_none(s: Seq<Interface>, z: Interface, sort: NetworkSort)
    requires
        forall|i: int| 0 <= i < s.len() ==> !same_rank(s[i], z, sort),
    ensures
        rank_class(s, z, sort) == Seq::<Interface>::empty(),
    decreases s.len(),
{
    reveal_with_fuel(Seq::filter, 1);
    if s.len() > 0 {
        lemma_class_none(s.drop_last(), z, sort);
    }
    assert(rank_class(s, z, sort) =~= Seq::<Interface>::empty());
}

proof fn lemma_insert_class(s: Seq<Interface>, p: int, x: Interface, z: Interface, sort: NetworkSort)
    requires
        0 <= p <= s.len(),
        forall|i: int| p <= i < s.len() ==> ranks_before(x, s[i], sort),
    ensures
        rank_class(s.insert(p, x), z, sort) == rank_class(s, z, sort) + (if same_rank(x, z, sort) {
            seq![x]
        } else {
            Seq::empty()
        }),
{
    reveal_with_fuel(Seq::filter, 2);
    let pred = |y: Interface| same_rank(y, z, sort);
    let a = s.take(p);
    let b = s.skip(p);
    assert(s.insert(p, x) =~= a + seq![x] + b);
    assert(s =~= a + b);
    Seq::filter_distributes_over_add(a + seq![x], b, pred);
    Seq::filter_distributes_over_add(a, seq![x], pred);
    Seq::filter_distributes_over_add(a, b, pred);
    assert(seq![x].drop_last() =~= Seq::<Interface>::empty());
    if same_rank(x, z, sort) {
        assert forall|i: int| 0 <= i < b.len() implies !same_rank(b[i], z, sort) by {
            assert(ranks_before(x, b[i], sort));
            if same_rank(b[i], z, sort) {
                lemma_rank_split(x, b[i], z, sort);
            }
        }
        lemma_class_none(b, z, sort);
        assert(rank_class(s, z, sort) =~= rank_class(a, z, sort));
        assert(rank_class(s.insert(p, x), z, sort) =~= rank_class(a, z, sort) + seq![x]);
    } else {
        assert(seq![x].filter(pred) =~= Seq::<Interface>::empty());
        assert(rank_class(s.insert(p, x), z, sort) =~= rank_class(s, z, sort));
    }
}

/// Whether `a` comes before `b` in the table.
pub fn rank_before(a: &Interface, b: &Interface, sort: NetworkSort) -> (r: bool)
    ensures
        r == ranks_before(*a, *b, sort),
{
    if is_text(&a.name, "lo") {
        return false;
    }
    if is_text(&b.name, "lo") {
        return true;
    }
    match sort {
        NetworkSort::Name => text_before(&a.name, &b.name),
        NetworkSort::State => text_before(&a.operstate, &b.operstate),
        NetworkSort::Mtu => a.mtu < b.mtu,
    }
}

/// Whether `a` comes before `b` in the order of `String`.
pub fn text_before(a: &String, b: &String) -> (r: bool)
    ensures
        r == text_less(a@, b@),
{
    let x = crate::text::chars_of(a.as_str());
    let y = crate::text::chars_of(b.as_str());
    let mut i: usize = 0;
    assert(x@.skip(0) =~= x@);
    assert(y@.skip(0) =~= y@);
    while i < x.len() && i < y.len() && x[i] == y[i]
        invariant
            i <= x@.len(),
            i <= y@.len(),
            x@ == a@,
            y@ == b@,
            text_less(a@, b@) == text_less(x@.skip(i as int), y@.skip(i as int)),
        decreases x@.len() - i,
    {
        assert(x@.skip(i as int).drop_first() =~= x@.skip(i + 1));
        assert(y@.skip(i as int).drop_first() =~= y@.skip(i + 1));
        i += 1;
    }
    if i == x.len() {
        i < y.len()
    } else if i == y.len() {
        false
    } else {
        x[i] < y[i]
    }
}

/// The interfaces sorted for the table: `lo` last, the others by the sort
/// key, those of one rank in their first order.
pub fn sort_by_rank(v: Vec<Interface>, sort: NetworkSort) -> (r: Vec<Interface>)
    ensures
        sorted_stably(r@, v@, sort),
{
    let ghost src = v@;
    let ghost n = v@.len();
    let mut rest = v;
    let mut out: Vec<Interface> = Vec::new();
    assert(src.take(0) =~= Seq::<Interface>::empty());
    assert(rest@ =~= src.skip(0));
    assert forall|z: Interface| #[trigger] rank_class(out@, z, sort) == rank_class(src.take(0), z, sort) by {
        reveal_with_fuel(Seq::filter, 1);
    }
    while rest.len() > 0
        invariant
            n == src.len(),
            rest@.len() <= n,
            rest@ == src.skip(n - rest@.len()),
            out@.len() + rest@.len() == n,
            forall|i: int, j: int| 0 <= i < j < out@.len() ==> !ranks_before(out@[j], out@[i], sort),
            forall|z: Interface| #[trigger] rank_class(out@, z, sort) == rank_class(src.take(n - rest@.len()), z, sort),
        decreases rest@.len(),
    {
        let ghost i = n - rest@.len();
        let x = rest.remove(0);
        assert(x == src[i]);
        assert(rest@ =~= src.skip(i + 1));
        let m = out.len();
        let mut p: usize = 0;
        while p < m && !rank_before(&x, &out[p], sort)
            invariant
                p <= m == out@.len(),
                forall|j: int| 0 <= j < p ==> !ranks_before(x, out@[j], sort),
            decreases m - p,
        {
            p += 1;
        }
        let ghost before = out@;
        assert forall|j: int| p <= j < before.len() implies ranks_before(x, before[j], sort) by {
            assert(ranks_before(x, before[p as int], sort));
            if j > p {
                assert(!ranks_before(before[j], before[p as int], sort));
                lemma_rank_split(x, before[p as int], before[j], sort);
            }
        }
        out.insert(p, x);
        assert(out@ == before.insert(p as int, src[i]));
        assert forall|a: int, b: int| 0 <= a < b < out@.len() implies !ranks_before(out@[b], out@[a], sort) by {
            if a < p && b == p {
            } else if a == p && b > p {
                lemma_rank_asymmetric(x, before[b - 1], sort);
            } else if a < p && b > p {
                assert(!ranks_before(before[b - 1], before[a], sort));
            } else if b < p {
            } else {
                assert(!ranks_before(before[b - 1], before[a - 1], sort));
            }
        }
        assert forall|z: Interface| #[trigger] rank_class(out@, z, sort) == rank_class(src.take(i + 1), z, sort) by {
            lemma_insert_class(before, p as int, src[i], z, sort);
            reveal_with_fuel(Seq::filter, 1);
            assert(src.take(i + 1).drop_last() =~= src.take(i));
            assert(src.take(i + 1).last() == src[i]);
            if same_rank(src[i], z, sort) {
                assert(rank_class(src.take(i), z, sort).push(src[i]) =~= rank_class(src.take(i), z, sort)
                    + seq![src[i]]);
            } else {
                assert(rank_class(src.take(i), z, sort) + Seq::empty() =~= rank_class(src.take(i), z, sort));
            }
        }
    }
    assert(src.take(n as int) =~= src);
    out
}

/// The position of the first interface named `name`.
pub open spec fn first_named(s: Seq<Interface>, name: Seq<char>) -> Option<int>
    decreases s.len(),
{
    if s.len() == 0 {
        None
    } else {
        match first_named(s.drop_last(), name) {
            Some(i) => Some(i),
            None => if s.last().name@ == name {
                Some(s.len() - 1)
            } else {
                None
            },
        }
    }
}

/// The name of the selected interface, if the selection points at one.
pub open spec fn selected_name(n: NetworkState) -> Option<Seq<char>> {
    match n.interface_state.selected {
        Some(i) => if i < n.interfaces@.len() {
            Some(n.interfaces@[i as int].name@)
        } else {
            None
        },
        None => None,
    }
}

/// The selection after the table became `list`: the first interface with the
/// name selected before, where there is one; otherwise unchanged.
pub open spec fn reselected(sel: Option<usize>, name: Option<Seq<char>>, list: Seq<Interface>) -> Option<usize> {
    match name {
        Some(nm) => match first_named(list, nm) {
            Some(p) => Some(p as usize),
            None => sel,
        },
        None => sel,
    }
}

proof fn lemma_first_named_prefix(s: Seq<Interface>, name: Seq<char>, k: int)
    requires
        0 <= k <= s.len(),
        first_named(s.take(k), name) is Some,
    ensures
        first_named(s, name) == first_named(s.take(k), name),
    decreases s.len() - k,
{
    if k < s.len() {
        assert(s.take(k + 1).drop_last() =~= s.take(k));
        lemma_first_named_prefix(s, name, k + 1);
    } else {
        assert(s.take(k) =~= s);
    }
}

proof fn lemma_first_named_bound(s: Seq<Interface>, name: Seq<char>)
    ensures
        first_named(s, name) matches Some(p) ==> 0 <= p < s.len(),
    decreases s.len(),
{
    if s.len() > 0 {
        lemma_first_named_bound(s.drop_last(), name);
    }
}

/// The position of the first interface named `name`.
fn position_of(list: &Vec<Interface>, name: &String) -> (r: Option<usize>)
    ensures
        r matches Some(p) ==> first_named(list@, name@) == Some(p as int),
        r is None ==> first_named(list@, name@) is None,
{
    let n = list.len();
    assert(list@.take(0) =~= Seq::<Interface>::empty());
    for k in 0..n
        invariant
            n == list@.len(),
            first_named(list@.take(k as int), name@) is None,
    {
        assert(list@.take(k + 1).drop_last() =~= list@.take(k as int));
        if list[k].name == *name {
            assert(first_named(list@.take(k + 1), name@) == Some(k as int));
            proof {
                lemma_first_named_prefix(list@, name@, k + 1);
            }
            return Some(k);
        }
    }
    assert(list@.take(n as int) =~= list@);
    None
}

impl NetworkState {
    /// The name of the selected interface, if the selection points at one.
    fn selected_interface_name(&self) -> (r: Option<String>)
        ensures
            r matches Some(s) ==> selected_name(*self) == Some(s@),
            r is None ==> selected_name(*self) is None,
    {
        match self.interface_state.selected() {
            Some(i) => if i < self.interfaces.len() {
                Some(self.interfaces[i].name.clone())
            } else {
                None
            },
            None => None,
        }
    }

    /// Puts the table in the order of the current sort key (`lo` last), the
    /// selection following the interface that was selected.
    pub fn sort_interfaces(&mut self)
        ensures
            table_resorted(*old(self), *final(self)),
            old(self).interface_state.selected != Some(usize::MAX)
                ==> final(self).interface_state.selected != Some(usize::MAX),
    {
        let name = self.selected_interface_name();
        let mut list: Vec<Interface> = Vec::new();
        std::mem::swap(&mut list, &mut self.interfaces);
        self.interfaces = sort_by_rank(list, self.sort);
        if let Some(nm) = name {
            let len = self.interfaces.len();
            if let Some(pos) = position_of(&self.interfaces, &nm) {
                proof {
                    lemma_first_named_bound(self.interfaces@, nm@);
                }
                assert(pos < len);
                self.interface_state.select(Some(pos));
            }
        }
    }

    /// Replaces the table with a fresh listing, in the current order, the
    /// selection following the interface that was selected, or on the first
    /// row where nothing is selected.
    pub fn update_network(&mut self, fresh: Vec<Interface>)
        ensures
            final(self).sort == old(self).sort,
            sorted_stably(final(self).interfaces@, fresh@, old(self).sort),
            ({
                let moved = reselected(
                    old(self).interface_state.selected,
                    selected_name(*old(self)),
                    final(self).interfaces@,
                );
                final(self).interface_state.selected == if moved is None && fresh@.len() > 0 {
                    Some(0usize)
                } else {
                    moved
                }
            }),
            old(self).interface_state.selected != Some(usize::MAX)
                ==> final(self).interface_state.selected != Some(usize::MAX),
    {
        let name = self.selected_interface_name();
        self.interfaces = sort_by_rank(fresh, self.sort);
        proof {
            reveal_with_fuel(Seq::filter, 1);
        }
        if let Some(nm) = name {
            let len = self.interfaces.len();
            if let Some(pos) = position_of(&self.interfaces, &nm) {
                proof {
                    lemma_first_named_bound(self.interfaces@, nm@);
                }
                assert(pos < len);
                self.interface_state.select(Some(pos));
            }
        }
        if self.interface_state.selected().is_none() && self.interfaces.len() > 0 {
            self.interface_state.select(Some(0));
        }
        proof {
            if self.interfaces@.len() == 0 && fresh@.len() > 0 {
                lemma_sorted_len(self.interfaces@, fresh@, old(self).sort);
            }
            if self.interfaces@.len() > 0 && fresh@.len() == 0 {
                assert forall|z: Interface| #[trigger] rank_class(fresh@, z, old(self).sort)
                    == rank_class(self.interfaces@, z, old(self).sort) by {
                    assert(rank_class(self.interfaces@, z, old(self).sort) == rank_class(fresh@, z, old(self).sort));
                }
                lemma_sorted_len(fresh@, self.interfaces@, old(self).sort);
            }
        }
    }

    /// Selects the next interface, wrapping around.
    pub fn next_interface(&mut self)
        requires
            old(self).interface_state.selected != Some(usize::MAX),
        ensures
            final(self).interfaces == old(self).interfaces,
            final(self).sort == old(self).sort,
            final(self).interface_state.selected == next_of(
                old(self).interface_state.selected,
                old(self).interfaces@.len() as usize,
            ),
    {
        crate::selection::next_index(&mut self.interface_state, self.interfaces.len());
    }

    /// Selects the previous interface, wrapping around.
    pub fn previous_interface(&mut self)
        ensures
            final(self).interfaces == old(self).interfaces,
            final(self).sort == old(self).sort,
            final(self).interface_state.selected == previous_of(
                old(self).interface_state.selected,
                old(self).interfaces@.len() as usize,
            ),
    {
        crate::selection::previous_index(&mut self.interface_state, self.interfaces.len());
    }
}

proof fn lemma_first_named_found(s: Seq<Interface>, name: Seq<char>, k: int)
    requires
        0 <= k < s.len(),
        s[k].name@ == name,
    ensures
        first_named(s, name) matches Some(p) && 0 <= p < s.len() && s[p].name@ == name,
    decreases s.len(),
{
    if k < s.len() - 1 {
        lemma_first_named_found(s.drop_last(), name, k);
    } else if s.len() > 1 {
        lemma_first_named_where(s.drop_last(), name);
    }
}

proof fn lemma_first_named_where(s: Seq<Interface>, name: Seq<char>)
    ensures
        first_named(s, name) matches Some(p) ==> 0 <= p < s.len() && s[p].name@ == name,
    decreases s.len(),
{
    if s.len() > 0 {
        lemma_first_named_where(s.drop_last(), name);
    }
}

/// Reordering the table keeps the selected interface selected: where the
/// selection pointed at an interface, it points afterwards at an interface of
/// the same name.
pub proof fn lemma_resort_keeps_selection(n: NetworkState, list: Seq<Interface>, sort: NetworkSort)
    requires
        sorted_stably(list, n.interfaces@, sort),
        selected_name(n) is Some,
        list.len() <= usize::MAX,
    ensures
        reselected(n.interface_state.selected, selected_name(n), list) matches Some(p) && p
            < list.len() && Some(list[p as int].name@) == selected_name(n),
{
    let i = n.interface_state.selected->0 as int;
    let x = n.interfaces@[i];
    lemma_key_asymmetric(x, x, sort);
    match sort {
        NetworkSort::Name => lemma_text_less_irreflexive(x.name@),
        NetworkSort::State => lemma_text_less_irreflexive(x.operstate@),
        NetworkSort::Mtu => {},
    }
    assert(same_rank(x, x, sort));
    n.interfaces@.lemma_filter_contains(|y: Interface| same_rank(y, x, sort), i);
    assert(rank_class(n.interfaces@, x, sort).contains(x));
    assert(rank_class(list, x, sort) == rank_class(n.interfaces@, x, sort));
    list.lemma_filter_contains_rev(|y: Interface| same_rank(y, x, sort), x);
    let k = choose|k: int| 0 <= k < list.len() && list[k] == x;
    lemma_first_named_found(list, x.name@, k);
}

proof fn lemma_same_rank_reflexive(x: Interface, sort: NetworkSort)
    ensures
        same_rank(x, x, sort),
{
    lemma_key_asymmetric(x, x, sort);
    match sort {
        NetworkSort::Name => lemma_text_less_irreflexive(x.name@),
        NetworkSort::State => lemma_text_less_irreflexive(x.operstate@),
        NetworkSort::Mtu => {},
    }
}

proof fn lemma_same_rank_transitive(x: Interface, y: Interface, z: Interface, sort: NetworkSort)
    requires
        same_rank(x, y, sort),
        same_rank(y, z, sort),
    ensures
        same_rank(x, z, sort),
{
    if ranks_before(x, z, sort) {
        lemma_rank_split(x, z, y, sort);
    }
    if ranks_before(z, x, sort) {
        lemma_rank_split(z, x, y, sort);
    }
}

/// Interfaces of one rank have the same rank class.
proof fn lemma_class_of_same_rank(s: Seq<Interface>, x: Interface, y: Interface, sort: NetworkSort)
    requires
        same_rank(x, y, sort),
    ensures
        rank_class(s, x, sort) == rank_class(s, y, sort),
{
    assert forall|w: Interface| same_rank(w, x, sort) == same_rank(w, y, sort) by {
        if same_rank(w, x, sort) {
            lemma_same_rank_transitive(w, x, y, sort);
        }
        if same_rank(w, y, sort) {
            assert(same_rank(y, x, sort));
            lemma_same_rank_transitive(w, y, x, sort);
        }
    }
    assert((|w: Interface| same_rank(w, x, sort)) =~= (|w: Interface| same_rank(w, y, sort)));
}

/// An interface of `b` is also in `c` where their rank classes agree.
proof fn lemma_in_same_classes(b: Seq<Interface>, c: Seq<Interface>, i: int, sort: NetworkSort) -> (k: int)
    requires
        0 <= i < b.len(),
        forall|z: Interface| #[trigger] rank_class(b, z, sort) == rank_class(c, z, sort),
    ensures
        0 <= k < c.len(),
        c[k] == b[i],
{
    let x = b[i];
    lemma_same_rank_reflexive(x, sort);
    b.lemma_filter_contains(|w: Interface| same_rank(w, x, sort), i);
    assert(rank_class(b, x, sort) == rank_class(c, x, sort));
    c.lemma_filter_contains_rev(|w: Interface| same_rank(w, x, sort), x);
    choose|k: int| 0 <= k < c.len() && c[k] == x
}

/// Two tables in rank order with the same rank classes are the same table.
proof fn lemma_sorted_unique(b: Seq<Interface>, c: Seq<Interface>, sort: NetworkSort)
    requires
        b.len() == c.len(),
        forall|i: int, j: int| 0 <= i < j < b.len() ==> !ranks_before(b[j], b[i], sort),
        forall|i: int, j: int| 0 <= i < j < c.len() ==> !ranks_before(c[j], c[i], sort),
        forall|z: Interface| #[trigger] rank_class(b, z, sort) == rank_class(c, z, sort),
    ensures
        b == c,
    decreases b.len(),
{
    if b.len() == 0 {
        assert(b =~= c);
        return;
    }
    let n = b.len() - 1;
    let x = b[n];
    let y = c[n];
    let kx = lemma_in_same_classes(b, c, n, sort);
    assert forall|z: Interface| #[trigger] rank_class(c, z, sort) == rank_class(b, z, sort) by {
        assert(rank_class(b, z, sort) == rank_class(c, z, sort));
    }
    let ky = lemma_in_same_classes(c, b, n, sort);
    // Neither of the two last interfaces comes before the other.
    if ranks_before(x, y, sort) {
        if ky < n {
            assert(!ranks_before(b[n], b[ky], sort));
        } else {
            lemma_rank_asymmetric(x, x, sort);
        }
    }
    if ranks_before(y, x, sort) {
        if kx < n {
            assert(!ranks_before(c[n], c[kx], sort));
        } else {
            lemma_rank_asymmetric(y, y, sort);
        }
    }
    assert(same_rank(x, y, sort));
    lemma_same_rank_reflexive(x, sort);
    lemma_same_rank_reflexive(y, sort);
    lemma_class_of_same_rank(c, x, y, sort);
    reveal_with_fuel(Seq::filter, 1);
    // Each is the last of its class, and the classes agree.
    assert(rank_class(b, x, sort) == rank_class(b.drop_last(), x, sort).push(x));
    assert(rank_class(c, y, sort) == rank_class(c.drop_last(), y, sort).push(y));
    assert(rank_class(b, x, sort) == rank_class(c, y, sort));
    assert(rank_class(b, x, sort).last() == x);
    assert(rank_class(c, y, sort).last() == y);
    assert(x == y);
    assert forall|z: Interface| #[trigger] rank_class(b.drop_last(), z, sort) == rank_class(c.drop_last(), z, sort) by {
        assert(rank_class(b, z, sort) == rank_class(c, z, sort));
        if same_rank(x, z, sort) {
            assert(rank_class(b, z, sort) == rank_class(b.drop_last(), z, sort).push(x));
            assert(rank_class(c, z, sort) == rank_class(c.drop_last(), z, sort).push(x));
            assert(rank_class(b.drop_last(), z, sort) =~= rank_class(b, z, sort).drop_last());
            assert(rank_class(c.drop_last(), z, sort) =~= rank_class(c, z, sort).drop_last());
        }
    }
    lemma_sorted_unique(b.drop_last(), c.drop_last(), sort);
    assert(b =~= b.drop_last().push(x));
    assert(c =~= c.drop_last().push(y));
}

/// Sorting a sorted table changes nothing: sorting twice by one key gives
/// the table that sorting once gave.
pub proof fn lemma_sort_idempotent(a: Seq<Interface>, b: Seq<Interface>, c: Seq<Interface>, sort: NetworkSort)
    requires
        sorted_stably(b, a, sort),
        sorted_stably(c, b, sort),
    ensures
        c == b,
{
    assert forall|z: Interface| #[trigger] rank_class(b, z, sort) == rank_class(c, z, sort) by {
        assert(rank_class(c, z, sort) == rank_class(b, z, sort));
    }
    lemma_sorted_unique(b, c, sort);
}

/// Sorting the interface table a second time by the same key leaves it as the
/// first sort left it: the same interfaces in the same order, the same
/// selection and the same key.
pub proof fn lemma_sort_twice(n0: NetworkState, n1: NetworkState, n2: NetworkState)
    requires
        table_resorted(n0, n1),
        table_resorted(n1, n2),
    ensures
        n2.interfaces@ == n1.interfaces@,
        n2.interface_state == n1.interface_state,
        n2.sort == n1.sort,
{
    let sort = n0.sort;
    let l = n1.interfaces@;
    lemma_sort_idempotent(n0.interfaces@, l, n2.interfaces@, sort);
    assert(l.len() == n1.interfaces.len());
    match selected_name(n1) {
        Some(nm) => {
            let i = n1.interface_state.selected->0;
            match selected_name(n0) {
                Some(nm0) => {
                    lemma_resort_keeps_selection(n0, l, sort);
                    lemma_first_named_found(l, nm0, i as int);
                    assert(nm == nm0);
                },
                None => {
                    assert(n1.interface_state.selected == n0.interface_state.selected);
                    assert(false);
                },
            }
            assert(first_named(l, nm) == Some(i as int));
        },
        None => {},
    }
}

/// A stable sort keeps the number of interfaces: in particular a non-empty
/// listing gives a non-empty table.
pub proof fn lemma_sorted_len(b: Seq<Interface>, a: Seq<Interface>, sort: NetworkSort)
    requires
        forall|z: Interface| #[trigger] rank_class(b, z, sort) == rank_class(a, z, sort),
        b.len() == 0,
    ensures
        a.len() == 0,
{
    if a.len() > 0 {
        let z = a[0];
        reveal_with_fuel(Seq::filter, 1);
        assert(rank_class(b, z, sort) =~= Seq::<Interface>::empty());
        lemma_key_asymmetric(z, z, sort);
        match sort {
            NetworkSort::Name => lemma_text_less_irreflexive(z.name@),
            NetworkSort::State => lemma_text_less_irreflexive(z.operstate@),
            NetworkSort::Mtu => {},
        }
        assert(same_rank(z, z, sort));
        a.lemma_filter_contains(|y: Interface| same_rank(y, z, sort), 0);
        assert(rank_class(a, z, sort).contains(z));
        assert(rank_class(b, z, sort) == rank_class(a, z, sort));
    }
}

} // verus!
