use vstd::prelude::*;

use crate::construct::{kind_matches, ConstructState, same_kind, Construct, ConstructId, ConstructType, ConstructView};
use crate::semver::version_gt;

verus! {

/// The construct registry — tracks all known constructs across the fleet.
///
/// Its abstract value is a map from construct id to construct; the
/// registry also enumerates its ids in an order of its own (`key_order`),
/// which lists every id once.
#[derive(Debug)]
pub struct ConstructRegistry {
    constructs: Vec<(ConstructId, Construct)>,
}

/// The map after merging `other` into `mine`: an id of `other` takes
/// `other`'s construct when `mine` lacks it or holds an older version.
pub open spec fn merge_entry(
    mine: Map<Seq<char>, ConstructView>,
    other: Map<Seq<char>, ConstructView>,
    k: Seq<char>,
) -> ConstructView {
    if other.contains_key(k) && (!mine.contains_key(k) || version_gt(
        other[k].manifest.version,
        mine[k].manifest.version,
    )) {
        other[k]
    } else {
        mine[k]
    }
}

/// Last-write-wins merge by version.
pub open spec fn merge_spec(
    mine: Map<Seq<char>, ConstructView>,
    other: Map<Seq<char>, ConstructView>,
) -> Map<Seq<char>, ConstructView> {
    Map::new(
        |k: Seq<char>| mine.contains_key(k) || other.contains_key(k),
        |k: Seq<char>| merge_entry(mine, other, k),
    )
}

/// The ids of a list of entries, in order.
pub closed spec fn keys_of(s: Seq<(ConstructId, Construct)>) -> Seq<Seq<char>> {
    s.map_values(|e: (ConstructId, Construct)| e.0@)
}

spec fn slot_of(s: Seq<(ConstructId, Construct)>, k: Seq<char>) -> int {
    choose|i: int| 0 <= i < keys_of(s).len() && keys_of(s)[i] == k
}

/// The map that a list of entries with distinct ids stands for.
pub closed spec fn map_of(s: Seq<(ConstructId, Construct)>) -> Map<Seq<char>, ConstructView> {
    Map::new(|k: Seq<char>| keys_of(s).contains(k), |k: Seq<char>| s[slot_of(s, k)].1@)
}

proof fn lemma_entry(s: Seq<(ConstructId, Construct)>, i: int)
    requires
        keys_of(s).no_duplicates(),
        0 <= i < s.len(),
    ensures
        map_of(s).contains_key(s[i].0@),
        map_of(s)[s[i].0@] == s[i].1@,
        keys_of(s)[i] == s[i].0@,
{
    let k = s[i].0@;
    assert(keys_of(s)[i] == k);
    let j = slot_of(s, k);
    assert(0 <= j < s.len() && s[j].0@ == k);
    assert(keys_of(s)[j] == k);
}

proof fn lemma_slot(s: Seq<(ConstructId, Construct)>, k: Seq<char>) -> (i: int)
    requires
        keys_of(s).no_duplicates(),
        map_of(s).contains_key(k),
    ensures
        0 <= i < s.len(),
        s[i].0@ == k,
        map_of(s)[k] == s[i].1@,
{
    let i = choose|i: int| 0 <= i < keys_of(s).len() && keys_of(s)[i] == k;
    lemma_entry(s, i);
    i
}

/// Replacing the construct of entry `i`, under the same id.
proof fn lemma_update(s: Seq<(ConstructId, Construct)>, i: int, e: (ConstructId, Construct))
    requires
        keys_of(s).no_duplicates(),
        0 <= i < s.len(),
        e.0@ == s[i].0@,
    ensures
        keys_of(s.update(i, e)) == keys_of(s),
        map_of(s.update(i, e)) == map_of(s).insert(s[i].0@, e.1@),
{
    let t = s.update(i, e);
    let k = s[i].0@;
    let v = e.1@;
    assert(keys_of(t) =~= keys_of(s));
    lemma_entry(s, i);
    lemma_entry(t, i);
    assert forall|k2: Seq<char>| #[trigger]
        map_of(t).contains_key(k2) == map_of(s).insert(k, v).contains_key(k2) by {
        if map_of(s).contains_key(k2) {
            let j = lemma_slot(s, k2);
            lemma_entry(t, j);
        }
        if map_of(t).contains_key(k2) {
            let j = lemma_slot(t, k2);
            lemma_entry(s, j);
        }
    }
    assert forall|k2: Seq<char>| map_of(t).contains_key(k2) implies map_of(t)[k2] == map_of(
        s,
    ).insert(k, v)[k2] by {
        let j = lemma_slot(t, k2);
        if j != i {
            lemma_entry(s, j);
        }
    }
    assert(map_of(t) =~= map_of(s).insert(k, v));
}

/// Appending an entry whose id is new.
proof fn lemma_push(s: Seq<(ConstructId, Construct)>, e: (ConstructId, Construct))
    requires
        keys_of(s).no_duplicates(),
        !map_of(s).contains_key(e.0@),
    ensures
        keys_of(s.push(e)) == keys_of(s).push(e.0@),
        keys_of(s.push(e)).no_duplicates(),
        map_of(s.push(e)) == map_of(s).insert(e.0@, e.1@),
{
    let t = s.push(e);
    let n = s.len();
    let k = e.0@;
    let v = e.1@;
    assert(keys_of(t) =~= keys_of(s).push(k));
    assert forall|a: int, b: int|
        0 <= a < keys_of(t).len() && 0 <= b < keys_of(t).len() && a != b implies keys_of(t)[a]
        != keys_of(t)[b] by {
        if a < n && b < n {
        } else if a == n {
            assert(keys_of(s)[b] == keys_of(t)[b]);
        } else {
            assert(keys_of(s)[a] == keys_of(t)[a]);
        }
    }
    lemma_entry(t, n as int);
    assert forall|k2: Seq<char>| #[trigger]
        map_of(t).contains_key(k2) == map_of(s).insert(k, v).contains_key(k2) by {
        if map_of(s).contains_key(k2) {
            let j = lemma_slot(s, k2);
            lemma_entry(t, j);
        }
        if map_of(t).contains_key(k2) {
            let j = lemma_slot(t, k2);
            if j < n {
                lemma_entry(s, j);
            }
        }
    }
    assert forall|k2: Seq<char>| map_of(t).contains_key(k2) implies map_of(t)[k2] == map_of(
        s,
    ).insert(k, v)[k2] by {
        let j = lemma_slot(t, k2);
        if j < n {
            lemma_entry(s, j);
        }
    }
    assert(map_of(t) =~= map_of(s).insert(k, v));
}

/// Removing entry `i`.
proof fn lemma_remove(s: Seq<(ConstructId, Construct)>, i: int)
    requires
        keys_of(s).no_duplicates(),
        0 <= i < s.len(),
    ensures
        keys_of(s.remove(i)).no_duplicates(),
        map_of(s.remove(i)) == map_of(s).remove(s[i].0@),
{
    let t = s.remove(i);
    let k = s[i].0@;
    let ok = keys_of(s);
    lemma_entry(s, i);
    assert(keys_of(t) =~= ok.remove(i));
    assert forall|a: int, b: int|
        0 <= a < keys_of(t).len() && 0 <= b < keys_of(t).len() && a != b implies keys_of(t)[a]
        != keys_of(t)[b] by {
        let a2 = if a < i {
            a
        } else {
            a + 1
        };
        let b2 = if b < i {
            b
        } else {
            b + 1
        };
        assert(keys_of(t)[a] == ok[a2]);
        assert(keys_of(t)[b] == ok[b2]);
    }
    assert forall|k2: Seq<char>| #[trigger]
        map_of(t).contains_key(k2) == map_of(s).remove(k).contains_key(k2) by {
        if map_of(s).contains_key(k2) && k2 != k {
            let j = lemma_slot(s, k2);
            assert(j != i);
            let j2 = if j < i {
                j
            } else {
                j - 1
            };
            assert(t[j2] == s[j]);
            lemma_entry(t, j2);
        }
        if map_of(t).contains_key(k2) {
            let j = lemma_slot(t, k2);
            let j2 = if j < i {
                j
            } else {
                j + 1
            };
            assert(t[j] == s[j2]);
            lemma_entry(s, j2);
            assert(ok[j2] != ok[i]);
        }
    }
    assert forall|k2: Seq<char>| map_of(t).contains_key(k2) implies map_of(t)[k2] == map_of(
        s,
    ).remove(k)[k2] by {
        let j = lemma_slot(t, k2);
        let j2 = if j < i {
            j
        } else {
            j + 1
        };
        assert(t[j] == s[j2]);
        lemma_entry(s, j2);
        assert(ok[j2] != ok[i]);
    }
    assert(map_of(t) =~= map_of(s).remove(k));
}

/// Whether some tag of `own` equals some tag of `wanted`.
pub open spec fn has_any_tag(own: Seq<String>, wanted: Seq<String>) -> bool {
    exists|i: int, j: int| 0 <= i < own.len() && 0 <= j < wanted.len() && own[i]@ == wanted[j]@
}

/// A construct matches a tag search exactly when one of its tags equals one
/// of the wanted tags as a whole string: the relation is symmetric, a single
/// tag matches a single wanted tag only when the two are equal, and nothing
/// matches an empty list.
pub proof fn lemma_tag_match_is_equality(own: Seq<String>, wanted: Seq<String>, t: String, u: String)
    ensures
        has_any_tag(own, wanted) == has_any_tag(wanted, own),
        has_any_tag(seq![t], seq![u]) <==> t@ == u@,
        !has_any_tag(own, Seq::<String>::empty()),
        has_any_tag(own, wanted) ==> exists|i: int, j: int|
            0 <= i < own.len() && 0 <= j < wanted.len() && own[i]@ == wanted[j]@,
{
    if has_any_tag(own, wanted) {
        let (i, j) = choose|i: int, j: int|
            0 <= i < own.len() && 0 <= j < wanted.len() && own[i]@ == wanted[j]@;
        assert(0 <= j < wanted.len() && 0 <= i < own.len() && wanted[j]@ == own[i]@);
    }
    if has_any_tag(wanted, own) {
        let (i, j) = choose|i: int, j: int|
            0 <= i < wanted.len() && 0 <= j < own.len() && wanted[i]@ == own[j]@;
        assert(0 <= j < own.len() && 0 <= i < wanted.len() && own[j]@ == wanted[i]@);
    }
    if t@ == u@ {
        assert(seq![t][0]@ == seq![u][0]@);
    }
}

/// The constructs of a listing whose type is of the same kind as `filter`.
pub open spec fn of_kind(listing: Seq<ConstructView>, filter: ConstructType) -> Seq<ConstructView> {
    listing.filter(|c: ConstructView| same_kind(c.manifest.construct_type, filter))
}

/// A construct of one kind is never listed for a filter of another kind,
/// and every construct of the filter's kind is listed.
pub proof fn lemma_list_by_type_kinds(listing: Seq<ConstructView>, filter: ConstructType)
    ensures
        forall|i: int|
            0 <= i < of_kind(listing, filter).len() ==> {
                let t = (#[trigger] of_kind(listing, filter)[i]).manifest.construct_type;
                &&& (t is Skill) == (filter is Skill)
                &&& (t is Equipment) == (filter is Equipment)
                &&& (t is Hybrid) == (filter is Hybrid)
            },
        forall|i: int|
            0 <= i < listing.len() && (listing[i].manifest.construct_type is Skill) == (
            filter is Skill) && (listing[i].manifest.construct_type is Equipment) == (
            filter is Equipment) && (listing[i].manifest.construct_type is Hybrid) == (
            filter is Hybrid) ==> of_kind(listing, filter).contains(#[trigger] listing[i]),
{
    let pred = |c: ConstructView| same_kind(c.manifest.construct_type, filter);
    assert forall|i: int| 0 <= i < of_kind(listing, filter).len() implies {
        let t = (#[trigger] of_kind(listing, filter)[i]).manifest.construct_type;
        &&& (t is Skill) == (filter is Skill)
        &&& (t is Equipment) == (filter is Equipment)
        &&& (t is Hybrid) == (filter is Hybrid)
    } by {
        listing.lemma_filter_pred(pred, i);
    }
    assert forall|i: int|
        0 <= i < listing.len() && (listing[i].manifest.construct_type is Skill) == (
        filter is Skill) && (listing[i].manifest.construct_type is Equipment) == (
        filter is Equipment) && (listing[i].manifest.construct_type is Hybrid) == (
        filter is Hybrid) implies of_kind(listing, filter).contains(#[trigger] listing[i]) by {
        listing.lemma_filter_contains(pred, i);
    }
}

/// Where both registries hold an id, the merged registry takes the other
/// side's construct exactly when its version is numerically newer: a
/// larger major, or the same major and a larger minor, or the same major and
/// minor and a larger patch.
pub proof fn lemma_merge_takes_numerically_newer(
    a: Map<Seq<char>, ConstructView>,
    b: Map<Seq<char>, ConstructView>,
    k: Seq<char>,
)
    requires
        a.contains_key(k),
        b.contains_key(k),
    ensures
        ({
            let x = a[k].manifest.version;
            let y = b[k].manifest.version;
            (y.major > x.major || (y.major == x.major && y.minor > x.minor) || (y.major == x.major
                && y.minor == x.minor && y.patch > x.patch)) ==> merge_spec(a, b)[k] == b[k]
        }),
        ({
            let x = a[k].manifest.version;
            let y = b[k].manifest.version;
            (x.major > y.major || (x.major == y.major && x.minor > y.minor) || (x.major == y.major
                && x.minor == y.minor && x.patch >= y.patch)) ==> merge_spec(a, b)[k] == a[k]
        }),
{
}

/// The constructs that a list of references points to.
pub open spec fn views_of(r: Seq<&Construct>) -> Seq<ConstructView> {
    r.map_values(|c: &Construct| c@)
}

proof fn lemma_filter_step(s: Seq<ConstructView>, i: int, pred: spec_fn(ConstructView) -> bool)
    requires
        0 <= i < s.len(),
    ensures
        s.take(i + 1).filter(pred) == (if pred(s[i]) {
            s.take(i).filter(pred).push(s[i])
        } else {
            s.take(i).filter(pred)
        }),
{
    reveal_with_fuel(Seq::<_>::filter, 1);
    assert(s.take(i + 1).drop_last() =~= s.take(i));
}

/// Whether `t` equals one of `wanted`.
fn contains_tag(wanted: &[String], t: &String) -> (r: bool)
    ensures
        r == exists|j: int| 0 <= j < wanted@.len() && wanted@[j]@ == t@,
{
    let mut j: usize = 0;
    while j < wanted.len()
        invariant
            j <= wanted@.len(),
            forall|k: int| 0 <= k < j ==> wanted@[k]@ != t@,
        decreases wanted@.len() - j,
    {
        if wanted[j] == *t {
            return true;
        }
        j = j + 1;
    }
    false
}

/// Whether some tag of `own` is one of `wanted`.
fn any_tag_in(own: &Vec<String>, wanted: &[String]) -> (r: bool)
    ensures
        r == has_any_tag(own@, wanted@),
{
    let mut i: usize = 0;
    while i < own.len()
        invariant
            i <= own@.len(),
            forall|a: int, b: int|
                0 <= a < i && 0 <= b < wanted@.len() ==> own@[a]@ != wanted@[b]@,
        decreases own@.len() - i,
    {
        if contains_tag(wanted, &own[i]) {
            return true;
        }
        i = i + 1;
    }
    false
}

/// Merging a registry into itself changes nothing.
pub proof fn lemma_merge_idempotent(a: Map<Seq<char>, ConstructView>)
    ensures
        merge_spec(a, a) == a,
{
    assert(merge_spec(a, a) =~= a);
}

/// Merging with an empty registry, on either side, changes nothing.
pub proof fn lemma_merge_empty(a: Map<Seq<char>, ConstructView>)
    ensures
        merge_spec(a, Map::empty()) == a,
        merge_spec(Map::empty(), a) == a,
{
    assert(merge_spec(a, Map::empty()) =~= a);
    assert(merge_spec(Map::empty(), a) =~= a);
}

/// The merged registry holds exactly the ids of both, and each id holds
/// the newest version that either side had for it.
pub proof fn lemma_merge_keeps_newest(
    a: Map<Seq<char>, ConstructView>,
    b: Map<Seq<char>, ConstructView>,
)
    ensures
        merge_spec(a, b).dom() == a.dom().union(b.dom()),
        forall|k: Seq<char>| #[trigger]
            a.contains_key(k) ==> !version_gt(
                a[k].manifest.version,
                merge_spec(a, b)[k].manifest.version,
            ),
        forall|k: Seq<char>| #[trigger]
            b.contains_key(k) ==> !version_gt(
                b[k].manifest.version,
                merge_spec(a, b)[k].manifest.version,
            ),
        forall|k: Seq<char>| #[trigger]
            merge_spec(a, b).contains_key(k) ==> merge_spec(a, b)[k] == a[k] || merge_spec(
                a,
                b,
            )[k] == b[k],
{
    assert(merge_spec(a, b).dom() =~= a.dom().union(b.dom()));
}

/// Merging is associative: the order in which three registries are
/// combined pairwise does not matter, as long as their order is kept.
pub proof fn lemma_merge_associative(
    a: Map<Seq<char>, ConstructView>,
    b: Map<Seq<char>, ConstructView>,
    c: Map<Seq<char>, ConstructView>,
)
    ensures
        merge_spec(merge_spec(a, b), c) == merge_spec(a, merge_spec(b, c)),
{
    assert(merge_spec(merge_spec(a, b), c) =~= merge_spec(a, merge_spec(b, c)));
}

/// Merging is commutative where no id holds two different constructs
/// under the same version in the two registries (on such a tie the
/// registry merged into keeps its own construct).
pub proof fn lemma_merge_commutative(
    a: Map<Seq<char>, ConstructView>,
    b: Map<Seq<char>, ConstructView>,
)
    requires
        forall|k: Seq<char>|
            a.contains_key(k) && b.contains_key(k) ==> a[k] == b[k]
                || a[k].manifest.version != b[k].manifest.version,
    ensures
        merge_spec(a, b) == merge_spec(b, a),
{
    assert(merge_spec(a, b) =~= merge_spec(b, a));
}

/// After registering a construct, looking its name up gives it back;
/// unregistering it afterwards leaves the registry without the name.
pub proof fn lemma_register_then_lookup(m: Map<Seq<char>, ConstructView>, c: ConstructView)
    ensures
        m.insert(c.manifest.name@, c).contains_key(c.manifest.name@),
        m.insert(c.manifest.name@, c)[c.manifest.name@] == c,
        m.insert(c.manifest.name@, c).remove(c.manifest.name@) == m.remove(c.manifest.name@),
        !m.insert(c.manifest.name@, c).remove(c.manifest.name@).contains_key(c.manifest.name@),
{
    assert(m.insert(c.manifest.name@, c).remove(c.manifest.name@) =~= m.remove(c.manifest.name@));
}

/// Registering under a new name adds one construct; under a known name the
/// count stays.
pub proof fn lemma_register_len(m: Map<Seq<char>, ConstructView>, c: ConstructView)
    requires
        m.dom().finite(),
    ensures
        m.contains_key(c.manifest.name@) ==> m.insert(c.manifest.name@, c).len() == m.len(),
        !m.contains_key(c.manifest.name@) ==> m.insert(c.manifest.name@, c).len() == m.len() + 1,
{
    if m.contains_key(c.manifest.name@) {
        assert(m.insert(c.manifest.name@, c).dom() =~= m.dom());
    }
}

/// Every id of the map names the construct stored under it.
pub open spec fn keyed_by_name(m: Map<Seq<char>, ConstructView>) -> bool {
    forall|k: Seq<char>| #[trigger] m.contains_key(k) ==> m[k].manifest.name@ == k
}

/// Registering, unregistering and merging keep every construct stored under
/// its own manifest name; an empty registry has that property.
pub proof fn lemma_keyed_by_name_preserved(
    m: Map<Seq<char>, ConstructView>,
    other: Map<Seq<char>, ConstructView>,
    c: ConstructView,
    k: Seq<char>,
)
    ensures
        keyed_by_name(Map::<Seq<char>, ConstructView>::empty()),
        keyed_by_name(m) ==> keyed_by_name(m.insert(c.manifest.name@, c)),
        keyed_by_name(m) ==> keyed_by_name(m.remove(k)),
        keyed_by_name(m) && keyed_by_name(other) ==> keyed_by_name(merge_spec(m, other)),
{
}

proof fn lemma_merge_insert(
    a: Map<Seq<char>, ConstructView>,
    c: Map<Seq<char>, ConstructView>,
    k: Seq<char>,
    v: ConstructView,
)
    ensures
        merge_spec(a, c.insert(k, v)) == merge_spec(a, c).insert(
            k,
            merge_entry(a, c.insert(k, v), k),
        ),
{
    assert(merge_spec(a, c.insert(k, v)) =~= merge_spec(a, c).insert(
        k,
        merge_entry(a, c.insert(k, v), k),
    ));
}

impl ConstructRegistry {
    /// The ids in the order in which the registry enumerates them.
    pub closed spec fn key_order(&self) -> Seq<Seq<char>> {
        keys_of(self.constructs@)
    }

    /// Every id occurs once.
    pub closed spec fn wf(&self) -> bool {
        self.key_order().no_duplicates()
    }

    /// The constructs in enumeration order.
    pub open spec fn listing(&self) -> Seq<ConstructView> {
        self.key_order().map_values(|k: Seq<char>| self@[k])
    }

    /// What every well-formed registry keeps: its enumeration lists each id
    /// of the map once, and the map is finite with as many ids.
    pub proof fn lemma_keys(&self)
        requires
            self.wf(),
        ensures
            self.key_order().no_duplicates(),
            self.key_order().to_set() == self@.dom(),
            self@.dom().finite(),
            self@.len() == self.key_order().len(),
            self.listing().len() == self.key_order().len(),
    {
        assert(self.key_order().to_set() =~= self@.dom());
        self.key_order().unique_seq_to_set();
        vstd::seq_lib::seq_to_set_is_finite(self.key_order());
    }

    proof fn lemma_listing(&self)
        requires
            self.wf(),
        ensures
            self.listing() == self.constructs@.map_values(|e: (ConstructId, Construct)| e.1@),
    {
        assert forall|i: int| 0 <= i < self.constructs@.len() implies self.listing()[i]
            == self.constructs@[i].1@ by {
            lemma_entry(self.constructs@, i);
        }
        assert(self.listing() =~= self.constructs@.map_values(
            |e: (ConstructId, Construct)| e.1@,
        ));
    }

    /// The position of `key`, if it is registered.
    fn find(&self, key: &String) -> (r: Option<usize>)
        requires
            self.wf(),
        ensures
            match r {
                Some(i) => i < self.constructs@.len() && self.constructs@[i as int].0@ == key@,
                None => !self@.contains_key(key@),
            },
    {
        let n = self.constructs.len();
        let mut i: usize = 0;
        while i < n
            invariant
                i <= n,
                n == self.constructs@.len(),
                forall|j: int| 0 <= j < i ==> self.constructs@[j].0@ != key@,
            decreases n - i,
        {
            if self.constructs[i].0 == *key {
                return Some(i);
            }
            i = i + 1;
        }
        proof {
            if self@.contains_key(key@) {
                let j = lemma_slot(self.constructs@, key@);
            }
        }
        None
    }

    /// Stores `c` under `key`, replacing what was stored there.
    fn insert_with_key(&mut self, key: ConstructId, c: Construct)
        requires
            old(self).wf(),
        ensures
            final(self).wf(),
            final(self)@ == old(self)@.insert(key@, c@),
    {
        match self.find(&key) {
            Some(i) => {
                proof {
                    lemma_update(self.constructs@, i as int, (key, c));
                }
                self.constructs.set(i, (key, c));
            },
            None => {
                proof {
                    lemma_push(self.constructs@, (key, c));
                }
                self.constructs.push((key, c));
            },
        }
    }

    /// An empty registry.
    pub fn new() -> (r: Self)
        ensures
            r.wf(),
            r@ == Map::<Seq<char>, ConstructView>::empty(),
    {
        let r = ConstructRegistry { constructs: Vec::new() };
        assert(r@ =~= Map::<Seq<char>, ConstructView>::empty());
        r
    }

    /// Register a new construct, under its manifest's name; a construct
    /// registered under that name before is replaced.
    pub fn register(&mut self, construct: Construct)
        requires
            old(self).wf(),
        ensures
            final(self).wf(),
            final(self)@ == old(self)@.insert(construct.manifest.name@, construct@),
    {
        let id = construct.manifest.name.clone();
        self.insert_with_key(id, construct);
    }

    /// Unregister a construct by name, handing it back.
    pub fn unregister(&mut self, name: &str) -> (r: Option<Construct>)
        requires
            old(self).wf(),
        ensures
            final(self).wf(),
            final(self)@ == old(self)@.remove(name@),
            match r {
                Some(c) => old(self)@.contains_key(name@) && c@ == old(self)@[name@],
                None => !old(self)@.contains_key(name@),
            },
    {
        let key = name.to_owned();
        match self.find(&key) {
            Some(i) => {
                proof {
                    lemma_entry(self.constructs@, i as int);
                    lemma_remove(self.constructs@, i as int);
                }
                let (_, c) = self.constructs.remove(i);
                Some(c)
            },
            None => {
                assert(old(self)@.remove(key@) =~= old(self)@);
                None
            },
        }
    }

    /// Get a construct by name.
    pub fn get(&self, name: &str) -> (r: Option<&Construct>)
        requires
            self.wf(),
        ensures
            match r {
                Some(c) => self@.contains_key(name@) && c@ == self@[name@],
                None => !self@.contains_key(name@),
            },
    {
        let key = name.to_owned();
        match self.find(&key) {
            Some(i) => {
                proof {
                    lemma_entry(self.constructs@, i as int);
                }
                Some(&self.constructs[i].1)
            },
            None => None,
        }
    }

    /// Get a mutable reference to a construct. Its id stays what it was,
    /// whatever is written through the reference.
    pub fn get_mut(&mut self, name: &str) -> (r: Option<&mut Construct>)
        requires
            old(self).wf(),
        ensures
            final(self).wf(),
            match r {
                Some(c) => old(self)@.contains_key(name@) && (*c)@ == old(self)@[name@]
                    && final(self)@ == old(self)@.insert(name@, (*final(c))@),
                None => !old(self)@.contains_key(name@) && final(self)@ == old(self)@,
            },
    {
        let key = name.to_owned();
        match self.find(&key) {
            Some(i) => {
                proof {
                    let s0 = self.constructs@;
                    lemma_entry(s0, i as int);
                    assert forall|x: Construct|
                        #[trigger] map_of(s0.update(i as int, (s0[i as int].0, x))) == map_of(
                            s0,
                        ).insert(name@, x@) by {
                        lemma_update(s0, i as int, (s0[i as int].0, x));
                    }
                    assert forall|x: Construct|
                        #[trigger] keys_of(s0.update(i as int, (s0[i as int].0, x))) == keys_of(
                            s0,
                        ) by {
                        lemma_update(s0, i as int, (s0[i as int].0, x));
                    }
                }
                let entry = &mut self.constructs[i];
                Some(&mut entry.1)
            },
            None => None,
        }
    }

    /// List all constructs of a given type (the fields of `filter` do not
    /// matter, only its kind).
    pub fn list_by_type(&self, filter: &ConstructType) -> (r: Vec<&Construct>)
        requires
            self.wf(),
        ensures
            views_of(r@) == of_kind(self.listing(), *filter),
    {
        let ghost pred = |c: ConstructView| same_kind(c.manifest.construct_type, *filter);
        let ghost all = self.constructs@.map_values(|e: (ConstructId, Construct)| e.1@);
        proof {
            self.lemma_listing();
            reveal_with_fuel(Seq::<_>::filter, 1);
            assert(all.take(0) =~= Seq::<ConstructView>::empty());
        }
        let mut r: Vec<&Construct> = Vec::new();
        let n = self.constructs.len();
        let mut i: usize = 0;
        while i < n
            invariant
                i <= n,
                n == self.constructs@.len(),
                all == self.constructs@.map_values(|e: (ConstructId, Construct)| e.1@),
                pred == (|c: ConstructView| same_kind(c.manifest.construct_type, *filter)),
                views_of(r@) == all.take(i as int).filter(pred),
            decreases n - i,
        {
            let c = &self.constructs[i].1;
            proof {
                lemma_filter_step(all, i as int, pred);
            }
            if kind_matches(&c.manifest.construct_type, filter) {
                r.push(c);
                assert(views_of(r@) =~= all.take(i as int).filter(pred).push(all[i as int]));
            }
            i = i + 1;
        }
        assert(all.take(n as int) =~= all);
        r
    }

    /// List all deployed constructs.
    pub fn list_deployed(&self) -> (r: Vec<&Construct>)
        requires
            self.wf(),
        ensures
            views_of(r@) == self.listing().filter(|c: ConstructView| c.state is Deployed),
    {
        let ghost pred = |c: ConstructView| c.state is Deployed;
        let ghost all = self.constructs@.map_values(|e: (ConstructId, Construct)| e.1@);
        proof {
            self.lemma_listing();
            reveal_with_fuel(Seq::<_>::filter, 1);
            assert(all.take(0) =~= Seq::<ConstructView>::empty());
        }
        let mut r: Vec<&Construct> = Vec::new();
        let n = self.constructs.len();
        let mut i: usize = 0;
        while i < n
            invariant
                i <= n,
                n == self.constructs@.len(),
                all == self.constructs@.map_values(|e: (ConstructId, Construct)| e.1@),
                pred == (|c: ConstructView| c.state is Deployed),
                views_of(r@) == all.take(i as int).filter(pred),
            decreases n - i,
        {
            let c = &self.constructs[i].1;
            proof {
                lemma_filter_step(all, i as int, pred);
            }
            if matches!(c.state, ConstructState::Deployed) {
                r.push(c);
                assert(views_of(r@) =~= all.take(i as int).filter(pred).push(all[i as int]));
            }
            i = i + 1;
        }
        assert(all.take(n as int) =~= all);
        r
    }

    /// List constructs that carry at least one of `tags` (for flux-index
    /// discovery).
    pub fn search_by_tags(&self, tags: &[String]) -> (r: Vec<&Construct>)
        requires
            self.wf(),
        ensures
            views_of(r@) == self.listing().filter(
                |c: ConstructView| has_any_tag(c.manifest.tags, tags@),
            ),
    {
        let ghost pred = |c: ConstructView| has_any_tag(c.manifest.tags, tags@);
        let ghost all = self.constructs@.map_values(|e: (ConstructId, Construct)| e.1@);
        proof {
            self.lemma_listing();
            reveal_with_fuel(Seq::<_>::filter, 1);
            assert(all.take(0) =~= Seq::<ConstructView>::empty());
        }
        let mut r: Vec<&Construct> = Vec::new();
        let n = self.constructs.len();
        let mut i: usize = 0;
        while i < n
            invariant
                i <= n,
                n == self.constructs@.len(),
                all == self.constructs@.map_values(|e: (ConstructId, Construct)| e.1@),
                pred == (|c: ConstructView| has_any_tag(c.manifest.tags, tags@)),
                views_of(r@) == all.take(i as int).filter(pred),
            decreases n - i,
        {
            let c = &self.constructs[i].1;
            proof {
                lemma_filter_step(all, i as int, pred);
            }
            if any_tag_in(&c.manifest.tags, tags) {
                r.push(c);
                assert(views_of(r@) =~= all.take(i as int).filter(pred).push(all[i as int]));
            }
            i = i + 1;
        }
        assert(all.take(n as int) =~= all);
        r
    }

    /// Merge another registry into this one (CRDT-style, last-write-wins by
    /// version): an id of `other` takes `other`'s construct where this
    /// registry lacks the id or holds an older version of it.
    pub fn merge(&mut self, other: &ConstructRegistry)
        requires
            old(self).wf(),
            other.wf(),
        ensures
            final(self).wf(),
            final(self)@ == merge_spec(old(self)@, other@),
    {
        let ghost a = self@;
        let ghost ok = keys_of(other.constructs@);
        proof {
            assert(ok.take(0).to_set() =~= Set::<Seq<char>>::empty());
            assert(other@.restrict(ok.take(0).to_set()) =~= Map::<Seq<char>, ConstructView>::empty());
            assert(merge_spec(a, Map::<Seq<char>, ConstructView>::empty()) =~= a);
        }
        let n = other.constructs.len();
        let mut i: usize = 0;
        while i < n
            invariant
                self.wf(),
                other.wf(),
                n == other.constructs@.len(),
                i <= n,
                ok == keys_of(other.constructs@),
                self@ == merge_spec(a, other@.restrict(ok.take(i as int).to_set())),
            decreases n - i,
        {
            let entry = &other.constructs[i];
            let ghost k = entry.0@;
            let ghost v = entry.1@;
            let ghost c = other@.restrict(ok.take(i as int).to_set());
            proof {
                lemma_entry(other.constructs@, i as int);
                assert(ok.take(i as int + 1).to_set() == ok.take(i as int).to_set().insert(k)) by {
                    assert(ok.take(i as int + 1) =~= ok.take(i as int).push(k));
                    ok.take(i as int).lemma_push_to_set_commute(k);
                }
                assert(!ok.take(i as int).contains(k)) by {
                    if ok.take(i as int).contains(k) {
                        let j = choose|j: int| 0 <= j < i && ok.take(i as int)[j] == k;
                        assert(ok[j] == ok[i as int]);
                    }
                }
                assert(!c.contains_key(k));
                assert(other@.restrict(ok.take(i as int + 1).to_set()) =~= c.insert(k, v));
                lemma_merge_insert(a, c, k, v);
                assert(self@.contains_key(k) == a.contains_key(k));
                assert(a.contains_key(k) ==> self@[k] == a[k]);
            }
            match self.find(&entry.0) {
                Some(j) => {
                    proof {
                        lemma_entry(self.constructs@, j as int);
                    }
                    if entry.1.manifest.version.is_newer_than(&self.constructs[j].1.manifest.version) {
                        self.insert_with_key(entry.0.clone(), entry.1.clone());
                    } else {
                        assert(self@ =~= self@.insert(k, a[k]));
                    }
                },
                None => {
                    self.insert_with_key(entry.0.clone(), entry.1.clone());
                },
            }
            i = i + 1;
        }
        proof {
            other.lemma_keys();
            assert(ok.take(n as int) =~= ok);
            assert(other@.restrict(ok.to_set()) =~= other@);
        }
    }

    /// Total number of constructs.
    pub fn len(&self) -> (r: usize)
        requires
            self.wf(),
        ensures
            r == self@.len(),
    {
        proof {
            self.lemma_keys();
        }
        self.constructs.len()
    }

    /// Whether the registry is empty.
    pub fn is_empty(&self) -> (r: bool)
        requires
            self.wf(),
        ensures
            r == (self@.len() == 0),
    {
        proof {
            self.lemma_keys();
        }
        self.constructs.len() == 0
    }
}

impl Clone for ConstructRegistry {
    fn clone(&self) -> (r: Self)
        ensures
            r@ == self@,
            r.key_order() == self.key_order(),
            self.wf() ==> r.wf(),
    {
        let n = self.constructs.len();
        let mut out: Vec<(ConstructId, Construct)> = Vec::new();
        let mut i: usize = 0;
        while i < n
            invariant
                i <= n,
                n == self.constructs@.len(),
                out@.len() == i,
                forall|j: int|
                    0 <= j < i ==> #[trigger] out@[j].0 == self.constructs@[j].0 && out@[j].1@
                        == self.constructs@[j].1@,
            decreases n - i,
        {
            let e = &self.constructs[i];
            out.push((e.0.clone(), e.1.clone()));
            i = i + 1;
        }
        let r = ConstructRegistry { constructs: out };
        proof {
            let s = self.constructs@;
            let t = r.constructs@;
            assert(keys_of(t) =~= keys_of(s));
            assert forall|k: Seq<char>| #[trigger] map_of(t).contains_key(k) implies map_of(t)[k]
                == map_of(s)[k] by {
                let j = slot_of(s, k);
                assert(slot_of(t, k) == j);
                assert(0 <= j < s.len() && keys_of(s)[j] == k) by {
                    let w = choose|w: int| 0 <= w < keys_of(t).len() && keys_of(t)[w] == k;
                }
            }
            assert(map_of(t) =~= map_of(s));
        }
        r
    }
}

impl Default for ConstructRegistry {
    fn default() -> (r: Self)
        ensures
            r.wf(),
            r@ == Map::<Seq<char>, ConstructView>::empty(),
    {
        Self::new()
    }
}

impl View for ConstructRegistry {
    type V = Map<Seq<char>, ConstructView>;

    closed spec fn view(&self) -> Map<Seq<char>, ConstructView> {
        map_of(self.constructs@)
    }
}

} // verus!
