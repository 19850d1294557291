use vstd::prelude::*;

verus! {

// ---------------------------------------------------------------------------
// Mathematical model: an ordered record is a sequence of key/value pairs in
// which every key occurs at most once.  Merging inserts pairs one at a time;
// a pair whose key is already present overwrites the value in place, keeping
// the position of the first occurrence, so insertion order is preserved and
// the later value wins on collision.
// ---------------------------------------------------------------------------

/// The view of a sequence of owned string pairs.
pub open spec fn pairs_view(ps: Seq<(String, String)>) -> Seq<(Seq<char>, Seq<char>)> {
    ps.map_values(|p: (String, String)| (p.0@, p.1@))
}

/// Whether some entry of `rec` has key `k`.
pub open spec fn has_key(rec: Seq<(Seq<char>, Seq<char>)>, k: Seq<char>) -> bool {
    exists|i: int| 0 <= i < rec.len() && rec[i].0 == k
}

/// Every key occurs at most once.
pub open spec fn keys_unique(rec: Seq<(Seq<char>, Seq<char>)>) -> bool {
    forall|i: int, j: int| 0 <= i < j < rec.len() ==> rec[i].0 != rec[j].0
}

/// Insert `(k, v)` into `rec`: overwrite the value at the first entry whose
/// key is `k`, keeping its position, or append a new entry when `k` is absent.
pub open spec fn upsert(
    rec: Seq<(Seq<char>, Seq<char>)>,
    k: Seq<char>,
    v: Seq<char>,
) -> Seq<(Seq<char>, Seq<char>)>
    decreases rec.len(),
{
    if rec.len() == 0 {
        seq![(k, v)]
    } else if rec[0].0 == k {
        seq![(k, v)] + rec.drop_first()
    } else {
        seq![rec[0]] + upsert(rec.drop_first(), k, v)
    }
}

/// Insert every pair of `ps` into `rec`, left to right.
pub open spec fn upsert_all(
    rec: Seq<(Seq<char>, Seq<char>)>,
    ps: Seq<(Seq<char>, Seq<char>)>,
) -> Seq<(Seq<char>, Seq<char>)>
    decreases ps.len(),
{
    if ps.len() == 0 {
        rec
    } else {
        upsert_all(upsert(rec, ps[0].0, ps[0].1), ps.drop_first())
    }
}

/// The subsequence of `ps` whose keys lie in `filter`, in the order of `ps`.
pub open spec fn selected(
    ps: Seq<(Seq<char>, Seq<char>)>,
    filter: Set<Seq<char>>,
) -> Seq<(Seq<char>, Seq<char>)>
    decreases ps.len(),
{
    if ps.len() == 0 {
        ps
    } else if filter.contains(ps[0].0) {
        seq![ps[0]] + selected(ps.drop_first(), filter)
    } else {
        selected(ps.drop_first(), filter)
    }
}

/// The set of names held by a list of owned strings.
pub open spec fn names_set(names: Seq<String>) -> Set<Seq<char>> {
    Set::new(|k: Seq<char>| exists|i: int| 0 <= i < names.len() && names[i]@ == k)
}

/// The merge rule: start from the plain variables in reported order, then
/// insert the filter-selected shell variables in reported order; a selected
/// shell value overwrites a plain value with the same key in place.
pub open spec fn merged_record(
    plain: Seq<(Seq<char>, Seq<char>)>,
    shell: Seq<(Seq<char>, Seq<char>)>,
    filter: Set<Seq<char>>,
) -> Seq<(Seq<char>, Seq<char>)> {
    upsert_all(upsert_all(Seq::empty(), plain), selected(shell, filter))
}

// ---------------------------------------------------------------------------
// Facts about the model.
// ---------------------------------------------------------------------------

/// `upsert` only ever has the keys of `rec` plus `k`.
proof fn lemma_upsert_keys(rec: Seq<(Seq<char>, Seq<char>)>, k: Seq<char>, v: Seq<char>)
    ensures
        forall|q: Seq<char>| has_key(upsert(rec, k, v), q) ==> has_key(rec, q) || q == k,
        has_key(upsert(rec, k, v), k),
    decreases rec.len(),
{
    if rec.len() == 0 {
        assert(upsert(rec, k, v)[0].0 == k);
    } else if rec[0].0 == k {
        assert(upsert(rec, k, v)[0].0 == k);
        assert forall|q: Seq<char>| has_key(upsert(rec, k, v), q) implies has_key(rec, q) || q
            == k by {
            let i = choose|i: int| 0 <= i < upsert(rec, k, v).len() && upsert(rec, k, v)[i].0 == q;
            if i > 0 {
                assert(rec[i].0 == q);
            }
        }
    } else {
        lemma_upsert_keys(rec.drop_first(), k, v);
        let up = upsert(rec, k, v);
        let tail = upsert(rec.drop_first(), k, v);
        let wk = choose|i: int| 0 <= i < tail.len() && tail[i].0 == k;
        assert(up[wk + 1].0 == k);
        assert forall|q: Seq<char>| has_key(up, q) implies has_key(rec, q) || q == k by {
            let i = choose|i: int| 0 <= i < up.len() && up[i].0 == q;
            if i == 0 {
                assert(rec[0].0 == q);
            } else {
                assert(tail[i - 1].0 == q);
                assert(has_key(tail, q));
                if has_key(rec.drop_first(), q) {
                    let j = choose|j: int|
                        0 <= j < rec.drop_first().len() && rec.drop_first()[j].0 == q;
                    assert(rec[j + 1].0 == q);
                }
            }
        }
    }
}

/// `upsert` keeps keys unique.
proof fn lemma_upsert_unique(rec: Seq<(Seq<char>, Seq<char>)>, k: Seq<char>, v: Seq<char>)
    requires
        keys_unique(rec),
    ensures
        keys_unique(upsert(rec, k, v)),
    decreases rec.len(),
{
    if rec.len() == 0 {
    } else if rec[0].0 == k {
        let up = upsert(rec, k, v);
        assert forall|i: int, j: int| 0 <= i < j < up.len() implies up[i].0 != up[j].0 by {
            if i == 0 {
                assert(up[j].0 == rec[j].0);
            } else {
                assert(up[i].0 == rec[i].0 && up[j].0 == rec[j].0);
            }
        }
    } else {
        assert forall|i: int, j: int|
            0 <= i < j < rec.drop_first().len() implies rec.drop_first()[i].0
            != rec.drop_first()[j].0 by {
            assert(rec[i + 1].0 != rec[j + 1].0);
        }
        lemma_upsert_unique(rec.drop_first(), k, v);
        lemma_upsert_keys(rec.drop_first(), k, v);
        let up = upsert(rec, k, v);
        let tail = upsert(rec.drop_first(), k, v);
        assert forall|i: int, j: int| 0 <= i < j < up.len() implies up[i].0 != up[j].0 by {
            if i == 0 {
                assert(up[j].0 == tail[j - 1].0);
                if up[0].0 == up[j].0 {
                    assert(has_key(tail, rec[0].0));
                    if has_key(rec.drop_first(), rec[0].0) {
                        let w = choose|w: int|
                            0 <= w < rec.drop_first().len() && rec.drop_first()[w].0 == rec[0].0;
                        assert(rec[w + 1].0 == rec[0].0);
                    }
                }
            } else {
                assert(up[i].0 == tail[i - 1].0 && up[j].0 == tail[j - 1].0);
            }
        }
    }
}

/// `upsert_all` keeps keys unique.
proof fn lemma_upsert_all_unique(rec: Seq<(Seq<char>, Seq<char>)>, ps: Seq<(Seq<char>, Seq<char>)>)
    requires
        keys_unique(rec),
    ensures
        keys_unique(upsert_all(rec, ps)),
    decreases ps.len(),
{
    if ps.len() > 0 {
        lemma_upsert_unique(rec, ps[0].0, ps[0].1);
        lemma_upsert_all_unique(upsert(rec, ps[0].0, ps[0].1), ps.drop_first());
    }
}

/// Keys of `upsert_all` come from `rec` or from the inserted pairs.
proof fn lemma_upsert_all_keys(rec: Seq<(Seq<char>, Seq<char>)>, ps: Seq<(Seq<char>, Seq<char>)>)
    ensures
        forall|q: Seq<char>|
            has_key(upsert_all(rec, ps), q) ==> has_key(rec, q) || has_key(ps, q),
    decreases ps.len(),
{
    if ps.len() > 0 {
        let stepped = upsert(rec, ps[0].0, ps[0].1);
        lemma_upsert_keys(rec, ps[0].0, ps[0].1);
        lemma_upsert_all_keys(stepped, ps.drop_first());
        assert forall|q: Seq<char>| has_key(upsert_all(rec, ps), q) implies has_key(rec, q)
            || has_key(ps, q) by {
            if has_key(stepped, q) || has_key(ps.drop_first(), q) {
                if q == ps[0].0 {
                    assert(ps[0].0 == q);
                    assert(has_key(ps, q));
                } else if has_key(ps.drop_first(), q) {
                    let w = choose|w: int|
                        0 <= w < ps.drop_first().len() && ps.drop_first()[w].0 == q;
                    assert(ps[w + 1].0 == q);
                }
            }
        }
    }
}

/// With an empty filter no shell variable is selected, so the merged record
/// is exactly the record built from the plain variables alone.  This is the
/// opt-in rule for shell-local variables.
pub proof fn lemma_empty_filter_keeps_plain_only(
    plain: Seq<(Seq<char>, Seq<char>)>,
    shell: Seq<(Seq<char>, Seq<char>)>,
    filter: Set<Seq<char>>,
)
    requires
        forall|k: Seq<char>| !filter.contains(k),
    ensures
        merged_record(plain, shell, filter) == upsert_all(Seq::empty(), plain),
        forall|q: Seq<char>| has_key(merged_record(plain, shell, filter), q) ==> has_key(plain, q),
{
    lemma_selected_empty(shell, filter);
    lemma_upsert_all_keys(Seq::empty(), plain);
}

proof fn lemma_selected_empty(ps: Seq<(Seq<char>, Seq<char>)>, filter: Set<Seq<char>>)
    requires
        forall|k: Seq<char>| !filter.contains(k),
    ensures
        selected(ps, filter) == Seq::<(Seq<char>, Seq<char>)>::empty(),
    decreases ps.len(),
{
    if ps.len() == 0 {
        assert(selected(ps, filter) =~= Seq::<(Seq<char>, Seq<char>)>::empty());
    } else {
        lemma_selected_empty(ps.drop_first(), filter);
    }
}

/// The value at the first entry of `rec` whose key is `k`.
pub open spec fn lookup(rec: Seq<(Seq<char>, Seq<char>)>, k: Seq<char>) -> Option<Seq<char>>
    decreases rec.len(),
{
    if rec.len() == 0 {
        None
    } else if rec[0].0 == k {
        Some(rec[0].1)
    } else {
        lookup(rec.drop_first(), k)
    }
}

proof fn lemma_lookup_upsert_same(rec: Seq<(Seq<char>, Seq<char>)>, k: Seq<char>, v: Seq<char>)
    ensures
        lookup(upsert(rec, k, v), k) == Some(v),
    decreases rec.len(),
{
    if rec.len() == 0 {
    } else if rec[0].0 == k {
    } else {
        lemma_lookup_upsert_same(rec.drop_first(), k, v);
        assert(upsert(rec, k, v).drop_first() =~= upsert(rec.drop_first(), k, v));
    }
}

proof fn lemma_lookup_upsert_other(
    rec: Seq<(Seq<char>, Seq<char>)>,
    k: Seq<char>,
    v: Seq<char>,
    q: Seq<char>,
)
    requires
        q != k,
    ensures
        lookup(upsert(rec, k, v), q) == lookup(rec, q),
    decreases rec.len(),
{
    if rec.len() == 0 {
        assert(upsert(rec, k, v).drop_first() =~= Seq::<(Seq<char>, Seq<char>)>::empty());
        assert(lookup(upsert(rec, k, v), q) == lookup(
            Seq::<(Seq<char>, Seq<char>)>::empty(),
            q,
        ));
    } else if rec[0].0 == k {
        assert(upsert(rec, k, v).drop_first() =~= rec.drop_first());
    } else {
        lemma_lookup_upsert_other(rec.drop_first(), k, v, q);
        assert(upsert(rec, k, v).drop_first() =~= upsert(rec.drop_first(), k, v));
    }
}

proof fn lemma_lookup_upsert_all_absent(
    rec: Seq<(Seq<char>, Seq<char>)>,
    ps: Seq<(Seq<char>, Seq<char>)>,
    k: Seq<char>,
)
    requires
        forall|j: int| 0 <= j < ps.len() ==> ps[j].0 != k,
    ensures
        lookup(upsert_all(rec, ps), k) == lookup(rec, k),
    decreases ps.len(),
{
    if ps.len() > 0 {
        lemma_lookup_upsert_other(rec, ps[0].0, ps[0].1, k);
        assert forall|j: int| 0 <= j < ps.drop_first().len() implies ps.drop_first()[j].0
            != k by {
            assert(ps[j + 1].0 != k);
        }
        lemma_lookup_upsert_all_absent(upsert(rec, ps[0].0, ps[0].1), ps.drop_first(), k);
    }
}

proof fn lemma_lookup_upsert_all_hit(
    rec: Seq<(Seq<char>, Seq<char>)>,
    ps: Seq<(Seq<char>, Seq<char>)>,
    i: int,
)
    requires
        0 <= i < ps.len(),
        forall|j: int| 0 <= j < ps.len() && j != i ==> ps[j].0 != ps[i].0,
    ensures
        lookup(upsert_all(rec, ps), ps[i].0) == Some(ps[i].1),
    decreases ps.len(),
{
    let stepped = upsert(rec, ps[0].0, ps[0].1);
    if i == 0 {
        lemma_lookup_upsert_same(rec, ps[0].0, ps[0].1);
        assert forall|j: int| 0 <= j < ps.drop_first().len() implies ps.drop_first()[j].0
            != ps[0].0 by {
            assert(ps[j + 1].0 != ps[0].0);
        }
        lemma_lookup_upsert_all_absent(stepped, ps.drop_first(), ps[0].0);
    } else {
        assert(ps.drop_first()[i - 1] == ps[i]);
        assert forall|j: int|
            0 <= j < ps.drop_first().len() && j != i - 1 implies #[trigger] ps.drop_first()[j].0
            != ps.drop_first()[i - 1].0 by {
            assert(ps[j + 1].0 != ps[i].0);
        }
        lemma_lookup_upsert_all_hit(stepped, ps.drop_first(), i - 1);
    }
}

proof fn lemma_selected_no_key(
    ps: Seq<(Seq<char>, Seq<char>)>,
    filter: Set<Seq<char>>,
    k: Seq<char>,
)
    requires
        forall|j: int| 0 <= j < ps.len() ==> ps[j].0 != k,
    ensures
        forall|j: int| 0 <= j < selected(ps, filter).len() ==> selected(ps, filter)[j].0 != k,
    decreases ps.len(),
{
    if ps.len() > 0 {
        assert forall|j: int| 0 <= j < ps.drop_first().len() implies ps.drop_first()[j].0
            != k by {
            assert(ps[j + 1].0 != k);
        }
        lemma_selected_no_key(ps.drop_first(), filter, k);
        if filter.contains(ps[0].0) {
            assert(selected(ps, filter) == seq![ps[0]] + selected(ps.drop_first(), filter));
            assert forall|j: int|
                0 <= j < selected(ps, filter).len() implies #[trigger] selected(ps, filter)[j].0
                != k by {
                if j > 0 {
                    assert(selected(ps, filter)[j] == selected(ps.drop_first(), filter)[j - 1]);
                }
            }
        }
    }
}

proof fn lemma_selected_unique_entry(
    ps: Seq<(Seq<char>, Seq<char>)>,
    filter: Set<Seq<char>>,
    i: int,
) -> (j: int)
    requires
        keys_unique(ps),
        0 <= i < ps.len(),
        filter.contains(ps[i].0),
    ensures
        0 <= j < selected(ps, filter).len(),
        selected(ps, filter)[j] == ps[i],
        forall|m: int|
            0 <= m < selected(ps, filter).len() && m != j ==> selected(ps, filter)[m].0
                != ps[i].0,
    decreases ps.len(),
{
    let sel = selected(ps, filter);
    let tail = ps.drop_first();
    assert forall|a: int, b: int| 0 <= a < b < tail.len() implies tail[a].0 != tail[b].0 by {
        assert(ps[a + 1].0 != ps[b + 1].0);
    }
    if i == 0 {
        assert forall|j2: int| 0 <= j2 < tail.len() implies tail[j2].0 != ps[0].0 by {
            assert(ps[j2 + 1].0 != ps[0].0);
        }
        lemma_selected_no_key(tail, filter, ps[0].0);
        assert(sel == seq![ps[0]] + selected(tail, filter));
        assert(sel[0] == ps[0]);
        assert forall|m: int| 0 <= m < sel.len() && m != 0 implies sel[m].0 != ps[0].0 by {
            assert(sel[m] == selected(tail, filter)[m - 1]);
        }
        0
    } else {
        assert(tail[i - 1] == ps[i]);
        let j_tail = lemma_selected_unique_entry(tail, filter, i - 1);
        if filter.contains(ps[0].0) {
            assert(sel == seq![ps[0]] + selected(tail, filter));
            assert(sel[j_tail + 1] == ps[i]);
            assert(ps[0].0 != ps[i].0);
            assert forall|m: int| 0 <= m < sel.len() && m != j_tail + 1 implies sel[m].0
                != ps[i].0 by {
                if m > 0 {
                    assert(sel[m] == selected(tail, filter)[m - 1]);
                }
            }
            j_tail + 1
        } else {
            assert(sel == selected(tail, filter));
            j_tail
        }
    }
}

/// The later value wins: a shell variable that the filter selects, with the
/// shell mapping's keys unique as the helper reports them, ends up in the
/// merged record with its shell value, whatever the plain variables held
/// under the same name.
pub proof fn lemma_selected_shell_value_wins(
    plain: Seq<(Seq<char>, Seq<char>)>,
    shell: Seq<(Seq<char>, Seq<char>)>,
    filter: Set<Seq<char>>,
    i: int,
)
    requires
        keys_unique(shell),
        0 <= i < shell.len(),
        filter.contains(shell[i].0),
    ensures
        lookup(merged_record(plain, shell, filter), shell[i].0) == Some(shell[i].1),
{
    let j = lemma_selected_unique_entry(shell, filter, i);
    lemma_lookup_upsert_all_hit(upsert_all(Seq::empty(), plain), selected(shell, filter), j);
}

// ---------------------------------------------------------------------------
// Executable record.
// ---------------------------------------------------------------------------

/// An ordered mapping from variable names to values, with unique keys,
/// built fresh per invocation.
pub struct OutputRecord {
    entries: Vec<(String, String)>,
}

impl View for OutputRecord {
    type V = Seq<(Seq<char>, Seq<char>)>;

    closed spec fn view(&self) -> Seq<(Seq<char>, Seq<char>)> {
        pairs_view(self.entries@)
    }
}

impl OutputRecord {
    /// The record's keys are unique.
    pub open spec fn well_formed(&self) -> bool {
        keys_unique(self@)
    }

    /// The entries, in record order.
    pub fn entries(&self) -> (r: &Vec<(String, String)>)
        ensures
            pairs_view(r@) == self@,
    {
        &self.entries
    }

    /// The number of entries.
    pub fn len(&self) -> (r: usize)
        ensures
            r == self@.len(),
    {
        self.entries.len()
    }

    /// The value recorded under `name`, if any.
    pub fn get(&self, name: &String) -> (r: Option<&String>)
        ensures
            (match r {
                Some(v) => lookup(self@, name@) == Some(v@),
                None => lookup(self@, name@) is None,
            }),
    {
        let ghost rec = self@;
        let mut i: usize = 0;
        while i < self.entries.len()
            invariant
                i <= self.entries.len(),
                rec == pairs_view(self.entries@),
                forall|j: int| 0 <= j < i ==> self.entries@[j].0@ != name@,
            decreases self.entries.len() - i,
        {
            if self.entries[i].0 == *name {
                proof {
                    lemma_lookup_skip(rec, name@, i as int);
                    assert(rec.skip(i as int)[0] == rec[i as int]);
                }
                return Some(&self.entries[i].1);
            }
            i = i + 1;
        }
        proof {
            lemma_lookup_skip(rec, name@, rec.len() as int);
            assert(rec.skip(rec.len() as int) =~= Seq::<(Seq<char>, Seq<char>)>::empty());
        }
        None
    }
}

/// Skipping entries whose keys all differ from `k` does not change the
/// looked-up value.
proof fn lemma_lookup_skip(rec: Seq<(Seq<char>, Seq<char>)>, k: Seq<char>, i: int)
    requires
        0 <= i <= rec.len(),
        forall|j: int| 0 <= j < i ==> rec[j].0 != k,
    ensures
        lookup(rec, k) == lookup(rec.skip(i), k),
    decreases i,
{
    if i == 0 {
        assert(rec.skip(0) =~= rec);
    } else {
        assert(rec[0].0 != k);
        assert forall|j: int| 0 <= j < i - 1 implies rec.drop_first()[j].0 != k by {
            assert(rec[j + 1].0 != k);
        }
        lemma_lookup_skip(rec.drop_first(), k, i - 1);
        assert(rec.drop_first().skip(i - 1) =~= rec.skip(i));
    }
}

/// If the first `k`-keyed entry of `rec` is at `i`, upserting `(k, v)`
/// updates index `i` in place.
proof fn lemma_upsert_at_index(
    rec: Seq<(Seq<char>, Seq<char>)>,
    k: Seq<char>,
    v: Seq<char>,
    i: int,
)
    requires
        0 <= i < rec.len(),
        rec[i].0 == k,
        forall|j: int| 0 <= j < i ==> rec[j].0 != k,
    ensures
        upsert(rec, k, v) =~= rec.update(i, (k, v)),
    decreases rec.len(),
{
    if i == 0 {
        assert(upsert(rec, k, v) =~= rec.update(0, (k, v)));
    } else {
        assert(rec.drop_first()[i - 1].0 == k);
        assert forall|j: int| 0 <= j < i - 1 implies rec.drop_first()[j].0 != k by {
            assert(rec[j + 1].0 != k);
        }
        lemma_upsert_at_index(rec.drop_first(), k, v, i - 1);
        assert(upsert(rec, k, v) =~= rec.update(i, (k, v)));
    }
}

/// If no entry of `rec` has key `k`, upserting `(k, v)` appends it.
proof fn lemma_upsert_appends(rec: Seq<(Seq<char>, Seq<char>)>, k: Seq<char>, v: Seq<char>)
    requires
        forall|j: int| 0 <= j < rec.len() ==> rec[j].0 != k,
    ensures
        upsert(rec, k, v) =~= rec.push((k, v)),
    decreases rec.len(),
{
    if rec.len() > 0 {
        assert forall|j: int| 0 <= j < rec.drop_first().len() implies rec.drop_first()[j].0
            != k by {
            assert(rec[j + 1].0 != k);
        }
        lemma_upsert_appends(rec.drop_first(), k, v);
        assert(upsert(rec, k, v) =~= rec.push((k, v)));
    }
}

/// Insert one pair into the entry list, overwriting in place on collision.
fn upsert_entry(entries: &mut Vec<(String, String)>, k: String, v: String)
    ensures
        pairs_view(final(entries)@) == upsert(pairs_view(old(entries)@), k@, v@),
{
    let ghost orig = pairs_view(old(entries)@);
    let ghost gk = k@;
    let ghost gv = v@;
    let mut i: usize = 0;
    while i < entries.len()
        invariant
            i <= entries.len(),
            gk == k@,
            gv == v@,
            orig == pairs_view(entries@),
            orig == pairs_view(old(entries)@),
            forall|j: int| 0 <= j < i ==> entries@[j].0@ != gk,
        decreases entries.len() - i,
    {
        if entries[i].0 == k {
            proof {
                assert(orig[i as int].0 == gk);
                lemma_upsert_at_index(orig, gk, gv, i as int);
            }
            let p = (k, v);
            proof {
                assert(p.0@ == gk && p.1@ == gv);
            }
            entries.set(i, p);
            proof {
                assert(pairs_view(entries@) =~= orig.update(i as int, (gk, gv)));
                assert(upsert(orig, gk, gv) =~= orig.update(i as int, (gk, gv)));
            }
            return ;
        }
        i = i + 1;
    }
    proof {
        assert forall|j: int| 0 <= j < orig.len() implies orig[j].0 != gk by {
            assert(entries@[j].0@ != gk);
        }
        lemma_upsert_appends(orig, gk, gv);
    }
    entries.push((k, v));
    proof {
        assert(pairs_view(entries@) =~= orig.push((gk, gv)));
    }
}

/// Whether `name` occurs in `names`.
fn contains_name(names: &Vec<String>, name: &String) -> (r: bool)
    ensures
        r == names_set(names@).contains(name@),
{
    let mut i: usize = 0;
    while i < names.len()
        invariant
            i <= names.len(),
            forall|j: int| 0 <= j < i ==> names@[j]@ != name@,
        decreases names.len() - i,
    {
        if names[i] == *name {
            assert(names_set(names@).contains(name@));
            return true;
        }
        i = i + 1;
    }
    assert(!names_set(names@).contains(name@));
    false
}

/// The head of `s.skip(i)` is `s[i]` and the rest is `s.skip(i + 1)`.
pub(crate) proof fn lemma_skip_step<T>(s: Seq<T>, i: int)
    requires
        0 <= i < s.len(),
    ensures
        s.skip(i).len() == s.len() - i,
        s.skip(i)[0] == s[i],
        s.skip(i).drop_first() =~= s.skip(i + 1),
{
}

/// Merge plain variables with the filter-selected shell variables into an
/// ordered record: every plain variable in reported order, then every shell
/// variable whose name is in `export`, in reported order; a selected shell
/// value overwrites a plain value with the same name in place.  With an
/// empty `export` list no shell variable is surfaced.
pub fn create_record(
    plain: Vec<(String, String)>,
    shellvars: Vec<(String, String)>,
    export: Vec<String>,
) -> (r: OutputRecord)
    ensures
        r@ == merged_record(pairs_view(plain@), pairs_view(shellvars@), names_set(export@)),
        r.well_formed(),
{
    let ghost pv = pairs_view(plain@);
    let ghost sv = pairs_view(shellvars@);
    let ghost fset = names_set(export@);
    let mut entries: Vec<(String, String)> = Vec::new();
    proof {
        assert(pairs_view(entries@) =~= Seq::<(Seq<char>, Seq<char>)>::empty());
        assert(pv.skip(0) =~= pv);
    }

    let mut i: usize = 0;
    while i < plain.len()
        invariant
            i <= plain.len(),
            pv == pairs_view(plain@),
            upsert_all(pairs_view(entries@), pv.skip(i as int)) == upsert_all(Seq::empty(), pv),
        decreases plain.len() - i,
    {
        let ghost before = pairs_view(entries@);
        let (k, v) = (plain[i].0.clone(), plain[i].1.clone());
        proof {
            lemma_skip_step(pv, i as int);
            assert(upsert_all(before, pv.skip(i as int)) == upsert_all(
                upsert(before, pv[i as int].0, pv[i as int].1),
                pv.skip(i as int + 1),
            ));
        }
        upsert_entry(&mut entries, k, v);
        i = i + 1;
    }
    proof {
        assert(pv.skip(plain.len() as int) =~= Seq::<(Seq<char>, Seq<char>)>::empty());
        assert(pairs_view(entries@) == upsert_all(Seq::empty(), pv));
    }

    let ghost plain_rec = pairs_view(entries@);
    proof {
        assert(sv.skip(0) =~= sv);
    }
    let mut i: usize = 0;
    while i < shellvars.len()
        invariant
            i <= shellvars.len(),
            sv == pairs_view(shellvars@),
            fset == names_set(export@),
            upsert_all(pairs_view(entries@), selected(sv.skip(i as int), fset)) == upsert_all(
                plain_rec,
                selected(sv, fset),
            ),
        decreases shellvars.len() - i,
    {
        let ghost before = pairs_view(entries@);
        proof {
            lemma_skip_step(sv, i as int);
        }
        let keep = contains_name(&export, &shellvars[i].0);
        if keep {
            let (k, v) = (shellvars[i].0.clone(), shellvars[i].1.clone());
            proof {
                assert(selected(sv.skip(i as int), fset) == seq![sv[i as int]] + selected(
                    sv.skip(i as int + 1),
                    fset,
                ));
                let sel = seq![sv[i as int]] + selected(sv.skip(i as int + 1), fset);
                assert(sel.drop_first() =~= selected(sv.skip(i as int + 1), fset));
                assert(upsert_all(before, sel) == upsert_all(
                    upsert(before, sv[i as int].0, sv[i as int].1),
                    selected(sv.skip(i as int + 1), fset),
                ));
            }
            upsert_entry(&mut entries, k, v);
        } else {
            proof {
                assert(selected(sv.skip(i as int), fset) == selected(sv.skip(i as int + 1), fset));
            }
        }
        i = i + 1;
    }
    proof {
        assert(sv.skip(shellvars.len() as int) =~= Seq::<(Seq<char>, Seq<char>)>::empty());
        lemma_upsert_all_unique(Seq::empty(), pv);
        lemma_upsert_all_unique(plain_rec, selected(sv, fset));
    }
    OutputRecord { entries }
}

} // verus!
