//! Restore history: the geometry each window had before it was last
//! snapped, newest last, so that `restore` can undo a snap.
use vstd::prelude::*;

verus! {

/// At most this many windows are remembered; the oldest are forgotten.
pub const MAX_ENTRIES: usize = 50;

/// Position and size of a window.
#[derive(Debug, Clone, Copy, PartialEq, Eq, Structural)]
pub struct Geometry {
    pub x: i32,
    pub y: i32,
    pub width: i32,
    pub height: i32,
}

/// One remembered window: its address and where it was.
#[derive(Debug)]
pub struct Entry {
    pub address: String,
    pub geometry: Geometry,
}

/// The history as plain values: (address, geometry) pairs, oldest first.
pub open spec fn entries_view(entries: Seq<Entry>) -> Seq<(Seq<char>, Geometry)> {
    entries.map_values(|e: Entry| (e.address@, e.geometry))
}

/// The restore history, oldest entry first.
#[derive(Debug)]
pub struct State {
    pub entries: Vec<Entry>,
}

impl View for State {
    type V = Seq<(Seq<char>, Geometry)>;

    open spec fn view(&self) -> Seq<(Seq<char>, Geometry)> {
        entries_view(self.entries@)
    }
}

impl Default for State {
    fn default() -> (s: Self)
        ensures
            s@ == Seq::<(Seq<char>, Geometry)>::empty(),
    {
        State { entries: Vec::new() }
    }
}

/// Does this entry belong to another window than `address`?
pub open spec fn other_window(address: Seq<char>) -> spec_fn((Seq<char>, Geometry)) -> bool {
    |e: (Seq<char>, Geometry)| e.0 != address
}

/// The newest `MAX_ENTRIES` entries of `s`.
pub open spec fn newest(s: Seq<(Seq<char>, Geometry)>) -> Seq<(Seq<char>, Geometry)> {
    if s.len() > MAX_ENTRIES {
        s.skip(s.len() - MAX_ENTRIES)
    } else {
        s
    }
}

/// The history after remembering `geometry` for `address`: every earlier
/// entry of that window is dropped, the new one goes last, and only the
/// newest `MAX_ENTRIES` entries are kept.
pub open spec fn spec_record(
    s: Seq<(Seq<char>, Geometry)>,
    address: Seq<char>,
    geometry: Geometry,
) -> Seq<(Seq<char>, Geometry)> {
    newest(s.filter(other_window(address)).push((address, geometry)))
}

/// The history remembers the window `address`.
pub open spec fn has_address(s: Seq<(Seq<char>, Geometry)>, address: Seq<char>) -> bool {
    exists|i: int| 0 <= i < s.len() && s[i].0 == address
}

/// `i` is the oldest entry of the window `address`.
pub open spec fn is_first_entry(s: Seq<(Seq<char>, Geometry)>, address: Seq<char>, i: int) -> bool {
    &&& 0 <= i < s.len()
    &&& s[i].0 == address
    &&& forall|j: int| 0 <= j < i ==> s[j].0 != address
}

/// The index of the oldest entry of the window `address`.
pub open spec fn first_entry(s: Seq<(Seq<char>, Geometry)>, address: Seq<char>) -> int {
    choose|i: int| is_first_entry(s, address, i)
}

/// Taking the window `address` out of the history: its oldest entry's
/// geometry and the history without that entry, or nothing and the history
/// unchanged when the window is not remembered.
pub open spec fn spec_take(s: Seq<(Seq<char>, Geometry)>, address: Seq<char>) -> (
    Option<Geometry>,
    Seq<(Seq<char>, Geometry)>,
) {
    if has_address(s, address) {
        let i = first_entry(s, address);
        (Some(s[i].1), s.remove(i))
    } else {
        (None, s)
    }
}

/// There is one oldest entry.
proof fn lemma_first_entry_unique(s: Seq<(Seq<char>, Geometry)>, address: Seq<char>, i: int)
    requires
        is_first_entry(s, address, i),
    ensures
        first_entry(s, address) == i,
{
    let k = first_entry(s, address);
    assert(is_first_entry(s, address, k));
    if k < i {
        assert(s[k].0 != address);
    } else if i < k {
        assert(s[i].0 != address);
    }
}

impl State {
    /// Remember `geometry` as the place of the window `address`, replacing
    /// what was remembered of it before, and forget the oldest entries
    /// beyond `MAX_ENTRIES`.
    pub fn record(&mut self, address: &str, geometry: Geometry)
        ensures
            final(self)@ == spec_record(old(self)@, address@, geometry),
            final(self)@.len() <= MAX_ENTRIES,
    {
        let key = address.to_owned();
        let mut pending: Vec<Entry> = Vec::new();
        std::mem::swap(&mut pending, &mut self.entries);
        let ghost orig = pending@;
        let ghost pred = other_window(address@);
        let n = pending.len();
        let mut kept: Vec<Entry> = Vec::new();
        let mut i: usize = 0;
        while i < n
            invariant
                n == orig.len(),
                i <= n,
                pending@ == orig.skip(i as int),
                key@ == address@,
                pred == other_window(address@),
                entries_view(kept@) == entries_view(orig.take(i as int)).filter(pred),
            decreases n - i,
        {
            let ghost before = kept@;
            let e = pending.remove(0);
            assert(e == orig[i as int]);
            assert(orig.take(i + 1) =~= orig.take(i as int).push(orig[i as int]));
            assert(entries_view(orig.take(i + 1)) =~= entries_view(orig.take(i as int)).push(
                (e.address@, e.geometry),
            ));
            proof {
                entries_view(orig.take(i as int)).lemma_filter_push((e.address@, e.geometry), pred);
            }
            if !(e.address == key) {
                kept.push(e);
                assert(entries_view(kept@) =~= entries_view(before).push((e.address@, e.geometry)));
            }
            assert(pending@ =~= orig.skip(i + 1));
            i += 1;
        }
        assert(orig.take(n as int) =~= orig);
        assert(orig == old(self).entries@);
        let ghost filtered = entries_view(kept@);
        kept.push(Entry { address: key, geometry });
        let ghost full = entries_view(kept@);
        assert(full =~= filtered.push((address@, geometry)));
        while kept.len() > MAX_ENTRIES
            invariant
                kept@.len() <= full.len(),
                full.len() > MAX_ENTRIES ==> kept@.len() >= MAX_ENTRIES,
                full.len() <= MAX_ENTRIES ==> kept@.len() == full.len(),
                entries_view(kept@) == full.skip(full.len() - kept@.len()),
            decreases kept.len(),
        {
            let ghost before = kept@;
            kept.remove(0);
            assert(entries_view(kept@) =~= entries_view(before).drop_first());
            assert(entries_view(kept@) =~= full.skip(full.len() - kept@.len()));
        }
        assert(full.skip(0) =~= full);
        self.entries = kept;
    }

    /// Take the window `address` out of the history and give back where it
    /// was, or `None` when it is not remembered (the history is then left
    /// as it was).
    pub fn take(&mut self, address: &str) -> (r: Option<Geometry>)
        ensures
            (r, final(self)@) == spec_take(old(self)@, address@),
    {
        let key = address.to_owned();
        let mut i: usize = 0;
        while i < self.entries.len()
            invariant
                i <= self.entries@.len(),
                self.entries@ == old(self).entries@,
                key@ == address@,
                forall|j: int| 0 <= j < i ==> self@[j].0 != address@,
            decreases self.entries@.len() - i,
        {
            if self.entries[i].address == key {
                let ghost s = self@;
                proof {
                    assert(is_first_entry(s, address@, i as int));
                    lemma_first_entry_unique(s, address@, i as int);
                }
                let e = self.entries.remove(i);
                assert(self@ =~= s.remove(i as int));
                return Some(e.geometry);
            }
            i += 1;
        }
        None
    }
}

/// A history that remembers each window at most once and holds at most
/// `MAX_ENTRIES` entries.
pub open spec fn history_wf(s: Seq<(Seq<char>, Geometry)>) -> bool {
    &&& s.len() <= MAX_ENTRIES
    &&& forall|i: int, j: int| 0 <= i < j < s.len() ==> #[trigger] s[i].0 != #[trigger] s[j].0
}

/// Remembering a window puts its entry last, and it is then the only
/// entry of that window.
proof fn lemma_record_shape(s: Seq<(Seq<char>, Geometry)>, address: Seq<char>, geometry: Geometry)
    ensures
        ({
            let r = spec_record(s, address, geometry);
            &&& r.len() >= 1
            &&& r.last() == (address, geometry)
            &&& forall|j: int| 0 <= j < r.len() - 1 ==> #[trigger] r[j].0 != address
        }),
{
    let pred = other_window(address);
    let f = s.filter(pred);
    let kept = f.push((address, geometry));
    let r = spec_record(s, address, geometry);
    assert forall|j: int| 0 <= j < f.len() implies #[trigger] f[j].0 != address by {
        s.lemma_filter_pred(pred, j);
    }
    if kept.len() > MAX_ENTRIES {
        let k = kept.len() - MAX_ENTRIES;
        assert forall|j: int| 0 <= j < r.len() - 1 implies #[trigger] r[j].0 != address by {
            assert(r[j] == kept[j + k]);
            assert(r[j] == f[j + k]);
        }
    } else {
        assert forall|j: int| 0 <= j < r.len() - 1 implies #[trigger] r[j].0 != address by {
            assert(r[j] == f[j]);
        }
    }
}

/// Taking a window out right after remembering it gives back the geometry
/// just remembered and drops its entry; the window is then no longer
/// remembered, so taking it again gives nothing.
pub proof fn lemma_take_after_record(
    s: Seq<(Seq<char>, Geometry)>,
    address: Seq<char>,
    geometry: Geometry,
)
    ensures
        spec_take(spec_record(s, address, geometry), address) == (
            Some(geometry),
            spec_record(s, address, geometry).drop_last(),
        ),
        !has_address(spec_record(s, address, geometry).drop_last(), address),
        spec_take(spec_take(spec_record(s, address, geometry), address).1, address).0 is None,
{
    let r = spec_record(s, address, geometry);
    lemma_record_shape(s, address, geometry);
    let last = r.len() - 1;
    assert(is_first_entry(r, address, last));
    lemma_first_entry_unique(r, address, last);
    assert(r.remove(last) =~= r.drop_last());
    if has_address(r.drop_last(), address) {
        let i = choose|i: int| 0 <= i < r.drop_last().len() && r.drop_last()[i].0 == address;
        assert(r[i].0 != address);
    }
}

/// Remembering a window twice keeps only the later geometry.
pub proof fn lemma_record_twice_keeps_latest(
    s: Seq<(Seq<char>, Geometry)>,
    address: Seq<char>,
    first: Geometry,
    second: Geometry,
)
    ensures
        spec_take(spec_record(spec_record(s, address, first), address, second), address).0
            == Some(second),
{
    lemma_take_after_record(spec_record(s, address, first), address, second);
}

/// Filtering out entries that no other window's entries match leaves the
/// history as it was.
proof fn lemma_filter_keeps_all(s: Seq<(Seq<char>, Geometry)>, address: Seq<char>)
    requires
        !has_address(s, address),
    ensures
        s.filter(other_window(address)) == s,
    decreases s.len(),
{
    reveal(Seq::filter);
    if s.len() > 0 {
        let rest = s.drop_last();
        if has_address(rest, address) {
            let i = choose|i: int| 0 <= i < rest.len() && rest[i].0 == address;
            assert(s[i].0 == address);
        }
        lemma_filter_keeps_all(rest, address);
        assert(s.last().0 != address);
        assert(rest.push(s.last()) =~= s);
    }
}

/// Remembering a new window appends it; when the history is already full
/// the oldest entry is forgotten to make room.
pub proof fn lemma_record_new_window(
    s: Seq<(Seq<char>, Geometry)>,
    address: Seq<char>,
    geometry: Geometry,
)
    requires
        s.len() <= MAX_ENTRIES,
        !has_address(s, address),
    ensures
        s.len() < MAX_ENTRIES ==> spec_record(s, address, geometry) == s.push((address, geometry)),
        s.len() == MAX_ENTRIES ==> spec_record(s, address, geometry) == s.drop_first().push(
            (address, geometry),
        ),
{
    lemma_filter_keeps_all(s, address);
    if s.len() == MAX_ENTRIES {
        assert(s.push((address, geometry)).skip(1) =~= s.drop_first().push((address, geometry)));
    }
}

/// Filtering keeps a history free of repeated windows.
proof fn lemma_filter_unique(s: Seq<(Seq<char>, Geometry)>, address: Seq<char>)
    requires
        forall|i: int, j: int| 0 <= i < j < s.len() ==> #[trigger] s[i].0 != #[trigger] s[j].0,
    ensures
        ({
            let f = s.filter(other_window(address));
            forall|i: int, j: int| 0 <= i < j < f.len() ==> #[trigger] f[i].0 != #[trigger] f[j].0
        }),
    decreases s.len(),
{
    reveal(Seq::filter);
    if s.len() > 0 {
        let pred = other_window(address);
        let rest = s.drop_last();
        assert forall|i: int, j: int| 0 <= i < j < rest.len() implies #[trigger] rest[i].0
            != #[trigger] rest[j].0 by {
            assert(rest[i] == s[i] && rest[j] == s[j]);
        }
        lemma_filter_unique(rest, address);
        let fr = rest.filter(pred);
        let f = s.filter(pred);
        if pred(s.last()) {
            assert(f == fr.push(s.last()));
            assert forall|i: int, j: int| 0 <= i < j < f.len() implies #[trigger] f[i].0
                != #[trigger] f[j].0 by {
                if j == f.len() - 1 {
                    assert(fr.contains(f[i]));
                    rest.lemma_filter_contains_rev(pred, f[i]);
                    let k = choose|k: int| 0 <= k < rest.len() && rest[k] == f[i];
                    assert(s[k] == f[i]);
                    assert(s[s.len() - 1] == s.last());
                } else {
                    assert(f[i] == fr[i] && f[j] == fr[j]);
                }
            }
        }
    }
}

/// Remembering a window keeps a well-formed history well-formed.
pub proof fn lemma_record_keeps_wf(
    s: Seq<(Seq<char>, Geometry)>,
    address: Seq<char>,
    geometry: Geometry,
)
    requires
        history_wf(s),
    ensures
        history_wf(spec_record(s, address, geometry)),
{
    let pred = other_window(address);
    let f = s.filter(pred);
    let kept = f.push((address, geometry));
    let r = spec_record(s, address, geometry);
    lemma_filter_unique(s, address);
    lemma_record_shape(s, address, geometry);
    assert forall|j: int| 0 <= j < f.len() implies #[trigger] f[j].0 != address by {
        s.lemma_filter_pred(pred, j);
    }
    assert forall|i: int, j: int| 0 <= i < j < kept.len() implies #[trigger] kept[i].0
        != #[trigger] kept[j].0 by {
        if j == kept.len() - 1 {
            assert(kept[i] == f[i]);
        } else {
            assert(kept[i] == f[i] && kept[j] == f[j]);
        }
    }
    if kept.len() > MAX_ENTRIES {
        let k = kept.len() - MAX_ENTRIES;
        assert forall|i: int, j: int| 0 <= i < j < r.len() implies #[trigger] r[i].0
            != #[trigger] r[j].0 by {
            assert(r[i] == kept[i + k] && r[j] == kept[j + k]);
        }
    }
}

/// Taking a window out keeps a well-formed history well-formed.
pub proof fn lemma_take_keeps_wf(s: Seq<(Seq<char>, Geometry)>, address: Seq<char>)
    requires
        history_wf(s),
    ensures
        history_wf(spec_take(s, address).1),
{
    if has_address(s, address) {
        let i0 = choose|i: int| 0 <= i < s.len() && s[i].0 == address;
        let k = first_entry(s, address);
        if !is_first_entry(s, address, k) {
            assert(is_first_entry(s, address, i0)) by {
                assert forall|j: int| 0 <= j < i0 implies s[j].0 != address by {
                    if s[j].0 == address {
                        assert(s[j].0 != s[i0].0);
                    }
                }
            }
        }
        let r = s.remove(k);
        assert forall|i: int, j: int| 0 <= i < j < r.len() implies #[trigger] r[i].0
            != #[trigger] r[j].0 by {
            let si = if i < k { i } else { i + 1 };
            let sj = if j < k { j } else { j + 1 };
            assert(r[i] == s[si] && r[j] == s[sj]);
        }
    }
}

/// A remembered window has an oldest entry.
proof fn lemma_first_entry_exists(s: Seq<(Seq<char>, Geometry)>, address: Seq<char>)
    requires
        has_address(s, address),
    ensures
        is_first_entry(s, address, first_entry(s, address)),
    decreases s.len(),
{
    let rest = s.drop_last();
    if has_address(rest, address) {
        lemma_first_entry_exists(rest, address);
        let k = first_entry(rest, address);
        assert(s[k] == rest[k]);
        assert forall|j: int| 0 <= j < k implies s[j].0 != address by {
            assert(s[j] == rest[j]);
        }
        assert(is_first_entry(s, address, k));
    } else {
        let last = s.len() - 1;
        let i0 = choose|i: int| 0 <= i < s.len() && s[i].0 == address;
        if i0 < last {
            assert(rest[i0] == s[i0]);
        }
        assert forall|j: int| 0 <= j < last implies s[j].0 != address by {
            assert(s[j] == rest[j]);
        }
        assert(is_first_entry(s, address, last));
    }
}

/// Appending an entry does not change what taking a remembered window
/// gives; appending the first entry of a window makes it what taking that
/// window gives.
proof fn lemma_take_after_push(
    t: Seq<(Seq<char>, Geometry)>,
    e: (Seq<char>, Geometry),
    address: Seq<char>,
)
    ensures
        has_address(t.push(e), address) == (has_address(t, address) || e.0 == address),
        has_address(t, address) ==> spec_take(t.push(e), address).0 == spec_take(t, address).0,
        !has_address(t, address) && e.0 == address ==> spec_take(t.push(e), address).0 == Some(
            e.1,
        ),
{
    let u = t.push(e);
    if has_address(t, address) {
        let i = choose|i: int| 0 <= i < t.len() && t[i].0 == address;
        assert(u[i] == t[i]);
        lemma_first_entry_exists(t, address);
        let k = first_entry(t, address);
        assert forall|j: int| 0 <= j < k implies u[j].0 != address by {
            assert(u[j] == t[j]);
        }
        assert(u[k] == t[k]);
        assert(is_first_entry(u, address, k));
        lemma_first_entry_unique(u, address, k);
    } else {
        if has_address(u, address) {
            let i = choose|i: int| 0 <= i < u.len() && u[i].0 == address;
            if i < t.len() {
                assert(u[i] == t[i]);
            }
        }
        if e.0 == address {
            let last = t.len() as int;
            assert forall|j: int| 0 <= j < last implies u[j].0 != address by {
                assert(u[j] == t[j]);
            }
            assert(is_first_entry(u, address, last));
            lemma_first_entry_unique(u, address, last);
        }
    }
}

/// Dropping the entries of one window keeps every other window and what
/// taking it gives.
proof fn lemma_filter_keeps_other_windows(
    s: Seq<(Seq<char>, Geometry)>,
    address: Seq<char>,
    other: Seq<char>,
)
    requires
        other != address,
    ensures
        has_address(s.filter(other_window(address)), other) == has_address(s, other),
        spec_take(s.filter(other_window(address)), other).0 == spec_take(s, other).0,
    decreases s.len(),
{
    let pred = other_window(address);
    if s.len() == 0 {
        reveal(Seq::filter);
    } else {
        let rest = s.drop_last();
        let x = s.last();
        assert(rest.push(x) =~= s);
        lemma_filter_keeps_other_windows(rest, address, other);
        let fr = rest.filter(pred);
        rest.lemma_filter_push(x, pred);
        lemma_take_after_push(rest, x, other);
        if pred(x) {
            lemma_take_after_push(fr, x, other);
        }
    }
}

/// Remembering a window forgets no other window while the history is
/// under its bound: every other window is still remembered exactly when
/// it was before, and taking it gives what it gave before.
pub proof fn lemma_record_keeps_other_windows(
    s: Seq<(Seq<char>, Geometry)>,
    address: Seq<char>,
    geometry: Geometry,
    other: Seq<char>,
)
    requires
        s.len() < MAX_ENTRIES,
        other != address,
    ensures
        has_address(spec_record(s, address, geometry), other) == has_address(s, other),
        spec_take(spec_record(s, address, geometry), other).0 == spec_take(s, other).0,
{
    let pred = other_window(address);
    let f = s.filter(pred);
    s.lemma_filter_len(pred);
    assert(spec_record(s, address, geometry) == f.push((address, geometry)));
    lemma_filter_keeps_other_windows(s, address, other);
    lemma_take_after_push(f, (address, geometry), other);
}

/// Taking a window gives the geometry of its oldest entry and removes
/// exactly that entry, keeping the others in order; taking a window that
/// is not remembered gives nothing and changes nothing.
pub proof fn lemma_take_gives_oldest(s: Seq<(Seq<char>, Geometry)>, address: Seq<char>)
    ensures
        (exists|i: int| 0 <= i < s.len() && s[i].0 == address) ==> exists|i: int|
            {
                &&& 0 <= i < s.len()
                &&& s[i].0 == address
                &&& (forall|j: int| 0 <= j < i ==> s[j].0 != address)
                &&& spec_take(s, address).0 == Some(s[i].1)
                &&& spec_take(s, address).1.len() == s.len() - 1
                &&& (forall|j: int| 0 <= j < i ==> spec_take(s, address).1[j] == s[j])
                &&& (forall|j: int| i <= j < s.len() - 1 ==> spec_take(s, address).1[j] == s[j + 1])
            },
        (forall|i: int| 0 <= i < s.len() ==> s[i].0 != address) ==> spec_take(s, address) == (
            None::<Geometry>,
            s,
        ),
{
    if has_address(s, address) {
        lemma_first_entry_exists(s, address);
        let k = first_entry(s, address);
        assert(s[k].0 == address);
    }
}

/// Remembering a window adds only its own entry: every other entry of
/// the new history was in the old one, and the new entry comes last.
pub proof fn lemma_record_adds_only_its_entry(
    s: Seq<(Seq<char>, Geometry)>,
    address: Seq<char>,
    geometry: Geometry,
)
    ensures
        ({
            let r = spec_record(s, address, geometry);
            &&& r.len() >= 1
            &&& r[r.len() - 1] == (address, geometry)
            &&& forall|j: int| 0 <= j < r.len() - 1 ==> s.contains(#[trigger] r[j])
        }),
{
    let pred = other_window(address);
    let f = s.filter(pred);
    let kept = f.push((address, geometry));
    let r = spec_record(s, address, geometry);
    lemma_record_shape(s, address, geometry);
    assert forall|j: int| 0 <= j < r.len() - 1 implies s.contains(#[trigger] r[j]) by {
        let k = if kept.len() > MAX_ENTRIES {
            kept.len() - MAX_ENTRIES
        } else {
            0
        };
        assert(r[j] == kept[j + k]);
        assert(r[j] == f[j + k]);
        assert(f.contains(f[j + k]));
        s.lemma_filter_contains_rev(pred, r[j]);
    }
}

} // verus!
