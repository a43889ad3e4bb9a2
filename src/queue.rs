use vstd::prelude::*;
use crate::text::{chars_of, sort_strings, sorted_lex, str_eq, string_of_range, views};

verus! {

pub open spec fn batch_prefix() -> Seq<char> {
    seq!['b', 'a', 't', 'c', 'h', '_']
}

pub open spec fn batch_suffix() -> Seq<char> {
    seq!['.', 'j', 's', 'o', 'n']
}

/// The name of the file that holds batch `id`.
pub open spec fn file_name_of(id: Seq<char>) -> Seq<char> {
    batch_prefix() + id + batch_suffix()
}

/// The batch id a file name stands for: `batch_<id>.json` with a non-empty id.
pub open spec fn id_of_file_name(name: Seq<char>) -> Option<Seq<char>> {
    if name.len() > 11 && name.take(6) == batch_prefix() && name.skip(name.len() - 5) == batch_suffix() {
        Some(name.subrange(6, name.len() - 5))
    } else {
        None
    }
}

/// The ids of the batch files among `names`, in the order of `names`.
pub open spec fn valid_ids(names: Seq<Seq<char>>) -> Seq<Seq<char>>
    decreases names.len(),
{
    if names.len() == 0 {
        seq![]
    } else {
        match id_of_file_name(names.last()) {
            Some(id) => valid_ids(names.drop_last()).push(id),
            None => valid_ids(names.drop_last()),
        }
    }
}

/// How many of the oldest entries an enqueue evicts.
pub open spec fn evict_count(len: nat, max_batches: nat) -> nat {
    if max_batches == 0 {
        len
    } else if len >= max_batches {
        (len - max_batches + 1) as nat
    } else {
        0
    }
}

/// The order after enqueueing `id`: the oldest entries over capacity are
/// gone and `id` is last. Under a capacity of zero nothing is kept.
pub open spec fn enqueued(q: Seq<Seq<char>>, max_batches: nat, id: Seq<char>) -> Seq<Seq<char>> {
    let rest = q.skip(evict_count(q.len(), max_batches) as int);
    if max_batches == 0 { rest } else { rest.push(id) }
}

/// The ids an enqueue of `id` drops, oldest first.
pub open spec fn evicted(q: Seq<Seq<char>>, max_batches: nat, id: Seq<char>) -> Seq<Seq<char>> {
    let gone = q.take(evict_count(q.len(), max_batches) as int);
    if max_batches == 0 { gone.push(id) } else { gone }
}

/// Enqueue each of `ids` in turn.
pub open spec fn enqueue_all(q: Seq<Seq<char>>, max_batches: nat, ids: Seq<Seq<char>>) -> Seq<Seq<char>>
    decreases ids.len(),
{
    if ids.len() == 0 {
        q
    } else {
        enqueued(enqueue_all(q, max_batches, ids.drop_last()), max_batches, ids.last())
    }
}

/// The file name of batch `id`.
pub fn batch_file_name(id: &str) -> (r: String)
    ensures
        r@ == file_name_of(id@),
{
    let mut out = String::new();
    let prefix = vec!['b', 'a', 't', 'c', 'h', '_'];
    let whole = string_of_range(&prefix, 0, 6);
    out.append(whole.as_str());
    out.append(id);
    let suffix = vec!['.', 'j', 's', 'o', 'n'];
    let tail = string_of_range(&suffix, 0, 5);
    out.append(tail.as_str());
    proof {
        assert(prefix@.subrange(0, 6) == batch_prefix());
        assert(suffix@.subrange(0, 5) == batch_suffix());
    }
    out
}

/// The batch id of a file name, if it names a batch file.
pub fn batch_id_from_file_name(name: &str) -> (r: Option<String>)
    ensures
        match id_of_file_name(name@) {
            Some(id) => r is Some && r->Some_0@ == id,
            None => r is None,
        },
{
    let c = chars_of(name);
    let n = c.len();
    if n <= 11 {
        return None;
    }
    let ok = c[0] == 'b' && c[1] == 'a' && c[2] == 't' && c[3] == 'c' && c[4] == 'h' && c[5] == '_'
        && c[n - 5] == '.' && c[n - 4] == 'j' && c[n - 3] == 's' && c[n - 2] == 'o' && c[n - 1] == 'n';
    proof {
        let s = name@;
        if ok {
            assert(s.take(6) == batch_prefix());
            assert(s.skip(s.len() - 5) == batch_suffix());
        } else {
            if s.take(6) == batch_prefix() && s.skip(s.len() - 5) == batch_suffix() {
                assert(s.take(6)[0] == 'b' && s.take(6)[1] == 'a' && s.take(6)[2] == 't');
                assert(s.take(6)[3] == 'c' && s.take(6)[4] == 'h' && s.take(6)[5] == '_');
                assert(s.skip(s.len() - 5)[0] == '.' && s.skip(s.len() - 5)[1] == 'j');
                assert(s.skip(s.len() - 5)[2] == 's' && s.skip(s.len() - 5)[3] == 'o');
                assert(s.skip(s.len() - 5)[4] == 'n');
            }
        }
    }
    if ok {
        Some(string_of_range(&c, 6, n - 5))
    } else {
        None
    }
}

/// The entries of `ix` that have a file among `files`, each once, in index order.
pub open spec fn keep_listed(ix: Seq<Seq<char>>, files: Seq<Seq<char>>) -> Seq<Seq<char>>
    decreases ix.len(),
{
    if ix.len() == 0 {
        seq![]
    } else {
        let init = keep_listed(ix.drop_last(), files);
        if files.contains(ix.last()) && !init.contains(ix.last()) { init.push(ix.last()) } else { init }
    }
}

/// The entries of `files` that `ix` does not list, each once, in their order.
pub open spec fn unlisted(files: Seq<Seq<char>>, ix: Seq<Seq<char>>) -> Seq<Seq<char>>
    decreases files.len(),
{
    if files.len() == 0 {
        seq![]
    } else {
        let init = unlisted(files.drop_last(), ix);
        if !ix.contains(files.last()) && !init.contains(files.last()) { init.push(files.last()) } else { init }
    }
}

/// A stored index made to match the batch files: listed entries without a
/// file are dropped, files without an entry are added after the rest.
pub open spec fn reconciled(ix: Seq<Seq<char>>, files: Seq<Seq<char>>) -> Seq<Seq<char>> {
    keep_listed(ix, files) + unlisted(files, ix)
}

proof fn lemma_keep_listed(ix: Seq<Seq<char>>, files: Seq<Seq<char>>)
    ensures
        keep_listed(ix, files).no_duplicates(),
        forall|x: Seq<char>| #[trigger] keep_listed(ix, files).contains(x) <==> (ix.contains(x) && files.contains(x)),
    decreases ix.len(),
{
    if ix.len() > 0 {
        let init = ix.drop_last();
        lemma_keep_listed(init, files);
        let k = keep_listed(init, files);
        assert forall|x: Seq<char>| ix.contains(x) <==> (init.contains(x) || x == ix.last()) by {
            if ix.contains(x) {
                let j = choose|j: int| 0 <= j < ix.len() && ix[j] == x;
                if j < ix.len() - 1 {
                    assert(init[j] == x);
                }
            }
            if init.contains(x) {
                let j = choose|j: int| 0 <= j < init.len() && init[j] == x;
                assert(ix[j] == x);
            }
            if x == ix.last() {
                assert(ix[ix.len() - 1] == x);
            }
        }
        if files.contains(ix.last()) && !k.contains(ix.last()) {
            assert forall|x: Seq<char>| #[trigger] k.push(ix.last()).contains(x) <==> (k.contains(x) || x == ix.last()) by {
                if k.push(ix.last()).contains(x) {
                    let j = choose|j: int| 0 <= j < k.len() + 1 && k.push(ix.last())[j] == x;
                    if j < k.len() {
                        assert(k[j] == x);
                    }
                }
                if k.contains(x) {
                    let j = choose|j: int| 0 <= j < k.len() && k[j] == x;
                    assert(k.push(ix.last())[j] == x);
                }
                if x == ix.last() {
                    assert(k.push(ix.last())[k.len() as int] == x);
                }
            }
        }
    }
}

proof fn lemma_unlisted(files: Seq<Seq<char>>, ix: Seq<Seq<char>>)
    ensures
        unlisted(files, ix).no_duplicates(),
        forall|x: Seq<char>| #[trigger] unlisted(files, ix).contains(x) <==> (files.contains(x) && !ix.contains(x)),
    decreases files.len(),
{
    if files.len() > 0 {
        let init = files.drop_last();
        lemma_unlisted(init, ix);
        let u = unlisted(init, ix);
        assert forall|x: Seq<char>| files.contains(x) <==> (init.contains(x) || x == files.last()) by {
            if files.contains(x) {
                let j = choose|j: int| 0 <= j < files.len() && files[j] == x;
                if j < files.len() - 1 {
                    assert(init[j] == x);
                }
            }
            if init.contains(x) {
                let j = choose|j: int| 0 <= j < init.len() && init[j] == x;
                assert(files[j] == x);
            }
            if x == files.last() {
                assert(files[files.len() - 1] == x);
            }
        }
        if !ix.contains(files.last()) && !u.contains(files.last()) {
            assert forall|x: Seq<char>| #[trigger] u.push(files.last()).contains(x) <==> (u.contains(x) || x == files.last()) by {
                if u.push(files.last()).contains(x) {
                    let j = choose|j: int| 0 <= j < u.len() + 1 && u.push(files.last())[j] == x;
                    if j < u.len() {
                        assert(u[j] == x);
                    }
                }
                if u.contains(x) {
                    let j = choose|j: int| 0 <= j < u.len() && u[j] == x;
                    assert(u.push(files.last())[j] == x);
                }
                if x == files.last() {
                    assert(u.push(files.last())[u.len() as int] == x);
                }
            }
        }
    }
}

/// After reconciling, the index lists exactly the batch files, each once.
pub proof fn lemma_reconciled_matches_files(ix: Seq<Seq<char>>, files: Seq<Seq<char>>)
    ensures
        reconciled(ix, files).no_duplicates(),
        forall|x: Seq<char>| #[trigger] reconciled(ix, files).contains(x) <==> files.contains(x),
{
    lemma_keep_listed(ix, files);
    lemma_unlisted(files, ix);
    let k = keep_listed(ix, files);
    let u = unlisted(files, ix);
    let r = k + u;
    assert forall|x: Seq<char>| #[trigger] r.contains(x) <==> (k.contains(x) || u.contains(x)) by {
        if r.contains(x) {
            let j = choose|j: int| 0 <= j < r.len() && r[j] == x;
            if j < k.len() {
                assert(k[j] == x);
            } else {
                assert(u[j - k.len()] == x);
            }
        }
        if k.contains(x) {
            let j = choose|j: int| 0 <= j < k.len() && k[j] == x;
            assert(r[j] == x);
        }
        if u.contains(x) {
            let j = choose|j: int| 0 <= j < u.len() && u[j] == x;
            assert(r[j + k.len()] == x);
        }
    }
    assert forall|i: int, j: int| 0 <= i < r.len() && 0 <= j < r.len() && i != j implies r[i] != r[j] by {
        if i < k.len() && j >= k.len() {
            assert(k.contains(r[i]));
            assert(u.contains(r[j]));
        } else if j < k.len() && i >= k.len() {
            assert(k.contains(r[j]));
            assert(u.contains(r[i]));
        } else if i < k.len() {
            assert(r[i] == k[i] && r[j] == k[j]);
        } else {
            assert(r[i] == u[i - k.len()] && r[j] == u[j - k.len()]);
        }
    }
}

/// Whether `v` holds a string equal to `s`.
fn contains_str(v: &Vec<String>, s: &String) -> (r: bool)
    ensures
        r == views(v@).contains(s@),
{
    let mut i: usize = 0;
    while i < v.len()
        invariant
            i <= v.len(),
            forall|j: int| 0 <= j < i ==> v@[j]@ != s@,
        decreases v.len() - i,
    {
        if str_eq(&v[i], s) {
            assert(views(v@)[i as int] == s@);
            return true;
        }
        i = i + 1;
    }
    proof {
        if views(v@).contains(s@) {
            let j = choose|j: int| 0 <= j < views(v@).len() && views(v@)[j] == s@;
            assert(v@[j]@ == s@);
        }
    }
    false
}

/// Make a stored index match the batch files found (see `reconciled`).
pub fn reconcile_index(index: &Vec<String>, file_ids: &Vec<String>) -> (r: Vec<String>)
    ensures
        views(r@) == reconciled(views(index@), views(file_ids@)),
{
    let ghost ix = views(index@);
    let ghost fs = views(file_ids@);
    let mut out: Vec<String> = Vec::new();
    let mut i: usize = 0;
    while i < index.len()
        invariant
            i <= index.len(),
            ix == views(index@),
            fs == views(file_ids@),
            views(out@) == keep_listed(ix.take(i as int), fs),
        decreases index.len() - i,
    {
        proof {
            assert(ix.take(i + 1).drop_last() == ix.take(i as int));
            assert(ix.take(i + 1).last() == index@[i as int]@);
        }
        let id = &index[i];
        if contains_str(file_ids, id) && !contains_str(&out, id) {
            let ghost before = views(out@);
            out.push(id.clone());
            proof {
                assert(views(out@) =~= before.push(id@));
            }
        }
        i = i + 1;
    }
    proof {
        assert(ix.take(index.len() as int) == ix);
    }
    let ghost kept = views(out@);
    let mut extra: Vec<String> = Vec::new();
    let mut j: usize = 0;
    while j < file_ids.len()
        invariant
            j <= file_ids.len(),
            ix == views(index@),
            fs == views(file_ids@),
            views(extra@) == unlisted(fs.take(j as int), ix),
        decreases file_ids.len() - j,
    {
        proof {
            assert(fs.take(j + 1).drop_last() == fs.take(j as int));
            assert(fs.take(j + 1).last() == file_ids@[j as int]@);
        }
        let id = &file_ids[j];
        if !contains_str(index, id) && !contains_str(&extra, id) {
            let ghost before = views(extra@);
            extra.push(id.clone());
            proof {
                assert(views(extra@) =~= before.push(id@));
            }
        }
        j = j + 1;
    }
    proof {
        assert(fs.take(file_ids.len() as int) == fs);
    }
    let ghost tail = views(extra@);
    let mut k: usize = 0;
    while k < extra.len()
        invariant
            k <= extra.len(),
            tail == views(extra@),
            views(out@) == kept + tail.take(k as int),
        decreases extra.len() - k,
    {
        let ghost before = views(out@);
        let item = extra[k].clone();
        assert(item@ == tail[k as int]);
        out.push(item);
        proof {
            assert(views(out@) =~= before.push(tail[k as int]));
            assert(tail.take(k + 1) == tail.take(k as int).push(tail[k as int]));
        }
        k = k + 1;
        proof {
            assert(views(out@) =~= kept + tail.take(k as int));
        }
    }
    proof {
        assert(tail.take(extra.len() as int) == tail);
    }
    out
}

/// The queue order recovered from a directory listing: the ids of the
/// batch files, sorted (ids are time-ordered, so this is creation order).
pub fn rebuild_index(file_names: &Vec<String>) -> (r: Vec<String>)
    ensures
        views(r@).to_multiset() == valid_ids(views(file_names@)).to_multiset(),
        sorted_lex(views(r@)),
{
    let mut ids: Vec<String> = Vec::new();
    let mut i: usize = 0;
    while i < file_names.len()
        invariant
            i <= file_names.len(),
            views(ids@) == valid_ids(views(file_names@).take(i as int)),
        decreases file_names.len() - i,
    {
        proof {
            assert(views(file_names@).take(i + 1).drop_last() == views(file_names@).take(i as int));
        }
        match batch_id_from_file_name(file_names[i].as_str()) {
            Some(id) => {
                ids.push(id);
            },
            None => {},
        }
        i = i + 1;
        proof {
            assert(views(ids@) == valid_ids(views(file_names@).take(i as int)));
        }
    }
    proof {
        assert(views(file_names@).take(file_names.len() as int) == views(file_names@));
    }
    sort_strings(&mut ids);
    ids
}

/// The order of queued batch ids, oldest first. The batch files themselves
/// are kept by the caller; this is the index they are kept under.
pub struct OfflineQueue {
    max_batches: usize,
    batch_order: Vec<String>,
}

impl View for OfflineQueue {
    type V = Seq<Seq<char>>;

    closed spec fn view(&self) -> Seq<Seq<char>> {
        views(self.batch_order@)
    }
}

impl OfflineQueue {
    pub closed spec fn capacity(&self) -> nat {
        self.max_batches as nat
    }

    /// A queue over the batch files found among `file_names`: in the order
    /// of the stored index, reconciled with the files (files it does not list
    /// follow, in the order of their ids); where the index is missing or
    /// unreadable (`None`), in the order of their ids.
    pub fn new(max_batches: usize, index: Option<Vec<String>>, file_names: &Vec<String>) -> (r: Self)
        ensures
            r.capacity() == max_batches,
            match index {
                Some(ix) => exists|files: Seq<Seq<char>>| #![auto]
                    files.to_multiset() == valid_ids(views(file_names@)).to_multiset()
                    && sorted_lex(files)
                    && r@ == reconciled(views(ix@), files),
                None => r@.to_multiset() == valid_ids(views(file_names@)).to_multiset() && sorted_lex(r@),
            },
    {
        let files = rebuild_index(file_names);
        let batch_order = match index {
            Some(ix) => reconcile_index(&ix, &files),
            None => files,
        };
        OfflineQueue { max_batches, batch_order }
    }

    /// Add `batch_id` at the back. At capacity the oldest ids are evicted
    /// first; they are returned, oldest first, so that their files can go.
    pub fn enqueue(&mut self, batch_id: String) -> (r: Vec<String>)
        ensures
            final(self).capacity() == old(self).capacity(),
            final(self)@ == enqueued(old(self)@, old(self).capacity(), batch_id@),
            views(r@) == evicted(old(self)@, old(self).capacity(), batch_id@),
            old(self).capacity() > 0 ==> final(self)@.len() <= old(self).capacity(),
    {
        let ghost q = self@;
        let ghost k = evict_count(q.len(), self.max_batches as nat);
        let mut gone: Vec<String> = Vec::new();
        while self.batch_order.len() > 0 && self.batch_order.len() >= self.max_batches
            invariant
                self.max_batches == old(self).max_batches,
                q == old(self)@,
                k == evict_count(q.len(), self.max_batches as nat),
                gone@.len() <= k,
                views(gone@) == q.take(gone@.len() as int),
                self@ == q.skip(gone@.len() as int),
                gone@.len() < k ==> self@.len() > 0 && self@.len() >= self.max_batches,
                gone@.len() == k ==> !(self@.len() > 0 && self@.len() >= self.max_batches),
            decreases self.batch_order.len(),
        {
            let ghost before = self@;
            let ghost g = gone@.len();
            let oldest = self.batch_order.remove(0);
            proof {
                assert(oldest@ == before[0]);
                assert(before[0] == q[g as int]);
            }
            gone.push(oldest);
            proof {
                assert(views(gone@) =~= q.take(gone@.len() as int));
                assert(self@ == before.drop_first());
                assert(self@ == q.skip(gone@.len() as int));
            }
        }
        if self.max_batches == 0 {
            gone.push(batch_id);
        } else {
            self.batch_order.push(batch_id);
        }
        proof {
            if self.max_batches == 0 {
                assert(views(gone@) == evicted(q, 0, batch_id@));
            } else {
                assert(self@ == enqueued(q, self.max_batches as nat, batch_id@));
            }
        }
        gone
    }

    /// Take the oldest id off the front.
    pub fn dequeue(&mut self) -> (r: Option<String>)
        ensures
            final(self).capacity() == old(self).capacity(),
            old(self)@.len() == 0 ==> r is None && final(self)@ == old(self)@,
            old(self)@.len() > 0 ==> r is Some && r->Some_0@ == old(self)@[0]
                && final(self)@ == old(self)@.drop_first(),
    {
        if self.batch_order.len() == 0 {
            None
        } else {
            let id = self.batch_order.remove(0);
            proof {
                assert(self@ == old(self)@.drop_first());
            }
            Some(id)
        }
    }

    /// The number of queued batches.
    pub fn len(&self) -> (r: usize)
        ensures
            r == self@.len(),
    {
        self.batch_order.len()
    }

    /// Whether no batch is queued.
    pub fn is_empty(&self) -> (r: bool)
        ensures
            r == (self@.len() == 0),
    {
        self.batch_order.len() == 0
    }

    /// Forget every queued id; they are returned, oldest first, so that
    /// their files can go.
    pub fn clear(&mut self) -> (r: Vec<String>)
        ensures
            final(self).capacity() == old(self).capacity(),
            final(self)@.len() == 0,
            views(r@) == old(self)@,
    {
        let mut gone: Vec<String> = Vec::new();
        std::mem::swap(&mut gone, &mut self.batch_order);
        gone
    }

    /// The queued ids, oldest first: the content of the index file.
    pub fn batch_order(&self) -> (r: &Vec<String>)
        ensures
            views(r@) == self@,
    {
        &self.batch_order
    }

    /// The configured capacity.
    pub fn max_batches(&self) -> (r: usize)
        ensures
            r == self.capacity(),
    {
        self.max_batches
    }
}

/// Below capacity an enqueue appends at the back, so two enqueues followed
/// by dequeues give back the queue before them, then the first id, then the
/// second: first in, first out.
pub proof fn lemma_fifo(q: Seq<Seq<char>>, max_batches: nat, a: Seq<char>, b: Seq<char>)
    requires
        q.len() + 2 <= max_batches,
    ensures
        enqueue_all(q, max_batches, seq![a, b]) == q.push(a).push(b),
        enqueue_all(q, max_batches, seq![a, b])[q.len() as int] == a,
        enqueue_all(q, max_batches, seq![a, b]).skip(q.len() as int).drop_first()[0] == b,
{
    let e = Seq::<Seq<char>>::empty();
    assert(seq![a, b].drop_last() == seq![a]);
    assert(seq![a].drop_last() == e);
    assert(enqueue_all(q, max_batches, e) == q);
    assert(evict_count(q.len(), max_batches) == 0);
    assert(q.skip(0) == q);
    assert(enqueued(q, max_batches, a) == q.push(a));
    assert(enqueue_all(q, max_batches, seq![a]) == q.push(a));
    assert(evict_count(q.push(a).len(), max_batches) == 0);
    assert(q.push(a).skip(0) == q.push(a));
    assert(enqueue_all(q, max_batches, seq![a, b]) == q.push(a).push(b));
    assert(q.push(a).push(b).skip(q.len() as int) =~= seq![a, b]);
}

proof fn lemma_fill_below_capacity(max_batches: nat, ids: Seq<Seq<char>>, k: nat)
    requires
        1 <= max_batches,
        k <= max_batches,
        k <= ids.len(),
    ensures
        enqueue_all(seq![], max_batches, ids.take(k as int)) == ids.take(k as int),
    decreases k,
{
    if k > 0 {
        lemma_fill_below_capacity(max_batches, ids, (k - 1) as nat);
        assert(ids.take(k as int).drop_last() == ids.take(k - 1));
        let prev = ids.take(k - 1);
        assert(prev.skip(0) == prev);
        assert(prev.push(ids[k - 1]) == ids.take(k as int));
    }
}

proof fn lemma_zero_capacity_keeps_nothing(ids: Seq<Seq<char>>)
    ensures
        enqueue_all(seq![], 0, ids).len() == 0,
    decreases ids.len(),
{
    if ids.len() > 0 {
        lemma_zero_capacity_keeps_nothing(ids.drop_last());
    }
}

/// Enqueueing one batch more than the capacity into an empty queue leaves
/// exactly `max_batches` ids, and the first (oldest) id is no longer there.
pub proof fn lemma_capacity(max_batches: nat, ids: Seq<Seq<char>>)
    requires
        ids.len() == max_batches + 1,
        ids.no_duplicates(),
    ensures
        enqueue_all(seq![], max_batches, ids).len() == max_batches,
        !enqueue_all(seq![], max_batches, ids).contains(ids[0]),
{
    if max_batches == 0 {
        lemma_zero_capacity_keeps_nothing(ids);
    } else {
        lemma_fill_below_capacity(max_batches, ids, max_batches);
        assert(ids.drop_last() == ids.take(max_batches as int));
        let r = enqueue_all(seq![], max_batches, ids);
        assert(r == ids.take(max_batches as int).skip(1).push(ids.last()));
        assert(r =~= ids.subrange(1, ids.len() as int));
        if r.contains(ids[0]) {
            let j = choose|j: int| 0 <= j < r.len() && r[j] == ids[0];
            assert(ids[j + 1] == ids[0]);
        }
    }
}

/// A directory listing in which every name is a batch file yields one id per file.
pub proof fn lemma_recovery(names: Seq<Seq<char>>, order: Seq<Seq<char>>)
    requires
        forall|i: int| 0 <= i < names.len() ==> (#[trigger] id_of_file_name(names[i])) is Some,
        order.to_multiset() == valid_ids(names).to_multiset(),
    ensures
        order.len() == names.len(),
{
    lemma_valid_ids_all(names);
    order.to_multiset_ensures();
    valid_ids(names).to_multiset_ensures();
}

proof fn lemma_valid_ids_all(names: Seq<Seq<char>>)
    requires
        forall|i: int| 0 <= i < names.len() ==> (#[trigger] id_of_file_name(names[i])) is Some,
    ensures
        valid_ids(names).len() == names.len(),
    decreases names.len(),
{
    if names.len() > 0 {
        let init = names.drop_last();
        assert forall|i: int| 0 <= i < init.len() implies (#[trigger] id_of_file_name(init[i])) is Some by {
            assert(init[i] == names[i]);
        }
        lemma_valid_ids_all(init);
        assert(id_of_file_name(names[names.len() - 1]) is Some);
    }
}

} // verus!
