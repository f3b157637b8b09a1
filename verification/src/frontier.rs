//! The URL frontier: a FIFO queue of URLs still to crawl, and the set of every
//! URL ever admitted, so that no URL is queued twice.
use vstd::prelude::*;
use vstd::hash_set::StringHashSet;
use std::collections::VecDeque;
use crate::web_url::Url;

verus! {

/// The abstract state of a frontier: the pending URLs in crawl order, and
/// every URL ever admitted (pending or already handed out).
#[verifier::ext_equal]
pub struct FrontierView {
    pub queue: Seq<Seq<char>>,
    pub seen: Set<Seq<char>>,
}

impl FrontierView {
    /// The frontier that nothing was pushed to.
    pub open spec fn empty() -> FrontierView {
        FrontierView { queue: Seq::empty(), seen: Set::empty() }
    }

    /// Well-formedness: finitely many URLs seen, every pending URL seen, and
    /// none pending twice.
    pub open spec fn wf(self) -> bool {
        &&& self.seen.finite()
        &&& self.queue.no_duplicates()
        &&& forall|i: int| 0 <= i < self.queue.len() ==> self.seen.contains(#[trigger] self.queue[i])
    }

    /// The frontier after offering `u`: queued at the back unless it was seen before.
    pub open spec fn pushed(self, u: Seq<char>) -> FrontierView {
        if self.seen.contains(u) {
            self
        } else {
            FrontierView { queue: self.queue.push(u), seen: self.seen.insert(u) }
        }
    }

    /// The frontier after offering each of `us` in turn.
    pub open spec fn pushed_all(self, us: Seq<Seq<char>>) -> FrontierView
        decreases us.len(),
    {
        if us.len() == 0 {
            self
        } else {
            self.pushed_all(us.drop_last()).pushed(us.last())
        }
    }

    /// The frontier after taking the front URL (unchanged when nothing is pending).
    pub open spec fn popped(self) -> FrontierView {
        if self.queue.len() == 0 {
            self
        } else {
            FrontierView { queue: self.queue.drop_first(), seen: self.seen }
        }
    }
}

/// Offering a URL keeps a frontier well formed.
pub proof fn lemma_pushed_wf(v: FrontierView, u: Seq<char>)
    requires
        v.wf(),
    ensures
        v.pushed(u).wf(),
        v.pushed(u).seen == v.seen.insert(u),
        v.pushed(u).seen.len() == v.seen.len() + (if v.seen.contains(u) { 0int } else { 1int }),
{
    if !v.seen.contains(u) {
        let w = v.pushed(u);
        assert forall|i: int| 0 <= i < w.queue.len() implies w.seen.contains(#[trigger] w.queue[i]) by {
            if i < v.queue.len() {
                assert(w.queue[i] == v.queue[i]);
            }
        }
        assert forall|i: int, j: int| 0 <= i < w.queue.len() && 0 <= j < w.queue.len() && i != j
            implies w.queue[i] != w.queue[j] by {
            if i < v.queue.len() && j < v.queue.len() {
                assert(w.queue[i] == v.queue[i] && w.queue[j] == v.queue[j]);
            } else if i < v.queue.len() {
                assert(v.seen.contains(v.queue[i]));
            } else if j < v.queue.len() {
                assert(v.seen.contains(v.queue[j]));
            }
        }
    } else {
        assert(v.seen.insert(u) =~= v.seen);
    }
}

/// Offering several URLs keeps a frontier well formed, and the URLs seen
/// afterwards are those seen before together with all of `us`.
pub proof fn lemma_pushed_all_wf(v: FrontierView, us: Seq<Seq<char>>)
    requires
        v.wf(),
    ensures
        v.pushed_all(us).wf(),
        v.pushed_all(us).seen == v.seen + us.to_set(),
    decreases us.len(),
{
    if us.len() == 0 {
        assert(us.to_set() =~= Set::<Seq<char>>::empty());
        assert(v.seen + us.to_set() =~= v.seen);
    } else {
        lemma_pushed_all_wf(v, us.drop_last());
        lemma_pushed_wf(v.pushed_all(us.drop_last()), us.last());
        assert(us.to_set() =~= us.drop_last().to_set().insert(us.last())) by {
            assert forall|x: Seq<char>| us.to_set().contains(x) implies us.drop_last().to_set().insert(
                us.last(),
            ).contains(x) by {
                let k = choose|k: int| 0 <= k < us.len() && us[k] == x;
                if k < us.len() - 1 {
                    assert(us.drop_last()[k] == x);
                }
            }
            assert forall|x: Seq<char>| us.drop_last().to_set().insert(us.last()).contains(x)
                implies us.to_set().contains(x) by {
                if x != us.last() {
                    let k = choose|k: int| 0 <= k < us.drop_last().len() && us.drop_last()[k] == x;
                    assert(us[k] == x);
                } else {
                    assert(us[us.len() - 1] == x);
                }
            }
        }
        assert(v.pushed_all(us).seen =~= v.seen + us.to_set());
    }
}

/// Law: offering a URL that was never seen puts it at the back of the queue
/// and marks it seen; offering one already seen changes nothing.
pub proof fn lemma_push_law(v: FrontierView, u: Seq<char>)
    ensures
        !v.seen.contains(u) ==> v.pushed(u).queue == v.queue.push(u) && v.pushed(u).seen
            == v.seen.insert(u),
        v.seen.contains(u) ==> v.pushed(u).queue == v.queue && v.pushed(u).seen == v.seen,
        v.pushed(u).seen.contains(u),
{
}

/// Law: taking from the front removes exactly the first pending URL and keeps
/// every URL seen; with nothing pending it changes nothing.
pub proof fn lemma_pop_law(v: FrontierView)
    ensures
        v.queue.len() > 0 ==> v.popped().queue == v.queue.subrange(1, v.queue.len() as int)
            && v.popped().seen == v.seen,
        v.queue.len() == 0 ==> v.popped() == v,
{
    if v.queue.len() > 0 {
        assert(v.queue.drop_first() =~= v.queue.subrange(1, v.queue.len() as int));
    }
}

/// Law: offering a URL that was already seen leaves the frontier as it was;
/// in particular, offering the same URL twice is the same as offering it once.
pub proof fn lemma_push_twice(v: FrontierView, u: Seq<char>)
    ensures
        v.seen.contains(u) ==> v.pushed(u) == v,
        v.pushed(u).pushed(u) == v.pushed(u),
{
}

/// Law: a frontier never holds more pending URLs than it has seen.
pub proof fn lemma_pending_at_most_seen(v: FrontierView)
    requires
        v.wf(),
    ensures
        v.queue.len() <= v.seen.len(),
{
    v.queue.unique_seq_to_set();
    assert(v.queue.to_set().subset_of(v.seen));
    vstd::set_lib::lemma_len_subset(v.queue.to_set(), v.seen);
}

/// Law: the URLs seen are those pending plus those handed out. Offering a URL
/// leaves the count of handed-out URLs (seen minus pending) unchanged, and
/// taking one from the front raises it by one.
pub proof fn lemma_handed_out_count(v: FrontierView, u: Seq<char>)
    requires
        v.wf(),
    ensures
        v.pushed(u).seen.len() - v.pushed(u).queue.len() == v.seen.len() - v.queue.len(),
        v.queue.len() > 0 ==> v.popped().seen.len() - v.popped().queue.len() == v.seen.len()
            - v.queue.len() + 1,
{
    lemma_pushed_wf(v, u);
}

/// Law: a URL taken from the front is no longer pending, and offering it again
/// afterwards is refused; so no URL is ever handed out twice.
pub proof fn lemma_popped_not_requeued(v: FrontierView)
    requires
        v.wf(),
        v.queue.len() > 0,
    ensures
        !v.popped().queue.contains(v.queue[0]),
        v.popped().pushed(v.queue[0]) == v.popped(),
        v.popped().wf(),
{
    let w = v.popped();
    if w.queue.contains(v.queue[0]) {
        let k = choose|k: int| 0 <= k < w.queue.len() && w.queue[k] == v.queue[0];
        assert(v.queue[k + 1] == v.queue[0]);
    }
    assert(v.seen.contains(v.queue[0]));
    assert forall|i: int| 0 <= i < w.queue.len() implies w.seen.contains(#[trigger] w.queue[i]) by {
        assert(w.queue[i] == v.queue[i + 1]);
    }
    assert forall|i: int, j: int| 0 <= i < w.queue.len() && 0 <= j < w.queue.len() && i != j
        implies w.queue[i] != w.queue[j] by {
        assert(w.queue[i] == v.queue[i + 1] && w.queue[j] == v.queue[j + 1]);
    }
}

proof fn lemma_pushed_all_of_seen(v: FrontierView, us: Seq<Seq<char>>)
    requires
        forall|k: int| 0 <= k < us.len() ==> v.seen.contains(#[trigger] us[k]),
    ensures
        v.pushed_all(us) == v,
    decreases us.len(),
{
    if us.len() > 0 {
        assert forall|k: int| 0 <= k < us.drop_last().len() implies v.seen.contains(
            #[trigger] us.drop_last()[k],
        ) by {
            assert(us.drop_last()[k] == us[k]);
        }
        lemma_pushed_all_of_seen(v, us.drop_last());
        assert(v.seen.contains(us[us.len() - 1]));
    }
}

/// Law: first in, first out. New, distinct URLs offered in turn join the back
/// of the queue in the order they were offered, behind those already pending.
pub proof fn lemma_fifo_order(v: FrontierView, us: Seq<Seq<char>>)
    requires
        v.wf(),
        us.no_duplicates(),
        forall|k: int| 0 <= k < us.len() ==> !v.seen.contains(#[trigger] us[k]),
    ensures
        v.pushed_all(us).queue == v.queue + us,
    decreases us.len(),
{
    if us.len() == 0 {
        assert(v.queue + us =~= v.queue);
    } else {
        let init = us.drop_last();
        assert forall|k: int| 0 <= k < init.len() implies !v.seen.contains(#[trigger] init[k]) by {
            assert(init[k] == us[k]);
        }
        assert(init.no_duplicates()) by {
            assert forall|i: int, j: int| 0 <= i < init.len() && 0 <= j < init.len() && i != j
                implies init[i] != init[j] by {
                assert(init[i] == us[i] && init[j] == us[j]);
            }
        }
        lemma_fifo_order(v, init);
        lemma_pushed_all_wf(v, init);
        let last = us[us.len() - 1];
        if init.to_set().contains(last) {
            let k = choose|k: int| 0 <= k < init.len() && init[k] == last;
            assert(us[k] == us[us.len() - 1]);
        }
        assert(!v.pushed_all(init).seen.contains(last));
        assert(v.queue + us =~= (v.queue + init).push(last));
    }
}

/// Law: offering the same batch of URLs a second time changes nothing.
pub proof fn lemma_pushed_all_idempotent(v: FrontierView, us: Seq<Seq<char>>)
    requires
        v.wf(),
    ensures
        v.pushed_all(us).pushed_all(us) == v.pushed_all(us),
{
    lemma_pushed_all_wf(v, us);
    assert forall|k: int| 0 <= k < us.len() implies v.pushed_all(us).seen.contains(#[trigger] us[k]) by {
        assert(us.to_set().contains(us[k]));
    }
    lemma_pushed_all_of_seen(v.pushed_all(us), us);
}

/// Manages which URLs to crawl next, first in first out, and remembers every
/// URL it ever admitted so that none is crawled twice.
pub struct Frontier {
    queue: VecDeque<Url>,
    visited: StringHashSet,
}

impl View for Frontier {
    type V = FrontierView;

    closed spec fn view(&self) -> FrontierView {
        FrontierView { queue: self.queue@.map_values(|u: Url| u@), seen: self.visited@ }
    }
}

impl Frontier {
    /// Every frontier is well formed; see `FrontierView::wf`.
    #[verifier::type_invariant]
    pub open spec fn well_formed(self) -> bool {
        self@.wf()
    }

    /// An empty frontier.
    pub fn new() -> (f: Frontier)
        ensures
            f@ == FrontierView::empty(),
            f@.wf(),
    {
        let f = Frontier { queue: VecDeque::new(), visited: StringHashSet::new() };
        assert(f@.queue =~= Seq::<Seq<char>>::empty());
        f
    }

    /// Adds `url` at the back unless it was seen before. Returns `true` when
    /// it was added, `false` when it had already been seen.
    pub fn push(&mut self, url: Url) -> (added: bool)
        ensures
            added == !old(self)@.seen.contains(url@),
            final(self)@ == old(self)@.pushed(url@),
            final(self)@.wf(),
    {
        proof {
            use_type_invariant(&*self);
        }
        let mut taken = Frontier::new();
        std::mem::swap(self, &mut taken);
        let Frontier { mut queue, mut visited } = taken;
        let key = url.as_str().to_owned();
        if !visited.insert(key) {
            *self = Frontier { queue, visited };
            assert(self@ =~= old(self)@);
            return false;
        }
        let ghost u = url@;
        queue.push_back(url);
        proof {
            lemma_pushed_wf(old(self)@, u);
            assert(queue@.map_values(|v: Url| v@) =~= old(self)@.queue.push(u));
        }
        *self = Frontier { queue, visited };
        true
    }

    /// Takes the URL at the front, if any.
    pub fn pop(&mut self) -> (r: Option<Url>)
        ensures
            match r {
                Some(u) => old(self)@.queue.len() > 0 && u@ == old(self)@.queue[0],
                None => old(self)@.queue.len() == 0,
            },
            final(self)@ == old(self)@.popped(),
            final(self)@.wf(),
    {
        proof {
            use_type_invariant(&*self);
        }
        let mut taken = Frontier::new();
        std::mem::swap(self, &mut taken);
        let Frontier { mut queue, visited } = taken;
        let r = queue.pop_front();
        proof {
            if old(self)@.queue.len() > 0 {
                lemma_popped_not_requeued(old(self)@);
                assert(queue@.map_values(|v: Url| v@) =~= old(self)@.queue.drop_first());
            } else {
                assert(queue@.map_values(|v: Url| v@) =~= old(self)@.queue);
            }
        }
        *self = Frontier { queue, visited };
        r
    }

    /// Number of URLs waiting in the queue.
    pub fn pending(&self) -> (n: usize)
        ensures
            n == self@.queue.len(),
    {
        self.queue.len()
    }

    /// Number of distinct URLs ever admitted (handed out or pending).
    pub fn total_seen(&self) -> (n: usize)
        ensures
            n == self@.seen.len(),
    {
        self.visited.len()
    }
}

} // verus!
