use vstd::prelude::*;

verus! {

/// The fingers currently on the screen, in the order they touched down,
/// each with its last known position.
pub struct TouchList<P> {
    touches: Vec<(u64, P)>,
}

/// No touch id occurs twice.
pub open spec fn ids_unique<P>(s: Seq<(u64, P)>) -> bool {
    forall|a: int, b: int| 0 <= a < s.len() && 0 <= b < s.len() && a != b ==> #[trigger] s[a].0 != #[trigger] s[b].0
}

/// Some entry of `s` carries the id `id`.
pub open spec fn has_id<P>(s: Seq<(u64, P)>, id: u64) -> bool {
    exists|q: int| 0 <= q < s.len() && #[trigger] s[q].0 == id
}

/// The entry does not carry the id `id`.
pub open spec fn other_id<P>(id: u64) -> spec_fn((u64, P)) -> bool {
    |e: (u64, P)| e.0 != id
}

/// The entries of `s` not carrying `id`, in their order.
pub open spec fn without_id<P>(s: Seq<(u64, P)>, id: u64) -> Seq<(u64, P)> {
    s.filter(other_id(id))
}

impl<P> View for TouchList<P> {
    type V = Seq<(u64, P)>;

    closed spec fn view(&self) -> Seq<(u64, P)> {
        self.touches@
    }
}

impl<P: Copy> TouchList<P> {
    /// Touch ids are distinct.
    pub closed spec fn wf(&self) -> bool {
        ids_unique(self.touches@)
    }

    /// No finger down.
    pub fn new() -> (t: TouchList<P>)
        ensures
            t.wf(),
            t@ == Seq::<(u64, P)>::empty(),
    {
        TouchList { touches: Vec::new() }
    }

    /// Number of fingers down.
    pub fn len(&self) -> (n: usize)
        ensures
            n == self@.len(),
    {
        self.touches.len()
    }

    fn find(&self, id: u64) -> (r: Option<usize>)
        ensures
            match r {
                Some(q) => q < self@.len() && self@[q as int].0 == id,
                None => !has_id(self@, id),
            },
    {
        let mut q: usize = 0;
        while q < self.touches.len()
            invariant
                q <= self.touches@.len(),
                forall|a: int| 0 <= a < q ==> self.touches@[a].0 != id,
            decreases self.touches@.len() - q,
        {
            if self.touches[q].0 == id {
                return Some(q);
            }
            q = q + 1;
        }
        None
    }

    /// A finger touched down: it is appended unless its id is already held.
    pub fn press(&mut self, id: u64, pos: P)
        requires
            old(self).wf(),
        ensures
            final(self).wf(),
            has_id(old(self)@, id) ==> final(self)@ == old(self)@,
            !has_id(old(self)@, id) ==> final(self)@ == old(self)@.push((id, pos)),
    {
        if self.find(id).is_none() {
            let ghost s = self.touches@;
            self.touches.push((id, pos));
            assert forall|a: int, b: int|
                0 <= a < self.touches@.len() && 0 <= b < self.touches@.len() && a != b
                implies #[trigger] self.touches@[a].0 != #[trigger] self.touches@[b].0 by {
                if a == s.len() {
                    assert(s[b].0 == self.touches@[b].0);
                } else if b == s.len() {
                    assert(s[a].0 == self.touches@[a].0);
                }
            }
        }
    }

    /// A finger moved: its position is replaced, and its previous position
    /// returned; an unknown id changes nothing and gives `None`.
    pub fn move_to(&mut self, id: u64, pos: P) -> (prev: Option<P>)
        requires
            old(self).wf(),
        ensures
            final(self).wf(),
            match prev {
                Some(p) => exists|q: int|
                    0 <= q < old(self)@.len() && #[trigger] old(self)@[q].0 == id && p == old(self)@[q].1
                        && final(self)@ == old(self)@.update(q, (id, pos)),
                None => !has_id(old(self)@, id) && final(self)@ == old(self)@,
            },
    {
        match self.find(id) {
            Some(q) => {
                let prev = self.touches[q].1;
                let ghost s = self.touches@;
                self.touches.set(q, (id, pos));
                assert forall|a: int, b: int|
                    0 <= a < self.touches@.len() && 0 <= b < self.touches@.len() && a != b
                    implies #[trigger] self.touches@[a].0 != #[trigger] self.touches@[b].0 by {
                    assert(s[a].0 == self.touches@[a].0);
                    assert(s[b].0 == self.touches@[b].0);
                }
                assert(old(self)@[q as int].0 == id);
                Some(prev)
            },
            None => None,
        }
    }

    /// A finger lifted (or the touch was cancelled): its entry is dropped.
    pub fn release(&mut self, id: u64)
        requires
            old(self).wf(),
        ensures
            final(self).wf(),
            final(self)@ == without_id(old(self)@, id),
    {
        let ghost s = self.touches@;
        let mut kept: Vec<(u64, P)> = Vec::new();
        for q in 0..self.touches.len()
            invariant
                self.touches@ == s,
                ids_unique(s),
                kept@ == without_id(s.take(q as int), id),
        {
            reveal_with_fuel(Seq::<_>::filter, 1);
            let e = self.touches[q];
            assert(s.take(q + 1).drop_last() =~= s.take(q as int));
            if e.0 != id {
                kept.push(e);
            }
        }
        assert(s.take(s.len() as int) =~= s);
        proof {
            lemma_without_id_unique(s, id);
        }
        self.touches = kept;
    }

    /// Positions of the first two fingers, when at least two are down.
    pub fn first_two(&self) -> (r: Option<(P, P)>)
        ensures
            match r {
                Some(ab) => self@.len() >= 2 && ab == (self@[0].1, self@[1].1),
                None => self@.len() < 2,
            },
    {
        if self.touches.len() >= 2 {
            Some((self.touches[0].1, self.touches[1].1))
        } else {
            None
        }
    }
}

proof fn lemma_without_id_unique<P>(s: Seq<(u64, P)>, id: u64)
    requires
        ids_unique(s),
    ensures
        ids_unique(without_id(s, id)),
    decreases s.len(),
{
    reveal_with_fuel(Seq::<_>::filter, 1);
    let f = without_id(s, id);
    if s.len() > 0 {
        let t = s.drop_last();
        assert forall|a: int, b: int| 0 <= a < t.len() && 0 <= b < t.len() && a != b
            implies #[trigger] t[a].0 != #[trigger] t[b].0 by {
        }
        lemma_without_id_unique(t, id);
        let ft = without_id(t, id);
        if s.last().0 != id {
            assert(f == ft.push(s.last()));
            assert forall|a: int, b: int| 0 <= a < f.len() && 0 <= b < f.len() && a != b
                implies #[trigger] f[a].0 != #[trigger] f[b].0 by {
                if a == ft.len() || b == ft.len() {
                    let o = if a == ft.len() { b } else { a };
                    assert(ft.contains(ft[o]));
                    t.lemma_filter_contains_rev(other_id(id), ft[o]);
                    let w = choose|w: int| 0 <= w < t.len() && t[w] == ft[o];
                    assert(s[w] == t[w]);
                    assert(s[s.len() - 1] == s.last());
                }
            }
        } else {
            assert(f == ft);
        }
    }
}

/// After a release no entry carries the released id, and every other finger
/// keeps its entry and its place in the order.
pub proof fn lemma_release_removes<P>(s: Seq<(u64, P)>, id: u64)
    ensures
        !has_id(without_id(s, id), id),
        forall|e: (u64, P)| e.0 != id ==> (s.contains(e) <==> #[trigger] without_id(s, id).contains(e)),
{
    broadcast use vstd::seq_lib::group_filter_ensures;

    assert forall|e: (u64, P)| e.0 != id implies (s.contains(e) <==> #[trigger] without_id(s, id).contains(e)) by {
        if s.contains(e) {
            let q = choose|q: int| 0 <= q < s.len() && s[q] == e;
            s.lemma_filter_contains(other_id(id), q);
        }
        if without_id(s, id).contains(e) {
            s.lemma_filter_contains_rev(other_id(id), e);
        }
    }
}

/// A finger that touches down and lifts again leaves the list as it was.
pub proof fn lemma_press_release<P>(s: Seq<(u64, P)>, id: u64, pos: P)
    requires
        !has_id(s, id),
    ensures
        without_id(s.push((id, pos)), id) == s,
    decreases s.len(),
{
    reveal_with_fuel(Seq::<_>::filter, 1);
    assert(s.push((id, pos)).drop_last() =~= s);
    lemma_without_absent(s, id);
}

proof fn lemma_without_absent<P>(s: Seq<(u64, P)>, id: u64)
    requires
        !has_id(s, id),
    ensures
        without_id(s, id) == s,
    decreases s.len(),
{
    reveal_with_fuel(Seq::<_>::filter, 1);
    if s.len() > 0 {
        let t = s.drop_last();
        assert(!has_id(t, id)) by {
            if has_id(t, id) {
                let q = choose|q: int| 0 <= q < t.len() && #[trigger] t[q].0 == id;
                assert(s[q].0 == id);
            }
        }
        lemma_without_absent(t, id);
        assert(s.last().0 != id) by {
            assert(s[s.len() - 1].0 != id);
        }
        assert(t.push(s.last()) =~= s);
    }
}

} // verus!
