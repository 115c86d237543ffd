//! Fixed-length history windows: the data behind the sparklines.

use vstd::prelude::*;

verus! {

/// The window after one push: the oldest value drops out and `v` comes in
/// at the end; a window of length zero keeps nothing.
pub open spec fn push_window<T>(s: Seq<T>, v: T) -> Seq<T> {
    if s.len() == 0 {
        s
    } else {
        s.drop_first().push(v)
    }
}

/// The window after pushing every value of `vs` in order.
pub open spec fn push_all<T>(s: Seq<T>, vs: Seq<T>) -> Seq<T>
    decreases vs.len(),
{
    if vs.len() == 0 {
        s
    } else {
        push_window(push_all(s, vs.drop_last()), vs.last())
    }
}

/// A history of the last `max_size` values, oldest first. It always holds
/// exactly `max_size` values: it starts filled and each push drops the oldest.
pub struct HistoryBuffer<T> {
    data: Vec<T>,
    max_size: usize,
}

impl<T> HistoryBuffer<T> {
    #[verifier::type_invariant]
    spec fn inv(self) -> bool {
        self.data@.len() == self.max_size
    }
}

impl<T> View for HistoryBuffer<T> {
    type V = Seq<T>;

    /// The values in the window, oldest first.
    closed spec fn view(&self) -> Seq<T> {
        self.data@
    }
}

impl<T: Copy> HistoryBuffer<T> {
    /// A window of `size` values, all equal to `fill`.
    pub fn with_fill(size: usize, fill: T) -> (b: Self)
        ensures
            b@ == Seq::new(size as nat, |i: int| fill),
    {
        let mut data: Vec<T> = Vec::new();
        let mut i: usize = 0;
        while i < size
            invariant
                i <= size,
                data@ == Seq::new(i as nat, |j: int| fill),
            decreases size - i,
        {
            data.push(fill);
            i = i + 1;
        }
        HistoryBuffer { data, max_size: size }
    }

    /// A window of `size` values, all equal to the type's default value
    /// (zero for the numbers).
    pub fn new(size: usize) -> (b: Self) where T: Default
        ensures
            b@.len() == size,
            forall|i: int, j: int| 0 <= i < size && 0 <= j < size ==> b@[i] == b@[j],
            forall|i: int| 0 <= i < size ==> call_ensures(T::default, (), #[trigger] b@[i]),
    {
        let fill = T::default();
        proof {
            assert(call_ensures(T::default, (), fill));
        }
        Self::with_fill(size, fill)
    }

    /// Records `value`: the oldest value leaves and `value` becomes the newest.
    /// A window of length zero ignores the push.
    pub fn push(&mut self, value: T)
        ensures
            final(self)@ == push_window(old(self)@, value),
    {
        proof {
            use_type_invariant(&*self);
        }
        if self.max_size == 0 {
            return;
        }
        let mut taken = HistoryBuffer { data: Vec::new(), max_size: 0 };
        std::mem::swap(&mut taken, self);
        proof {
            use_type_invariant(&taken);
        }
        let HistoryBuffer { data, max_size } = taken;
        let mut data = data;
        data.remove(0);
        data.push(value);
        *self = HistoryBuffer { data, max_size };
    }

    /// A copy of the window, oldest value first.
    pub fn get(&self) -> (values: Vec<T>)
        ensures
            values@ == self@,
    {
        let mut out: Vec<T> = Vec::new();
        let n = self.data.len();
        let mut i: usize = 0;
        while i < n
            invariant
                n == self.data@.len(),
                i <= n,
                out@ == self.data@.subrange(0, i as int),
            decreases n - i,
        {
            out.push(self.data[i]);
            i = i + 1;
        }
        assert(out@ =~= self.data@);
        out
    }
}

/// Pushing keeps the window's length.
pub proof fn lemma_push_all_len<T>(s: Seq<T>, vs: Seq<T>)
    ensures
        push_all(s, vs).len() == s.len(),
    decreases vs.len(),
{
    if vs.len() > 0 {
        lemma_push_all_len(s, vs.drop_last());
    }
}

/// The window keeps the latest values: after pushing `vs` into window `s`,
/// it holds the last `s.len()` values of `s` followed by `vs`.
pub proof fn lemma_window_keeps_latest<T>(s: Seq<T>, vs: Seq<T>)
    ensures
        push_all(s, vs) == (s + vs).subrange(vs.len() as int, (s.len() + vs.len()) as int),
    decreases vs.len(),
{
    if vs.len() == 0 {
        assert((s + vs).subrange(0, s.len() as int) =~= s);
    } else {
        let prev = vs.drop_last();
        lemma_window_keeps_latest(s, prev);
        let p = push_all(s, prev);
        assert(p == (s + prev).subrange(prev.len() as int, (s.len() + prev.len()) as int));
        if s.len() == 0 {
            assert((s + vs).subrange(vs.len() as int, vs.len() as int) =~= Seq::<T>::empty());
            assert(p.len() == 0);
        } else {
            assert(push_window(p, vs.last()) =~= (s + vs).subrange(
                vs.len() as int,
                (s.len() + vs.len()) as int,
            ));
        }
    }
}

} // verus!
