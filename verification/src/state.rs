//! The abstract program state: a mapping from variable names to abstract
//! values, or the distinguished unreachable state.

use vstd::prelude::*;

use crate::bounds::Bounds;
use crate::domain::Domain;
use crate::lattice::Lattice;

verus! {

/// An abstract state over the domain `T`: `Bottom` marks a program point
/// proven unreachable; `Just` maps each known variable to an abstract
/// value. A variable absent from a reachable state is unconstrained (top).
#[derive(Debug)]
pub enum State<T> {
    Bottom,
    Just(Vec<(String, T)>),
}

/// The keys of an association list are pairwise distinct.
pub open spec fn keys_distinct<T>(s: Seq<(String, T)>) -> bool {
    forall|i: int, j: int| 0 <= i < j < s.len() ==> s[i].0@ != s[j].0@
}

/// The mapping an association list stands for.
pub open spec fn map_of<T>(s: Seq<(String, T)>) -> Map<Seq<char>, T>
    decreases s.len(),
{
    if s.len() == 0 {
        Map::empty()
    } else {
        map_of(s.drop_last()).insert(s.last().0@, s.last().1)
    }
}

/// A key is in the mapping exactly when some entry carries it.
pub proof fn lemma_map_of_contains<T>(s: Seq<(String, T)>, k: Seq<char>)
    ensures
        map_of(s).contains_key(k) <==> exists|i: int| 0 <= i < s.len() && s[i].0@ == k,
    decreases s.len(),
{
    if s.len() > 0 {
        lemma_map_of_contains(s.drop_last(), k);
        if map_of(s).contains_key(k) {
            if k == s.last().0@ {
                assert(s[s.len() - 1].0@ == k);
            } else {
                let i = choose|i: int| 0 <= i < s.drop_last().len() && s.drop_last()[i].0@ == k;
                assert(s[i].0@ == k);
            }
        }
        if exists|i: int| 0 <= i < s.len() && s[i].0@ == k {
            let i = choose|i: int| 0 <= i < s.len() && s[i].0@ == k;
            if i < s.len() - 1 {
                assert(s.drop_last()[i].0@ == k);
            }
        }
    }
}

/// With distinct keys, the mapping sends each entry's key to that entry's
/// value.
pub proof fn lemma_map_of_index<T>(s: Seq<(String, T)>, i: int)
    requires
        keys_distinct(s),
        0 <= i < s.len(),
    ensures
        map_of(s).contains_key(s[i].0@),
        map_of(s)[s[i].0@] == s[i].1,
    decreases s.len(),
{
    if i < s.len() - 1 {
        assert(keys_distinct(s.drop_last()));
        lemma_map_of_index(s.drop_last(), i);
        assert(s.drop_last()[i] == s[i]);
        assert(s[i].0@ != s.last().0@);
    }
}

/// Appending a fresh entry inserts its binding.
pub proof fn lemma_map_of_push<T>(s: Seq<(String, T)>, p: (String, T))
    ensures
        map_of(s.push(p)) == map_of(s).insert(p.0@, p.1),
{
    assert(s.push(p).drop_last() =~= s);
    assert(s.push(p).last() == p);
}

/// Overwriting the entry that carries a key updates its binding.
pub proof fn lemma_map_of_update<T>(s: Seq<(String, T)>, i: int, p: (String, T))
    requires
        keys_distinct(s),
        0 <= i < s.len(),
        s[i].0@ == p.0@,
    ensures
        map_of(s.update(i, p)) =~= map_of(s).insert(p.0@, p.1),
    decreases s.len(),
{
    let s2 = s.update(i, p);
    if i == s.len() - 1 {
        assert(s2.drop_last() =~= s.drop_last());
        assert(s2.last() == p);
    } else {
        assert(keys_distinct(s.drop_last()));
        assert(s.drop_last()[i] == s[i]);
        lemma_map_of_update(s.drop_last(), i, p);
        assert(s2.drop_last() =~= s.drop_last().update(i, p));
        assert(s2.last() == s.last());
        assert(s.last().0@ != p.0@);
    }
}

/// An updated entry keeps the key set distinct.
pub proof fn lemma_keys_distinct_update<T>(s: Seq<(String, T)>, i: int, p: (String, T))
    requires
        keys_distinct(s),
        0 <= i < s.len(),
        s[i].0@ == p.0@,
    ensures
        keys_distinct(s.update(i, p)),
{
}

impl<T> View for State<T> {
    type V = Option<Map<Seq<char>, T>>;

    /// The mapping this state stands for; `None` is the unreachable state.
    open spec fn view(&self) -> Option<Map<Seq<char>, T>> {
        match *self {
            State::Bottom => None,
            State::Just(ref v) => Some(map_of(v@)),
        }
    }
}

/// Reading a variable from a reachable mapping: an absent variable is
/// unconstrained.
pub open spec fn read_view<T: Lattice>(m: Map<Seq<char>, T>, k: Seq<char>) -> T {
    if m.contains_key(k) {
        m[k]
    } else {
        T::top_s()
    }
}

/// Writing a variable: a bottom value collapses the whole state to
/// unreachable, and the unreachable state absorbs every write.
pub open spec fn put_view<T: Lattice>(v: Option<Map<Seq<char>, T>>, k: Seq<char>, val: T) -> Option<
    Map<Seq<char>, T>,
> {
    match v {
        None => None,
        Some(m) => if val == T::bot_s() {
            None
        } else {
            Some(m.insert(k, val))
        },
    }
}

/// The pointwise combination of two mappings over the first mapping's
/// variables; a variable the second mapping lacks keeps its value.
pub open spec fn combine_maps<T>(
    m1: Map<Seq<char>, T>,
    m2: Map<Seq<char>, T>,
    f: spec_fn(T, T) -> T,
) -> Map<Seq<char>, T> {
    Map::new(
        |k: Seq<char>| m1.contains_key(k),
        |k: Seq<char>|
            if m2.contains_key(k) {
                f(m1[k], m2[k])
            } else {
                m1[k]
            },
    )
}

/// A pointwise combination, collapsed to unreachable when any variable's
/// combined value is bottom.
pub open spec fn joined_view<T: Lattice>(
    m1: Map<Seq<char>, T>,
    m2: Map<Seq<char>, T>,
    f: spec_fn(T, T) -> T,
) -> Option<Map<Seq<char>, T>> {
    let m = combine_maps(m1, m2, f);
    if exists|k: Seq<char>| #[trigger] m.contains_key(k) && m[k] == T::bot_s() {
        None
    } else {
        Some(m)
    }
}

/// A pointwise operator where the unreachable state is the identity, as
/// for joins and widening.
pub open spec fn join_states_view<T: Lattice>(
    v1: Option<Map<Seq<char>, T>>,
    v2: Option<Map<Seq<char>, T>>,
    f: spec_fn(T, T) -> T,
) -> Option<Map<Seq<char>, T>> {
    match (v1, v2) {
        (None, _) => v2,
        (_, None) => v1,
        (Some(m1), Some(m2)) => joined_view(m1, m2, f),
    }
}

/// A pointwise operator where the unreachable state absorbs, as for meets
/// and narrowing.
pub open spec fn meet_states_view<T: Lattice>(
    v1: Option<Map<Seq<char>, T>>,
    v2: Option<Map<Seq<char>, T>>,
    f: spec_fn(T, T) -> T,
) -> Option<Map<Seq<char>, T>> {
    match (v1, v2) {
        (None, _) => None,
        (_, None) => None,
        (Some(m1), Some(m2)) => joined_view(m1, m2, f),
    }
}

/// Two states agree on their common variables. This is the equality the
/// fixpoint engine iterates to; a variable present on one side only is
/// unconstrained on the other and not compared.
pub open spec fn equiv_view<T>(
    v1: Option<Map<Seq<char>, T>>,
    v2: Option<Map<Seq<char>, T>>,
) -> bool {
    match (v1, v2) {
        (None, None) => true,
        (Some(m1), Some(m2)) => forall|k: Seq<char>|
            #![trigger m1.contains_key(k), m2.contains_key(k)]
            m1.contains_key(k) && m2.contains_key(k) ==> m1[k] == m2[k],
        _ => false,
    }
}


/// The join of two domain values under window `b`, as a function value.
pub open spec fn lub_f<T: Lattice>(b: Bounds) -> spec_fn(T, T) -> T {
    |x: T, y: T| x.lub_s(y, b)
}

/// The meet of two domain values under window `b`, as a function value.
pub open spec fn glb_f<T: Lattice>(b: Bounds) -> spec_fn(T, T) -> T {
    |x: T, y: T| x.glb_s(y, b)
}

/// The widening of two domain values under window `b`, as a function
/// value.
pub open spec fn widen_f<T: Lattice>(b: Bounds) -> spec_fn(T, T) -> T {
    |x: T, y: T| x.widen_s(y, b)
}

/// The narrowing of two domain values under window `b`, as a function
/// value.
pub open spec fn narrow_f<T: Lattice>(b: Bounds) -> spec_fn(T, T) -> T {
    |x: T, y: T| x.narrow_s(y, b)
}

/// An association list that stands for the combination of `s1` and `m2`
/// entry by entry yields the combined mapping.
proof fn lemma_entries_combine<T>(
    out: Seq<(String, T)>,
    s1: Seq<(String, T)>,
    m2: Map<Seq<char>, T>,
    f: spec_fn(T, T) -> T,
)
    requires
        out.len() == s1.len(),
        keys_distinct(s1),
        forall|j: int| 0 <= j < out.len() ==> (#[trigger] out[j].0)@ == s1[j].0@,
        forall|j: int|
            0 <= j < out.len() ==> (#[trigger] out[j].1) == (if m2.contains_key(s1[j].0@) {
                f(s1[j].1, m2[s1[j].0@])
            } else {
                s1[j].1
            }),
    ensures
        map_of(out) =~= combine_maps(map_of(s1), m2, f),
{
    let mo = map_of(out);
    let mc = combine_maps(map_of(s1), m2, f);
    assert forall|k: Seq<char>| mo.contains_key(k) implies mc.contains_key(k) by {
        lemma_map_of_contains(out, k);
        let i = choose|i: int| 0 <= i < out.len() && out[i].0@ == k;
        lemma_map_of_contains(s1, k);
        assert(s1[i].0@ == k);
    }
    assert forall|k: Seq<char>| mc.contains_key(k) implies mo.contains_key(k) by {
        lemma_map_of_contains(s1, k);
        let i = choose|i: int| 0 <= i < s1.len() && s1[i].0@ == k;
        assert(out[i].0@ == k);
        lemma_map_of_contains(out, k);
    }
    assert forall|k: Seq<char>| mo.contains_key(k) implies mo[k] == mc[k] by {
        lemma_map_of_contains(out, k);
        let i = choose|i: int| 0 <= i < out.len() && out[i].0@ == k;
        assert(keys_distinct(out));
        lemma_map_of_index(out, i);
        lemma_map_of_index(s1, i);
    }
}

impl<T: Domain> State<T> {
    /// Well-formedness under the window `b`: a reachable state binds
    /// distinct variables to well-formed, non-bottom values.
    pub open spec fn wf_state(self, b: Bounds) -> bool {
        match self {
            State::Bottom => true,
            State::Just(v) => {
                &&& keys_distinct(v@)
                &&& forall|i: int|
                    0 <= i < v@.len() ==> (#[trigger] v@[i].1).wf(b) && v@[i].1 != T::bot_s()
            },
        }
    }

    /// The state binding no variable: every variable is unconstrained.
    pub fn new() -> (r: State<T>)
        ensures
            r@ == Some(Map::<Seq<char>, T>::empty()),
            forall|b: Bounds| r.wf_state(b),
    {
        let v: Vec<(String, T)> = Vec::new();
        State::Just(v)
    }

    /// Whether this is the unreachable state.
    pub fn is_bottom(&self) -> (r: bool)
        ensures
            r == (self@ is None),
    {
        matches!(*self, State::Bottom)
    }

    /// Reads a variable from a reachable state; an absent variable reads
    /// as top. The unreachable state is left out: callers guard.
    pub fn read(&self, var: &String, b: &Bounds) -> (r: T)
        requires
            b.wf(),
            self.wf_state(*b),
            self@ is Some,
        ensures
            r == read_view(self@->Some_0, var@),
            r.wf(*b),
    {
        match self {
            State::Bottom => T::top(),
            State::Just(v) => {
                let n = v.len();
                let mut i: usize = 0;
                while i < n
                    invariant
                        b.wf(),
                        State::Just(*v).wf_state(*b),
                        self@ == Some(map_of(v@)),
                        n == v@.len(),
                        0 <= i <= n,
                        forall|j: int| 0 <= j < i ==> (#[trigger] v@[j].0)@ != var@,
                    decreases n - i,
                {
                    if v[i].0 == *var {
                        proof {
                            lemma_map_of_index(v@, i as int);
                        }
                        return v[i].1;
                    }
                    i += 1;
                }
                proof {
                    lemma_map_of_contains(v@, var@);
                }
                T::top()
            },
        }
    }

    /// Writes a variable. Writing bottom makes the whole state
    /// unreachable; writing to the unreachable state leaves it so.
    pub fn put(&self, var: &String, val: T, b: &Bounds) -> (r: State<T>)
        requires
            b.wf(),
            self.wf_state(*b),
            val.wf(*b),
        ensures
            r@ == put_view(self@, var@, val),
            r.wf_state(*b),
    {
        match self {
            State::Bottom => State::Bottom,
            State::Just(v) => {
                if val.is_bot() {
                    return State::Bottom;
                }
                let n = v.len();
                let idx_opt = Self::find_key(v, var);
                let ghost found = idx_opt is Some;
                let ghost idx: int = match idx_opt {
                    Some(i) => i as int,
                    None => 0,
                };
                let mut out: Vec<(String, T)> = Vec::new();
                let mut i: usize = 0;
                while i < n
                    invariant
                        b.wf(),
                        State::Just(*v).wf_state(*b),
                        self@ == Some(map_of(v@)),
                        val.wf(*b),
                        val != T::bot_s(),
                        n == v@.len(),
                        0 <= i <= n,
                        found ==> 0 <= idx < n && v@[idx].0@ == var@,
                        match idx_opt {
                            Some(at) => found && idx == at as int,
                            None => !found,
                        },
                        out@.len() == i,
                        forall|j: int|
                            0 <= j < i ==> #[trigger] out@[j] == (if found && j == idx {
                                (v@[j].0, val)
                            } else {
                                v@[j]
                            }),
                    decreases n - i,
                {
                    let entry_key = v[i].0.clone();
                    let keep: bool = match idx_opt {
                        Some(at) => at != i,
                        None => true,
                    };
                    if keep {
                        out.push((entry_key, v[i].1));
                    } else {
                        out.push((entry_key, val));
                    }
                    i += 1;
                }
                if let Some(_) = idx_opt {
                    proof {
                        assert(out@ =~= v@.update(idx, (v@[idx].0, val)));
                        lemma_keys_distinct_update(v@, idx, (v@[idx].0, val));
                        lemma_map_of_update(v@, idx, (v@[idx].0, val));
                    }
                    State::Just(out)
                } else {
                    proof {
                        assert(out@ =~= v@);
                        lemma_map_of_contains(v@, var@);
                        lemma_map_of_push(v@, (*var, val));
                    }
                    out.push((var.clone(), val));
                    proof {
                        assert(out@ =~= v@.push((*var, val)));
                    }
                    State::Just(out)
                }
            },
        }
    }

    /// The position of a variable's entry, if it is bound.
    fn find_key(v: &Vec<(String, T)>, var: &String) -> (r: Option<usize>)
        ensures
            match r {
                Some(i) => i < v@.len() && v@[i as int].0@ == var@,
                None => forall|j: int| 0 <= j < v@.len() ==> (#[trigger] v@[j].0)@ != var@,
            },
    {
        let n = v.len();
        let mut i: usize = 0;
        while i < n
            invariant
                n == v@.len(),
                0 <= i <= n,
                forall|j: int| 0 <= j < i ==> (#[trigger] v@[j].0)@ != var@,
            decreases n - i,
        {
            if v[i].0 == *var {
                return Some(i);
            }
            i += 1;
        }
        None
    }

    /// Decides whether two states agree on their common variables; the
    /// fixpoint engine iterates until this holds.
    pub fn equiv(&self, other: &State<T>) -> (r: bool)
        requires
            self.distinct_keys(),
            other.distinct_keys(),
        ensures
            r == equiv_view(self@, other@),
    {
        match (self, other) {
            (State::Bottom, State::Bottom) => true,
            (State::Bottom, _) => false,
            (_, State::Bottom) => false,
            (State::Just(v1), State::Just(v2)) => {
                let n = v1.len();
                let mut i: usize = 0;
                while i < n
                    invariant
                        keys_distinct(v1@),
                        keys_distinct(v2@),
                        self@ == Some(map_of(v1@)),
                        other@ == Some(map_of(v2@)),
                        n == v1@.len(),
                        0 <= i <= n,
                        forall|j: int|
                            0 <= j < i ==> {
                                let k = (#[trigger] v1@[j].0)@;
                                map_of(v2@).contains_key(k) ==> map_of(v1@)[k] == map_of(v2@)[k]
                            },
                    decreases n - i,
                {
                    let x = v1[i].1;
                    proof {
                        lemma_map_of_index(v1@, i as int);
                    }
                    match Self::get_value(v2, &v1[i].0) {
                        Some(y) => {
                            if !x.eq_val(&y) {
                                proof {
                                    let k = v1@[i as int].0@;
                                    assert(map_of(v1@).contains_key(k));
                                    assert(map_of(v1@)[k] == x);
                                    assert(map_of(v2@).contains_key(k));
                                    assert(map_of(v2@)[k] == y);
                                    assert((self@->Some_0).contains_key(k));
                                    assert((other@->Some_0).contains_key(k));
                                    assert(!equiv_view(self@, other@));
                                }
                                return false;
                            }
                        },
                        None => {},
                    }
                    i += 1;
                }
                proof {
                    if !equiv_view(self@, other@) {
                        let k = choose|k: Seq<char>|
                            #![trigger map_of(v1@).contains_key(k), map_of(v2@).contains_key(k)]
                            map_of(v1@).contains_key(k) && map_of(v2@).contains_key(k) && map_of(
                                v1@,
                            )[k] != map_of(v2@)[k];
                        lemma_map_of_contains(v1@, k);
                        let j = choose|j: int| 0 <= j < v1@.len() && v1@[j].0@ == k;
                        assert(v1@[j].0@ == k);
                    }
                }
                true
            },
        }
    }

    /// A reachable state binds each variable at most once; the
    /// unreachable state binds nothing.
    pub open spec fn distinct_keys(self) -> bool {
        match self {
            State::Bottom => true,
            State::Just(v) => keys_distinct(v@),
        }
    }

    /// Looks a variable up, yielding nothing when it is unbound.
    fn get_value(v: &Vec<(String, T)>, var: &String) -> (r: Option<T>)
        requires
            keys_distinct(v@),
        ensures
            r == if map_of(v@).contains_key(var@) {
                Some(map_of(v@)[var@])
            } else {
                None::<T>
            },
    {
        let n = v.len();
        let mut i: usize = 0;
        while i < n
            invariant
                keys_distinct(v@),
                n == v@.len(),
                0 <= i <= n,
                forall|j: int| 0 <= j < i ==> (#[trigger] v@[j].0)@ != var@,
            decreases n - i,
        {
            if v[i].0 == *var {
                proof {
                    lemma_map_of_index(v@, i as int);
                }
                return Some(v[i].1);
            }
            i += 1;
        }
        proof {
            lemma_map_of_contains(v@, var@);
        }
        None
    }

    /// The least upper bound of two states, pointwise over the first
    /// state's variables; the unreachable state is the identity.
    pub fn lub(&self, other: &State<T>, b: &Bounds) -> (r: State<T>)
        requires
            b.wf(),
            self.wf_state(*b),
            other.wf_state(*b),
        ensures
            r@ == join_states_view(self@, other@, lub_f::<T>(*b)),
            r.wf_state(*b),
    {
        let ghost f = lub_f::<T>(*b);
        match (self, other) {
            (State::Bottom, _) => other.clone(),
            (_, State::Bottom) => self.clone(),
            (State::Just(v1), State::Just(v2)) => {
                let n = v1.len();
                let mut out: Vec<(String, T)> = Vec::new();
                let mut i: usize = 0;
                while i < n
                    invariant
                        b.wf(),
                        f == lub_f::<T>(*b),
                        State::Just(*v1).wf_state(*b),
                        State::Just(*v2).wf_state(*b),
                        self@ == Some(map_of(v1@)),
                        other@ == Some(map_of(v2@)),
                        n == v1@.len(),
                        0 <= i <= n,
                        out@.len() == i,
                        forall|j: int| 0 <= j < i ==> (#[trigger] out@[j].0)@ == v1@[j].0@,
                        forall|j: int|
                            0 <= j < i ==> (#[trigger] out@[j].1) == (if map_of(v2@).contains_key(
                                v1@[j].0@,
                            ) {
                                f(v1@[j].1, map_of(v2@)[v1@[j].0@])
                            } else {
                                v1@[j].1
                            }),
                        forall|j: int|
                            0 <= j < i ==> (#[trigger] out@[j].1).wf(*b) && out@[j].1
                                != T::bot_s(),
                    decreases n - i,
                {
                    let x = v1[i].1;
                    let key = v1[i].0.clone();
                    proof {
                        lemma_map_of_index(v1@, i as int);
                        if map_of(v2@).contains_key(v1@[i as int].0@) {
                            let k = v1@[i as int].0@;
                            lemma_map_of_contains(v2@, k);
                            let j = choose|j: int| 0 <= j < v2@.len() && v2@[j].0@ == k;
                            lemma_map_of_index(v2@, j);
                        }
                    }
                    let y = match Self::get_value(v2, &v1[i].0) {
                        Some(z) => x.lub(&z, b),
                        None => x,
                    };
                    if y.is_bot() {
                        proof {
                            let k = v1@[i as int].0@;
                            let m = combine_maps(map_of(v1@), map_of(v2@), f);
                            assert(m.contains_key(k) && m[k] == T::bot_s());
                        }
                        return State::Bottom;
                    }
                    out.push((key, y));
                    i += 1;
                }
                proof {
                    lemma_entries_combine(out@, v1@, map_of(v2@), f);
                    let m = combine_maps(map_of(v1@), map_of(v2@), f);
                    assert forall|k: Seq<char>| #[trigger]
                        m.contains_key(k) implies m[k] != T::bot_s() by {
                        lemma_map_of_contains(v1@, k);
                        let j = choose|j: int| 0 <= j < v1@.len() && v1@[j].0@ == k;
                        lemma_map_of_index(v1@, j);
                        assert(out@[j].1 == m[k]);
                    }
                }
                State::Just(out)
            },
        }
    }

    /// Widening of two states, pointwise over the first state's
    /// variables; the unreachable state is the identity.
    pub fn widen(&self, other: &State<T>, b: &Bounds) -> (r: State<T>)
        requires
            b.wf(),
            self.wf_state(*b),
            other.wf_state(*b),
        ensures
            r@ == join_states_view(self@, other@, widen_f::<T>(*b)),
            r.wf_state(*b),
    {
        let ghost f = widen_f::<T>(*b);
        match (self, other) {
            (State::Bottom, _) => other.clone(),
            (_, State::Bottom) => self.clone(),
            (State::Just(v1), State::Just(v2)) => {
                let n = v1.len();
                let mut out: Vec<(String, T)> = Vec::new();
                let mut i: usize = 0;
                while i < n
                    invariant
                        b.wf(),
                        f == widen_f::<T>(*b),
                        State::Just(*v1).wf_state(*b),
                        State::Just(*v2).wf_state(*b),
                        self@ == Some(map_of(v1@)),
                        other@ == Some(map_of(v2@)),
                        n == v1@.len(),
                        0 <= i <= n,
                        out@.len() == i,
                        forall|j: int| 0 <= j < i ==> (#[trigger] out@[j].0)@ == v1@[j].0@,
                        forall|j: int|
                            0 <= j < i ==> (#[trigger] out@[j].1) == (if map_of(v2@).contains_key(
                                v1@[j].0@,
                            ) {
                                f(v1@[j].1, map_of(v2@)[v1@[j].0@])
                            } else {
                                v1@[j].1
                            }),
                        forall|j: int|
                            0 <= j < i ==> (#[trigger] out@[j].1).wf(*b) && out@[j].1
                                != T::bot_s(),
                    decreases n - i,
                {
                    let x = v1[i].1;
                    let key = v1[i].0.clone();
                    proof {
                        lemma_map_of_index(v1@, i as int);
                        if map_of(v2@).contains_key(v1@[i as int].0@) {
                            let k = v1@[i as int].0@;
                            lemma_map_of_contains(v2@, k);
                            let j = choose|j: int| 0 <= j < v2@.len() && v2@[j].0@ == k;
                            lemma_map_of_index(v2@, j);
                        }
                    }
                    let y = match Self::get_value(v2, &v1[i].0) {
                        Some(z) => x.widen(&z, b),
                        None => x,
                    };
                    if y.is_bot() {
                        proof {
                            let k = v1@[i as int].0@;
                            let m = combine_maps(map_of(v1@), map_of(v2@), f);
                            assert(m.contains_key(k) && m[k] == T::bot_s());
                        }
                        return State::Bottom;
                    }
                    out.push((key, y));
                    i += 1;
                }
                proof {
                    lemma_entries_combine(out@, v1@, map_of(v2@), f);
                    let m = combine_maps(map_of(v1@), map_of(v2@), f);
                    assert forall|k: Seq<char>| #[trigger]
                        m.contains_key(k) implies m[k] != T::bot_s() by {
                        lemma_map_of_contains(v1@, k);
                        let j = choose|j: int| 0 <= j < v1@.len() && v1@[j].0@ == k;
                        lemma_map_of_index(v1@, j);
                        assert(out@[j].1 == m[k]);
                    }
                }
                State::Just(out)
            },
        }
    }

    /// The greatest lower bound of two states, pointwise over the first
    /// state's variables; the unreachable state absorbs.
    pub fn glb(&self, other: &State<T>, b: &Bounds) -> (r: State<T>)
        requires
            b.wf(),
            self.wf_state(*b),
            other.wf_state(*b),
        ensures
            r@ == meet_states_view(self@, other@, glb_f::<T>(*b)),
            r.wf_state(*b),
    {
        let ghost f = glb_f::<T>(*b);
        match (self, other) {
            (State::Bottom, _) => State::Bottom,
            (_, State::Bottom) => State::Bottom,
            (State::Just(v1), State::Just(v2)) => {
                let n = v1.len();
                let mut out: Vec<(String, T)> = Vec::new();
                let mut i: usize = 0;
                while i < n
                    invariant
                        b.wf(),
                        f == glb_f::<T>(*b),
                        State::Just(*v1).wf_state(*b),
                        State::Just(*v2).wf_state(*b),
                        self@ == Some(map_of(v1@)),
                        other@ == Some(map_of(v2@)),
                        n == v1@.len(),
                        0 <= i <= n,
                        out@.len() == i,
                        forall|j: int| 0 <= j < i ==> (#[trigger] out@[j].0)@ == v1@[j].0@,
                        forall|j: int|
                            0 <= j < i ==> (#[trigger] out@[j].1) == (if map_of(v2@).contains_key(
                                v1@[j].0@,
                            ) {
                                f(v1@[j].1, map_of(v2@)[v1@[j].0@])
                            } else {
                                v1@[j].1
                            }),
                        forall|j: int|
                            0 <= j < i ==> (#[trigger] out@[j].1).wf(*b) && out@[j].1
                                != T::bot_s(),
                    decreases n - i,
                {
                    let x = v1[i].1;
                    let key = v1[i].0.clone();
                    proof {
                        lemma_map_of_index(v1@, i as int);
                        if map_of(v2@).contains_key(v1@[i as int].0@) {
                            let k = v1@[i as int].0@;
                            lemma_map_of_contains(v2@, k);
                            let j = choose|j: int| 0 <= j < v2@.len() && v2@[j].0@ == k;
                            lemma_map_of_index(v2@, j);
                        }
                    }
                    let y = match Self::get_value(v2, &v1[i].0) {
                        Some(z) => x.glb(&z, b),
                        None => x,
                    };
                    if y.is_bot() {
                        proof {
                            let k = v1@[i as int].0@;
                            let m = combine_maps(map_of(v1@), map_of(v2@), f);
                            assert(m.contains_key(k) && m[k] == T::bot_s());
                        }
                        return State::Bottom;
                    }
                    out.push((key, y));
                    i += 1;
                }
                proof {
                    lemma_entries_combine(out@, v1@, map_of(v2@), f);
                    let m = combine_maps(map_of(v1@), map_of(v2@), f);
                    assert forall|k: Seq<char>| #[trigger]
                        m.contains_key(k) implies m[k] != T::bot_s() by {
                        lemma_map_of_contains(v1@, k);
                        let j = choose|j: int| 0 <= j < v1@.len() && v1@[j].0@ == k;
                        lemma_map_of_index(v1@, j);
                        assert(out@[j].1 == m[k]);
                    }
                }
                State::Just(out)
            },
        }
    }

    /// Narrowing of two states, pointwise over the first state's
    /// variables; the unreachable state absorbs.
    pub fn narrow(&self, other: &State<T>, b: &Bounds) -> (r: State<T>)
        requires
            b.wf(),
            self.wf_state(*b),
            other.wf_state(*b),
        ensures
            r@ == meet_states_view(self@, other@, narrow_f::<T>(*b)),
            r.wf_state(*b),
    {
        let ghost f = narrow_f::<T>(*b);
        match (self, other) {
            (State::Bottom, _) => State::Bottom,
            (_, State::Bottom) => State::Bottom,
            (State::Just(v1), State::Just(v2)) => {
                let n = v1.len();
                let mut out: Vec<(String, T)> = Vec::new();
                let mut i: usize = 0;
                while i < n
                    invariant
                        b.wf(),
                        f == narrow_f::<T>(*b),
                        State::Just(*v1).wf_state(*b),
                        State::Just(*v2).wf_state(*b),
                        self@ == Some(map_of(v1@)),
                        other@ == Some(map_of(v2@)),
                        n == v1@.len(),
                        0 <= i <= n,
                        out@.len() == i,
                        forall|j: int| 0 <= j < i ==> (#[trigger] out@[j].0)@ == v1@[j].0@,
                        forall|j: int|
                            0 <= j < i ==> (#[trigger] out@[j].1) == (if map_of(v2@).contains_key(
                                v1@[j].0@,
                            ) {
                                f(v1@[j].1, map_of(v2@)[v1@[j].0@])
                            } else {
                                v1@[j].1
                            }),
                        forall|j: int|
                            0 <= j < i ==> (#[trigger] out@[j].1).wf(*b) && out@[j].1
                                != T::bot_s(),
                    decreases n - i,
                {
                    let x = v1[i].1;
                    let key = v1[i].0.clone();
                    proof {
                        lemma_map_of_index(v1@, i as int);
                        if map_of(v2@).contains_key(v1@[i as int].0@) {
                            let k = v1@[i as int].0@;
                            lemma_map_of_contains(v2@, k);
                            let j = choose|j: int| 0 <= j < v2@.len() && v2@[j].0@ == k;
                            lemma_map_of_index(v2@, j);
                        }
                    }
                    let y = match Self::get_value(v2, &v1[i].0) {
                        Some(z) => x.narrow(&z, b),
                        None => x,
                    };
                    if y.is_bot() {
                        proof {
                            let k = v1@[i as int].0@;
                            let m = combine_maps(map_of(v1@), map_of(v2@), f);
                            assert(m.contains_key(k) && m[k] == T::bot_s());
                        }
                        return State::Bottom;
                    }
                    out.push((key, y));
                    i += 1;
                }
                proof {
                    lemma_entries_combine(out@, v1@, map_of(v2@), f);
                    let m = combine_maps(map_of(v1@), map_of(v2@), f);
                    assert forall|k: Seq<char>| #[trigger]
                        m.contains_key(k) implies m[k] != T::bot_s() by {
                        lemma_map_of_contains(v1@, k);
                        let j = choose|j: int| 0 <= j < v1@.len() && v1@[j].0@ == k;
                        lemma_map_of_index(v1@, j);
                        assert(out@[j].1 == m[k]);
                    }
                }
                State::Just(out)
            },
        }
    }
}

impl<T: Domain> Clone for State<T> {
    /// A copy standing for the same mapping.
    fn clone(&self) -> (r: State<T>)
        ensures
            r@ == self@,
            forall|b: Bounds| self.wf_state(b) ==> r.wf_state(b),
            self.distinct_keys() ==> r.distinct_keys(),
    {
        match self {
            State::Bottom => State::Bottom,
            State::Just(v) => {
                let n = v.len();
                let mut out: Vec<(String, T)> = Vec::new();
                let mut i: usize = 0;
                while i < n
                    invariant
                        n == v@.len(),
                        0 <= i <= n,
                        out@.len() == i,
                        forall|j: int| 0 <= j < i ==> #[trigger] out@[j] == v@[j],
                    decreases n - i,
                {
                    out.push((v[i].0.clone(), v[i].1));
                    i += 1;
                }
                proof {
                    assert(out@ =~= v@);
                }
                State::Just(out)
            },
        }
    }
}

} // verus!

