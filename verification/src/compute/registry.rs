//! The bookkeeping of the registry of calculated items: which names are
//! registered as realtime items and which as batch items, and the rules a
//! new registration must follow. The items themselves, which compute on
//! frames, are kept beside it by name.

use vstd::prelude::*;
use vstd::string::*;
use crate::compute::ComputeError;
use crate::text::str_equal;
use crate::text_order::{lemma_text_lt_total, lemma_text_lt_transitive, str_less, text_lt};

verus! {

/// Names of the registered calculated items, in registration order.
pub struct ComputeRegistry {
    realtime_names: Vec<String>,
    batch_names: Vec<String>,
}

/// The views of a list of names.
pub open spec fn name_texts(v: Seq<String>) -> Seq<Seq<char>> {
    v.map_values(|s: String| s@)
}

/// Where `name` first stands among the first `k` names.
pub open spec fn name_position(names: Seq<Seq<char>>, name: Seq<char>, k: int) -> Option<int>
    decreases k,
{
    if k <= 0 {
        None
    } else {
        match name_position(names, name, k - 1) {
            Some(j) => Some(j),
            None => if names[k - 1] == name { Some(k - 1) } else { None },
        }
    }
}

/// Why `name` cannot be registered beside the given realtime and batch
/// items, if it cannot: it is empty, or already taken by either kind.
pub open spec fn registration_error(realtime: Seq<Seq<char>>, batch: Seq<Seq<char>>, name: Seq<char>) -> Option<Seq<char>> {
    if name.len() == 0 {
        Some("计算项名称不能为空"@)
    } else if realtime.contains(name) || batch.contains(name) {
        Some("计算项 '"@ + name + "' 已注册"@)
    } else {
        None
    }
}

/// Once found, a name position stays the one found.
proof fn lemma_name_position_stays(names: Seq<Seq<char>>, name: Seq<char>, j: int, k: int)
    requires
        0 <= j <= k,
        name_position(names, name, j) is Some,
    ensures
        name_position(names, name, k) == name_position(names, name, j),
    decreases k - j,
{
    if j < k {
        lemma_name_position_stays(names, name, j, k - 1);
    }
}

/// A name has a position exactly when it is among the names, and the
/// position holds it.
proof fn lemma_name_position_contains(names: Seq<Seq<char>>, name: Seq<char>, k: int)
    requires
        0 <= k <= names.len(),
    ensures
        name_position(names, name, k) is Some <==> exists|j: int| 0 <= j < k && names[j] == name,
        name_position(names, name, k) matches Some(j) ==> 0 <= j < k && names[j] == name,
    decreases k,
{
    if k > 0 {
        lemma_name_position_contains(names, name, k - 1);
    }
}

fn position_of(names: &Vec<String>, name: &str) -> (r: Option<usize>)
    ensures
        r matches Some(j) ==> j < names@.len() && name_position(name_texts(names@), name@, names@.len() as int) == Some(j as int),
        r is None ==> name_position(name_texts(names@), name@, names@.len() as int) is None,
        r is None <==> !name_texts(names@).contains(name@),
{
    let ghost t = name_texts(names@);
    assert(t.len() == names@.len());
    let mut k: usize = 0;
    while k < names.len()
        invariant
            k <= names@.len(),
            t == name_texts(names@),
            t.len() == names@.len(),
            name_position(t, name@, k as int) is None,
        decreases names@.len() - k,
    {
        assert(t[k as int] == names@[k as int]@);
        if str_equal(names[k].as_str(), name) {
            proof {
                lemma_name_position_stays(t, name@, k as int + 1, t.len() as int);
                assert(t.contains(name@)) by { assert(t[k as int] == name@); }
            }
            return Some(k);
        }
        k = k + 1;
    }
    proof {
        lemma_name_position_contains(t, name@, t.len() as int);
    }
    None
}

/// The texts of a list of string slices.
pub open spec fn str_texts(v: Seq<&str>) -> Seq<Seq<char>> {
    v.map_values(|s: &str| s@)
}

/// Whether texts stand in strictly increasing order, so each at most once.
pub open spec fn strictly_sorted(names: Seq<Seq<char>>) -> bool {
    forall|i: int, j: int| 0 <= i < j < names.len() ==> text_lt(names[i], names[j])
}

/// Put `x` into its place among sorted names, unless it is there already.
fn insert_name<'a>(out: &mut Vec<&'a str>, x: &'a str)
    requires
        strictly_sorted(str_texts(old(out)@)),
    ensures
        strictly_sorted(str_texts(final(out)@)),
        forall|t: Seq<char>| str_texts(final(out)@).contains(t) <==> (str_texts(old(out)@).contains(t) || t == x@),
{
    let ghost s = str_texts(out@);
    let mut p: usize = 0;
    while p < out.len() && str_less(out[p], x)
        invariant
            p <= out@.len(),
            s == str_texts(out@),
            s.len() == out@.len(),
            forall|k: int| 0 <= k < p ==> text_lt(#[trigger] s[k], x@),
        decreases out@.len() - p,
    {
        p = p + 1;
    }
    if p < out.len() && !str_less(x, out[p]) {
        proof {
            lemma_text_lt_total(s[p as int], x@);
            assert(s[p as int] == x@);
            assert forall|t: Seq<char>| s.contains(t) <==> (s.contains(t) || t == x@) by {
                if t == x@ {
                    assert(s[p as int] == t);
                }
            }
        }
        return;
    }
    out.insert(p, x);
    proof {
        let s2 = str_texts(out@);
        assert(s2 =~= s.insert(p as int, x@));
        if p < s.len() {
            assert(text_lt(x@, s[p as int]));
        }
        assert forall|i: int, j: int| 0 <= i < j < s2.len() implies text_lt(s2[i], s2[j]) by {
            if j < p {
            } else if j == p {
            } else if i < p {
                assert(text_lt(s[i], x@));
                assert(text_lt(x@, s[p as int]));
                lemma_text_lt_transitive(s[i], x@, s[p as int]);
                if j - 1 > p {
                    lemma_text_lt_transitive(s[i], s[p as int], s[j - 1]);
                }
            } else if i == p {
                if j - 1 > p {
                    lemma_text_lt_transitive(x@, s[p as int], s[j - 1]);
                }
            } else {
                assert(s2[i] == s[i - 1] && s2[j] == s[j - 1]);
            }
        }
        assert forall|t: Seq<char>| s2.contains(t) <==> (s.contains(t) || t == x@) by {
            if s2.contains(t) {
                let k = choose|k: int| 0 <= k < s2.len() && s2[k] == t;
                if k < p {
                    assert(s[k] == t);
                } else if k > p {
                    assert(s[k - 1] == t);
                }
            }
            if s.contains(t) {
                let k = choose|k: int| 0 <= k < s.len() && s[k] == t;
                if k < p {
                    assert(s2[k] == t);
                } else {
                    assert(s2[k + 1] == t);
                }
            }
            if t == x@ {
                assert(s2[p as int] == t);
            }
        }
    }
}

/// A text is among the first `k + 1` names exactly when it is among the
/// first `k` or is name `k`.
proof fn lemma_prefix_contains(v: Seq<Seq<char>>, k: int)
    requires
        0 <= k < v.len(),
    ensures
        forall|t: Seq<char>| v.subrange(0, k + 1).contains(t) <==> (v.subrange(0, k).contains(t) || t == v[k]),
{
    let p1 = v.subrange(0, k);
    let p2 = v.subrange(0, k + 1);
    assert forall|t: Seq<char>| p2.contains(t) <==> (p1.contains(t) || t == v[k]) by {
        if p2.contains(t) {
            let j = choose|j: int| 0 <= j < p2.len() && p2[j] == t;
            if j < k {
                assert(p1[j] == t);
            }
        }
        if p1.contains(t) {
            let j = choose|j: int| 0 <= j < p1.len() && p1[j] == t;
            assert(p2[j] == t);
        }
        if t == v[k] {
            assert(p2[k] == t);
        }
    }
}

impl ComputeRegistry {
    /// The names of the realtime items, in registration order.
    pub closed spec fn realtime(&self) -> Seq<Seq<char>> {
        name_texts(self.realtime_names@)
    }

    /// The names of the batch items, in registration order.
    pub closed spec fn batch(&self) -> Seq<Seq<char>> {
        name_texts(self.batch_names@)
    }

    /// An empty registry.
    pub fn new() -> (r: Self)
        ensures
            r.realtime() == Seq::<Seq<char>>::empty(),
            r.batch() == Seq::<Seq<char>>::empty(),
    {
        let r = ComputeRegistry { realtime_names: Vec::new(), batch_names: Vec::new() };
        assert(r.realtime() =~= Seq::<Seq<char>>::empty());
        assert(r.batch() =~= Seq::<Seq<char>>::empty());
        r
    }

    fn check_name(&self, name: &str) -> (r: Result<(), ComputeError>)
        ensures
            match registration_error(self.realtime(), self.batch(), name@) {
                Some(m) => r matches Err(ComputeError::InvalidRegistration(s)) && s@ == m,
                None => r is Ok,
            },
    {
        if name.unicode_len() == 0 {
            return Err(ComputeError::InvalidRegistration(String::from_str("计算项名称不能为空")));
        }
        if position_of(&self.realtime_names, name).is_some() || position_of(&self.batch_names, name).is_some() {
            let mut m = String::from_str("计算项 '");
            m.append(name);
            m.append("' 已注册");
            return Err(ComputeError::InvalidRegistration(m));
        }
        Ok(())
    }

    /// Register a realtime item under `name`; an empty or taken name is
    /// refused and nothing changes.
    pub fn register_calc_realtime(&mut self, name: &str) -> (r: Result<(), ComputeError>)
        ensures
            match registration_error(old(self).realtime(), old(self).batch(), name@) {
                Some(m) => r matches Err(ComputeError::InvalidRegistration(s)) && s@ == m
                    && final(self).realtime() == old(self).realtime() && final(self).batch() == old(self).batch(),
                None => r is Ok && final(self).realtime() == old(self).realtime().push(name@)
                    && final(self).batch() == old(self).batch(),
            },
    {
        self.check_name(name)?;
        let ghost before = self.realtime_names@;
        self.realtime_names.push(String::from_str(name));
        assert(name_texts(self.realtime_names@) =~= name_texts(before).push(name@));
        Ok(())
    }

    /// Register a batch item under `name`, by the same rules.
    pub fn register_calc_batch(&mut self, name: &str) -> (r: Result<(), ComputeError>)
        ensures
            match registration_error(old(self).realtime(), old(self).batch(), name@) {
                Some(m) => r matches Err(ComputeError::InvalidRegistration(s)) && s@ == m
                    && final(self).realtime() == old(self).realtime() && final(self).batch() == old(self).batch(),
                None => r is Ok && final(self).batch() == old(self).batch().push(name@)
                    && final(self).realtime() == old(self).realtime(),
            },
    {
        self.check_name(name)?;
        let ghost before = self.batch_names@;
        self.batch_names.push(String::from_str(name));
        assert(name_texts(self.batch_names@) =~= name_texts(before).push(name@));
        Ok(())
    }

    /// Remove the item named `name`: from the realtime items when it is
    /// one, else from the batch items. Whether one was removed.
    pub fn unregister(&mut self, name: &str) -> (r: bool)
        ensures
            match name_position(old(self).realtime(), name@, old(self).realtime().len() as int) {
                Some(j) => r && final(self).realtime() == old(self).realtime().remove(j)
                    && final(self).batch() == old(self).batch(),
                None => match name_position(old(self).batch(), name@, old(self).batch().len() as int) {
                    Some(j) => r && final(self).batch() == old(self).batch().remove(j)
                        && final(self).realtime() == old(self).realtime(),
                    None => !r && final(self).realtime() == old(self).realtime() && final(self).batch() == old(self).batch(),
                },
            },
    {
        proof {
            assert(name_texts(self.realtime_names@).len() == self.realtime_names@.len());
            assert(name_texts(self.batch_names@).len() == self.batch_names@.len());
        }
        match position_of(&self.realtime_names, name) {
            Some(j) => {
                let ghost before = self.realtime_names@;
                self.realtime_names.remove(j);
                assert(name_texts(self.realtime_names@) =~= name_texts(before).remove(j as int));
                true
            },
            None => match position_of(&self.batch_names, name) {
                Some(j) => {
                    let ghost before = self.batch_names@;
                    self.batch_names.remove(j);
                    assert(name_texts(self.batch_names@) =~= name_texts(before).remove(j as int));
                    true
                },
                None => false,
            },
        }
    }

    /// Whether an item of either kind is registered under `name`.
    pub fn is_registered(&self, name: &str) -> (r: bool)
        ensures
            r == (self.realtime().contains(name@) || self.batch().contains(name@)),
    {
        position_of(&self.realtime_names, name).is_some() || position_of(&self.batch_names, name).is_some()
    }

    /// The names of all registered items of either kind, each once, in the
    /// order of `str`.
    pub fn registered_item_names(&self) -> (r: Vec<&str>)
        ensures
            strictly_sorted(str_texts(r@)),
            forall|t: Seq<char>| str_texts(r@).contains(t) <==> (self.realtime().contains(t) || self.batch().contains(t)),
    {
        let mut out: Vec<&str> = Vec::new();
        let ghost rt = self.realtime();
        let ghost bt = self.batch();
        assert(rt.len() == self.realtime_names@.len());
        assert(bt.len() == self.batch_names@.len());
        let mut k: usize = 0;
        while k < self.realtime_names.len()
            invariant
                k <= self.realtime_names@.len(),
                rt == self.realtime(),
                rt.len() == self.realtime_names@.len(),
                strictly_sorted(str_texts(out@)),
                forall|t: Seq<char>| str_texts(out@).contains(t) <==> rt.subrange(0, k as int).contains(t),
            decreases self.realtime_names@.len() - k,
        {
            insert_name(&mut out, self.realtime_names[k].as_str());
            proof {
                assert(rt[k as int] == self.realtime_names@[k as int]@);
                lemma_prefix_contains(rt, k as int);
            }
            k = k + 1;
        }
        assert(rt.subrange(0, k as int) =~= rt);
        let mut k: usize = 0;
        while k < self.batch_names.len()
            invariant
                k <= self.batch_names@.len(),
                rt == self.realtime(),
                bt == self.batch(),
                bt.len() == self.batch_names@.len(),
                strictly_sorted(str_texts(out@)),
                forall|t: Seq<char>| #[trigger] str_texts(out@).contains(t) <==> (rt.contains(t) || bt.subrange(0, k as int).contains(t)),
            decreases self.batch_names@.len() - k,
        {
            let ghost before = str_texts(out@);
            insert_name(&mut out, self.batch_names[k].as_str());
            proof {
                assert(bt[k as int] == self.batch_names@[k as int]@);
                lemma_prefix_contains(bt, k as int);
                assert forall|t: Seq<char>| str_texts(out@).contains(t) <==> (rt.contains(t) || bt.subrange(0, k + 1).contains(t)) by {
                    assert(str_texts(out@).contains(t) <==> (before.contains(t) || t == bt[k as int]));
                    assert(before.contains(t) <==> (rt.contains(t) || bt.subrange(0, k as int).contains(t)));
                }
            }
            k = k + 1;
        }
        assert(bt.subrange(0, k as int) =~= bt);
        out
    }

    /// How many realtime items are registered.
    pub fn calc_realtime_count(&self) -> (n: usize)
        ensures
            n == self.realtime().len(),
    {
        self.realtime_names.len()
    }

    /// How many batch items are registered.
    pub fn calc_batch_count(&self) -> (n: usize)
        ensures
            n == self.batch().len(),
    {
        self.batch_names.len()
    }
}

} // verus!
