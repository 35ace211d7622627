//! The extra frequency bounds that plugins put on CPU policies.
use std::collections::HashMap;

use vstd::prelude::*;

verus! {

/// An absolute bound on a policy's frequency (kHz).
#[derive(Debug, Clone, Copy, PartialEq, Eq, Structural)]
pub struct AbsRangeBound {
    pub min: Option<isize>,
    pub max: Option<isize>,
}

/// A bound relative to another policy's frequency (kHz).
#[derive(Debug, Clone, Copy, PartialEq, Eq, Structural)]
pub struct RelRangeBound {
    pub min: Option<isize>,
    pub max: Option<isize>,
    pub rel_to: i32,
}

#[derive(Debug, Clone, Copy, PartialEq, Eq, Structural)]
pub enum ExtraPolicy {
    NoBound,
    AbsRangeBound(AbsRangeBound),
    RelRangeBound(RelRangeBound),
}


/// The extra bound of each CPU policy.
pub struct ExtraPolicyMap {
    map: HashMap<i32, ExtraPolicy>,
}

impl ExtraPolicyMap {
    /// Each policy's bound.
    pub closed spec fn policies(&self) -> Map<i32, ExtraPolicy> {
        self.map@
    }

    /// Every listed policy without an extra bound.
    pub fn new(policies: &Vec<i32>) -> (r: Self)
        ensures
            forall|k: i32| #[trigger] r.policies().dom().contains(k) <==> policies@.contains(k),
            forall|k: i32| #[trigger] r.policies().dom().contains(k) ==> r.policies()[k] == ExtraPolicy::NoBound,
    {
        broadcast use vstd::std_specs::hash::group_hash_axioms;

        let mut map: HashMap<i32, ExtraPolicy> = HashMap::new();
        let mut i: usize = 0;
        while i < policies.len()
            invariant
                i <= policies@.len(),
                forall|k: i32| #[trigger] map@.dom().contains(k) <==> policies@.take(i as int).contains(k),
                forall|k: i32| #[trigger] map@.dom().contains(k) ==> map@[k] == ExtraPolicy::NoBound,
            decreases policies@.len() - i,
        {
            let p = policies[i];
            proof {
                lemma_take_push_contains(policies@, i as int);
            }
            map.insert(p, ExtraPolicy::NoBound);
            i += 1;
        }
        assert(policies@.take(policies@.len() as int) =~= policies@);
        ExtraPolicyMap { map }
    }

    /// The extra bound of `policy`; `None` when the map has no such policy.
    pub fn get(&self, policy: i32) -> (r: Option<ExtraPolicy>)
        ensures
            match r {
                Some(p) => self.policies().dom().contains(policy) && self.policies()[policy] == p,
                None => !self.policies().dom().contains(policy),
            },
    {
        broadcast use vstd::std_specs::hash::group_hash_axioms;

        match self.map.get(&policy) {
            Some(p) => Some(*p),
            None => None,
        }
    }

    fn set(&mut self, policy: i32, p: ExtraPolicy)
        ensures
            final(self).policies() == old(self).policies().insert(policy, p),
    {
        broadcast use vstd::std_specs::hash::group_hash_axioms;

        self.map.insert(policy, p);
    }
}

/// A policy is among the first `i + 1` listed exactly when it is among the
/// first `i` or is the one at `i`.
proof fn lemma_take_push_contains(s: Seq<i32>, i: int)
    requires
        0 <= i < s.len(),
    ensures
        forall|k: i32| #[trigger] s.take(i + 1).contains(k) <==> (s.take(i).contains(k) || k == s[i]),
{
    let t0 = s.take(i);
    let t1 = s.take(i + 1);
    assert(t1 =~= t0.push(s[i]));
    assert forall|k: i32| #[trigger] s.take(i + 1).contains(k) <==> (s.take(i).contains(k) || k == s[i]) by {
        if t1.contains(k) {
            let j = choose|j: int| 0 <= j < t1.len() && t1[j] == k;
            if j < i {
                assert(t0[j] == k);
            }
        }
        if t0.contains(k) {
            let j = choose|j: int| 0 <= j < t0.len() && t0[j] == k;
            assert(t1[j] == k);
        }
        if k == s[i] {
            assert(t1[i] == k);
        }
    }
}

/// Removes the extra bound of `policy`, which must exist.
pub fn remove_extra_policy(map: &mut ExtraPolicyMap, policy: i32)
    requires
        old(map).policies().dom().contains(policy),
    ensures
        final(map).policies() == old(map).policies().insert(policy, ExtraPolicy::NoBound),
{
    map.set(policy, ExtraPolicy::NoBound);
}

/// Bounds `policy` absolutely; with neither bound given, removes its bound.
pub fn set_extra_policy_abs(map: &mut ExtraPolicyMap, policy: i32, min: Option<isize>, max: Option<isize>)
    requires
        old(map).policies().dom().contains(policy),
    ensures
        final(map).policies() == old(map).policies().insert(
            policy,
            if min is None && max is None {
                ExtraPolicy::NoBound
            } else {
                ExtraPolicy::AbsRangeBound(AbsRangeBound { min, max })
            },
        ),
{
    let extra_policy = if min.is_none() && max.is_none() {
        ExtraPolicy::NoBound
    } else {
        ExtraPolicy::AbsRangeBound(AbsRangeBound { min, max })
    };
    map.set(policy, extra_policy);
}

/// Bounds `policy` relative to `target_policy`; with neither bound given,
/// removes its bound.
pub fn set_extra_policy_rel(
    map: &mut ExtraPolicyMap,
    policy: i32,
    target_policy: i32,
    min: Option<isize>,
    max: Option<isize>,
)
    requires
        old(map).policies().dom().contains(policy),
    ensures
        final(map).policies() == old(map).policies().insert(
            policy,
            if min is None && max is None {
                ExtraPolicy::NoBound
            } else {
                ExtraPolicy::RelRangeBound(RelRangeBound { min, max, rel_to: target_policy })
            },
        ),
{
    let extra_policy = if min.is_none() && max.is_none() {
        ExtraPolicy::NoBound
    } else {
        ExtraPolicy::RelRangeBound(RelRangeBound { min, max, rel_to: target_policy })
    };
    map.set(policy, extra_policy);
}

/// The removed frequency-offset call: it does nothing but ask for one warning.
/// Returns whether the warning is to be given now; `warned` records that it was.
pub fn set_policy_freq_offset(warned: &mut bool, _policy: i32, _offset: isize) -> (r: bool)
    ensures
        r == !*old(warned),
        *final(warned),
{
    if !*warned {
        *warned = true;
        true
    } else {
        false
    }
}

/// Which CPU policies the controller leaves alone.
pub struct IgnoreMap {
    map: HashMap<i32, bool>,
}

impl IgnoreMap {
    pub closed spec fn ignored(&self) -> Map<i32, bool> {
        self.map@
    }

    /// Every listed policy not ignored.
    pub fn new(policies: &Vec<i32>) -> (r: Self)
        ensures
            forall|k: i32| #[trigger] r.ignored().dom().contains(k) <==> policies@.contains(k),
            forall|k: i32| #[trigger] r.ignored().dom().contains(k) ==> !r.ignored()[k],
    {
        broadcast use vstd::std_specs::hash::group_hash_axioms;

        let mut map: HashMap<i32, bool> = HashMap::new();
        let mut i: usize = 0;
        while i < policies.len()
            invariant
                i <= policies@.len(),
                forall|k: i32| #[trigger] map@.dom().contains(k) <==> policies@.take(i as int).contains(k),
                forall|k: i32| #[trigger] map@.dom().contains(k) ==> !map@[k],
            decreases policies@.len() - i,
        {
            let p = policies[i];
            proof {
                lemma_take_push_contains(policies@, i as int);
            }
            map.insert(p, false);
            i += 1;
        }
        assert(policies@.take(policies@.len() as int) =~= policies@);
        IgnoreMap { map }
    }

    /// Whether the controller leaves `policy` alone; `None` when the map has
    /// no such policy.
    pub fn is_ignored(&self, policy: i32) -> (r: Option<bool>)
        ensures
            match r {
                Some(b) => self.ignored().dom().contains(policy) && self.ignored()[policy] == b,
                None => !self.ignored().dom().contains(policy),
            },
    {
        broadcast use vstd::std_specs::hash::group_hash_axioms;

        match self.map.get(&policy) {
            Some(b) => Some(*b),
            None => None,
        }
    }

    /// Marks whether the controller leaves `policy`, which must exist, alone.
    pub fn set_ignore_policy(&mut self, policy: i32, val: bool)
        requires
            old(self).ignored().dom().contains(policy),
        ensures
            final(self).ignored() == old(self).ignored().insert(policy, val),
    {
        broadcast use vstd::std_specs::hash::group_hash_axioms;

        self.map.insert(policy, val);
    }
}

} // verus!
