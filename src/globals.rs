//! The store of global options: one slot per option, all empty when made,
//! filled once right after the top-level parse and only read afterwards.
use vstd::prelude::*;
use crate::dispatch::{convert_all, convert_values, converted, matched_at, Matched, RunError, Value, ValuePlan};
use crate::text::{chars_equal, copy_all};

verus! {

pub struct GlobalStore<V> {
    /// The option names, in the order of declaration.
    pub names: Vec<Vec<char>>,
    /// One slot per option; `None` until the store is filled.
    pub slots: Vec<Option<Value<V>>>,
}

impl<V> GlobalStore<V> {
    pub open spec fn is_empty_store(&self) -> bool {
        forall|i: int| 0 <= i < self.slots@.len() ==> #[trigger] self.slots@[i] is None
    }

    /// One name and one slot per plan, in order.
    pub open spec fn fits(&self, plans: Seq<ValuePlan>) -> bool {
        &&& self.names@.len() == plans.len()
        &&& self.slots@.len() == plans.len()
        &&& forall|i: int| 0 <= i < plans.len() ==> #[trigger] self.names@[i]@ == plans[i].name@
    }

    /// A store with one empty slot per option.
    pub fn new_empty_store(plans: &Vec<ValuePlan>) -> (r: GlobalStore<V>)
        ensures
            r.fits(plans@),
            r.is_empty_store(),
    {
        let mut names: Vec<Vec<char>> = Vec::new();
        let mut slots: Vec<Option<Value<V>>> = Vec::new();
        let mut i: usize = 0;
        while i < plans.len()
            invariant
                i <= plans@.len(),
                names@.len() == i,
                slots@.len() == i,
                forall|k: int| 0 <= k < i ==> #[trigger] names@[k]@ == plans@[k].name@,
                forall|k: int| 0 <= k < i ==> #[trigger] slots@[k] is None,
            decreases plans@.len() - i,
        {
            names.push(copy_all(&plans[i].name));
            slots.push(None);
            i += 1;
        }
        GlobalStore { names, slots }
    }

    /// Fills every slot of an empty store, in order.
    pub fn fill(&mut self, values: Vec<Value<V>>)
        requires
            old(self).is_empty_store(),
            values@.len() == old(self).slots@.len(),
        ensures
            final(self).names@ == old(self).names@,
            final(self).slots@.len() == values@.len(),
            forall|i: int| 0 <= i < values@.len() ==> #[trigger] final(self).slots@[i] == Some(values@[i]),
    {
        let ghost vs = values@;
        let mut rest = values;
        let mut slots: Vec<Option<Value<V>>> = Vec::new();
        let n = rest.len();
        let mut i: usize = 0;
        while i < n
            invariant
                n == vs.len(),
                i <= n,
                rest@ == vs.subrange(i as int, n as int),
                slots@.len() == i,
                forall|k: int| 0 <= k < i ==> #[trigger] slots@[k] == Some(vs[k]),
            decreases n - i,
        {
            let v = rest.remove(0);
            slots.push(Some(v));
            i += 1;
            assert(rest@ =~= vs.subrange(i as int, n as int));
        }
        self.slots = slots;
    }

    /// The value of the option at `i`, once filled.
    pub fn get(&self, i: usize) -> (r: Option<&Value<V>>)
        ensures
            match r {
                Some(v) => i < self.slots@.len() && self.slots@[i as int] == Some(*v),
                None => i >= self.slots@.len() || self.slots@[i as int] is None,
            },
    {
        if i < self.slots.len() {
            match &self.slots[i] {
                Some(v) => Some(v),
                None => None,
            }
        } else {
            None
        }
    }

    /// The index of the first option with the given name.
    pub fn position(&self, name: &Vec<char>) -> (r: Option<usize>)
        ensures
            match r {
                Some(i) => i < self.names@.len() && self.names@[i as int]@ == name@ && forall|j: int|
                    0 <= j < i ==> #[trigger] self.names@[j]@ != name@,
                None => forall|j: int| 0 <= j < self.names@.len() ==> #[trigger] self.names@[j]@ != name@,
            },
    {
        let mut i: usize = 0;
        while i < self.names.len()
            invariant
                i <= self.names@.len(),
                forall|j: int| 0 <= j < i ==> #[trigger] self.names@[j]@ != name@,
            decreases self.names@.len() - i,
        {
            if chars_equal(&self.names[i], name) {
                return Some(i);
            }
            i += 1;
        }
        None
    }

    /// Whether `i` is the first option named `name`.
    pub open spec fn first_named(&self, name: Seq<char>, i: int) -> bool {
        &&& 0 <= i < self.names@.len()
        &&& self.names@[i]@ == name
        &&& forall|j: int| 0 <= j < i ==> #[trigger] self.names@[j]@ != name
    }

    /// The value of the first option with the given name, once filled.
    pub fn lookup(&self, name: &Vec<char>) -> (r: Option<&Value<V>>)
        ensures
            match r {
                Some(v) => exists|i: int|
                    self.first_named(name@, i) && i < self.slots@.len() && self.slots@[i] == Some(*v),
                None => forall|i: int|
                    #![trigger self.names@[i]]
                    self.first_named(name@, i) ==> i >= self.slots@.len() || self.slots@[i] is None,
            },
    {
        match self.position(name) {
            Some(i) => {
                let r = self.get(i);
                assert(self.first_named(name@, i as int));
                r
            },
            None => None,
        }
    }
}

/// Populates a store from the matched values of the global options: a
/// required option takes its parsed value, an optional one the wrapped value
/// or the empty marker. The first required option without a match, or the
/// first value that did not parse, is fatal and nothing is stored.
pub fn populate<V>(plans: &Vec<ValuePlan>, matched: Vec<Matched<V>>) -> (r: Result<
    GlobalStore<V>,
    RunError,
>)
    ensures
        match convert_all(plans@, matched@) {
            Ok(vs) => r matches Ok(st) && st.fits(plans@) && forall|i: int|
                0 <= i < plans@.len() ==> #[trigger] st.slots@[i] == Some(vs[i]),
            Err(e) => r == Err::<GlobalStore<V>, RunError>(e),
        },
{
    let converted = convert_values(plans, matched);
    match converted {
        Ok(values) => {
            proof {
                lemma_converted_len(plans@, matched@, plans@.len() as int);
            }
            let mut store = GlobalStore::new_empty_store(plans);
            store.fill(values);
            Ok(store)
        },
        Err(e) => Err(e),
    }
}

proof fn lemma_converted_len<V>(plans: Seq<ValuePlan>, ms: Seq<Matched<V>>, n: int)
    requires
        0 <= n <= plans.len(),
    ensures
        converted(plans, ms, n) matches Ok(vs) ==> vs.len() == n,
    decreases n,
{
    if n > 0 {
        lemma_converted_len(plans, ms, n - 1);
    }
}

/// What a slot holds after population from a match that is not fatal.
pub open spec fn expected_slot<V>(optional: bool, m: Matched<V>) -> Value<V> {
    match m {
        Matched::Parsed(v) => if optional {
            Value::Maybe(Some(v))
        } else {
            Value::Plain(v)
        },
        _ => Value::Maybe(None),
    }
}

/// Every required option has a parsed value; every optional one a parsed
/// value or no match.
pub open spec fn complete_matches<V>(plans: Seq<ValuePlan>, ms: Seq<Matched<V>>) -> bool {
    &&& ms.len() == plans.len()
    &&& forall|i: int|
        0 <= i < plans.len() ==> (#[trigger] ms[i] is Parsed || (plans[i].optional && ms[i] is Absent))
}

proof fn lemma_converted_complete<V>(plans: Seq<ValuePlan>, ms: Seq<Matched<V>>, n: int)
    requires
        complete_matches(plans, ms),
        0 <= n <= plans.len(),
    ensures
        converted(plans, ms, n) matches Ok(vs) && vs.len() == n && forall|i: int|
            0 <= i < n ==> #[trigger] vs[i] == expected_slot(plans[i].optional, ms[i]),
    decreases n,
{
    if n > 0 {
        lemma_converted_complete(plans, ms, n - 1);
        let m = ms[n - 1];
        assert(matched_at(ms, n - 1) == m);
        assert(m is Parsed || (plans[n - 1].optional && m is Absent));
    }
}

/// Population from matches where every required option has a parsed value,
/// and every optional one a parsed value or none, succeeds; afterwards each
/// option reads back as its parsed value if required, as the wrapped parsed
/// value if optional and given, and as the empty marker if optional and not
/// given.
pub proof fn lemma_population_round_trip<V>(plans: Seq<ValuePlan>, ms: Seq<Matched<V>>)
    requires
        complete_matches(plans, ms),
    ensures
        convert_all(plans, ms) matches Ok(vs) && vs.len() == plans.len() && forall|i: int|
            0 <= i < plans.len() ==> {
                &&& ms[i] matches Matched::Parsed(v) ==> (!plans[i].optional ==> #[trigger] vs[i]
                    == Value::Plain(v)) && (plans[i].optional ==> vs[i] == Value::Maybe(Some(v)))
                &&& ms[i] is Absent ==> vs[i] == Value::<V>::Maybe(None)
            },
{
    lemma_converted_complete(plans, ms, plans.len() as int);
}

} // verus!
