//! Run-time side of the interface: turning the matched values of a
//! sub-command or of the global options into declared values, and picking
//! the command that a sub-command name selects.
//!
//! Parsing raw text into a declared type is the declared type's own work;
//! the values here arrive already parsed, as `Matched`, and `V` is whatever
//! the caller parses into.
use vstd::prelude::*;
use crate::text::chars_equal;

verus! {

/// How one declared value is taken from its raw text.
pub struct ValuePlan {
    pub name: Vec<char>,
    /// Whether the value may be missing.
    pub optional: bool,
    /// The type text that the raw value is parsed as; `None` hands the raw
    /// text on unparsed.
    pub parse_as: Option<Vec<char>>,
}

/// A command of the dispatch table: its sub-command name and the plans of
/// its parameters, in order.
pub struct CommandPlan {
    pub name: Vec<char>,
    pub params: Vec<ValuePlan>,
}

/// What the argument parser matched for one value, once parsed.
#[derive(Debug, PartialEq, Eq)]
pub enum Matched<V> {
    /// No raw value was matched.
    Absent,
    /// A raw value was matched and parsed.
    Parsed(V),
    /// A raw value was matched and did not parse.
    Unparsable,
}

/// A declared value: of a required type, or of an optional one.
#[derive(Debug, PartialEq, Eq)]
pub enum Value<V> {
    Plain(V),
    Maybe(Option<V>),
}

/// A fatal run-time failure, with the index of the value it concerns.
#[derive(Debug, PartialEq, Eq)]
pub enum RunError {
    /// A required value had no raw match.
    Missing(usize),
    /// A raw value did not parse as its declared type.
    Unparsable(usize),
}

/// The outcome of dispatch: a call of the command at `command` with the
/// given arguments, or, for a sub-command name that no command has, nothing.
#[derive(Debug, PartialEq, Eq)]
pub enum Dispatch<V> {
    NoCommand,
    Call { command: usize, args: Vec<Value<V>> },
}

pub open spec fn matched_at<V>(ms: Seq<Matched<V>>, i: int) -> Matched<V> {
    if 0 <= i < ms.len() {
        ms[i]
    } else {
        Matched::Absent
    }
}

/// The declared value for one match; `None` where the match is fatal.
pub open spec fn convert_one<V>(optional: bool, m: Matched<V>) -> Option<Value<V>> {
    match m {
        Matched::Absent => if optional {
            Some(Value::Maybe(None))
        } else {
            None
        },
        Matched::Parsed(v) => if optional {
            Some(Value::Maybe(Some(v)))
        } else {
            Some(Value::Plain(v))
        },
        Matched::Unparsable => None,
    }
}

pub open spec fn failure_of<V>(i: int, m: Matched<V>) -> RunError {
    if m is Unparsable {
        RunError::Unparsable(i as usize)
    } else {
        RunError::Missing(i as usize)
    }
}

/// The values of the first `n` plans, or the failure of the first value
/// that cannot be had. A plan with no entry in `ms` has no raw match.
pub open spec fn converted<V>(plans: Seq<ValuePlan>, ms: Seq<Matched<V>>, n: int) -> Result<
    Seq<Value<V>>,
    RunError,
>
    decreases n,
{
    if n <= 0 {
        Ok(Seq::empty())
    } else {
        match converted(plans, ms, n - 1) {
            Err(e) => Err(e),
            Ok(vs) => match convert_one(plans[n - 1].optional, matched_at(ms, n - 1)) {
                Some(v) => Ok(vs.push(v)),
                None => Err(failure_of(n - 1, matched_at(ms, n - 1))),
            },
        }
    }
}

proof fn lemma_failure_stays<V>(plans: Seq<ValuePlan>, ms: Seq<Matched<V>>, k: int, n: int)
    requires
        0 <= k <= n,
        converted(plans, ms, k) is Err,
    ensures
        converted(plans, ms, n) == converted(plans, ms, k),
    decreases n - k,
{
    if n > k {
        lemma_failure_stays(plans, ms, k, n - 1);
    }
}

pub open spec fn convert_all<V>(plans: Seq<ValuePlan>, ms: Seq<Matched<V>>) -> Result<
    Seq<Value<V>>,
    RunError,
> {
    converted(plans, ms, plans.len() as int)
}

pub open spec fn result_view<V>(r: Result<Vec<Value<V>>, RunError>) -> Result<
    Seq<Value<V>>,
    RunError,
> {
    match r {
        Ok(v) => Ok(v@),
        Err(e) => Err(e),
    }
}

/// Converts the matched values of the plans, in order. A required value with
/// no match and a value that did not parse are fatal: the first one is
/// reported and nothing else is converted.
pub fn convert_values<V>(plans: &Vec<ValuePlan>, matched: Vec<Matched<V>>) -> (r: Result<
    Vec<Value<V>>,
    RunError,
>)
    ensures
        result_view(r) == convert_all(plans@, matched@),
{
    let ghost ms = matched@;
    let mut rest = matched;
    let mut out: Vec<Value<V>> = Vec::new();
    let mut i: usize = 0;
    while i < plans.len()
        invariant
            i <= plans@.len(),
            ms == matched@,
            rest@ == if i <= ms.len() {
                ms.subrange(i as int, ms.len() as int)
            } else {
                Seq::empty()
            },
            converted(plans@, ms, i as int) == Ok::<Seq<Value<V>>, RunError>(out@),
        decreases plans@.len() - i,
    {
        let m = if rest.len() > 0 {
            rest.remove(0)
        } else {
            Matched::Absent
        };
        assert(m == matched_at(ms, i as int));
        let optional = plans[i].optional;
        match m {
            Matched::Absent => {
                if optional {
                    out.push(Value::Maybe(None));
                } else {
                    proof {
                        assert(converted(plans@, ms, i + 1) == Err::<Seq<Value<V>>, RunError>(
                            RunError::Missing(i),
                        ));
                        lemma_failure_stays(plans@, ms, i + 1, plans@.len() as int);
                    }
                    return Err(RunError::Missing(i));
                }
            },
            Matched::Parsed(v) => {
                if optional {
                    out.push(Value::Maybe(Some(v)));
                } else {
                    out.push(Value::Plain(v));
                }
            },
            Matched::Unparsable => {
                proof {
                    assert(converted(plans@, ms, i + 1) == Err::<Seq<Value<V>>, RunError>(
                        RunError::Unparsable(i),
                    ));
                    lemma_failure_stays(plans@, ms, i + 1, plans@.len() as int);
                }
                return Err(RunError::Unparsable(i));
            },
        }
        assert(rest@ =~= if i + 1 <= ms.len() {
            ms.subrange(i + 1, ms.len() as int)
        } else {
            Seq::empty()
        });
        i += 1;
    }
    Ok(out)
}

/// The first command of the table with the given name, if any.
pub open spec fn command_named(table: Seq<CommandPlan>, name: Seq<char>, i: int) -> bool {
    &&& 0 <= i < table.len()
    &&& table[i].name@ == name
    &&& forall|j: int| 0 <= j < i ==> #[trigger] table[j].name@ != name
}

/// Looks a sub-command name up in the table.
pub fn find_command(table: &Vec<CommandPlan>, name: &Vec<char>) -> (r: Option<usize>)
    ensures
        r matches Some(i) ==> command_named(table@, name@, i as int),
        r is None ==> forall|j: int| 0 <= j < table@.len() ==> #[trigger] table@[j].name@ != name@,
{
    let mut i: usize = 0;
    while i < table.len()
        invariant
            i <= table@.len(),
            forall|j: int| 0 <= j < i ==> #[trigger] table@[j].name@ != name@,
        decreases table@.len() - i,
    {
        if chars_equal(&table[i].name, name) {
            return Some(i);
        }
        i += 1;
    }
    None
}

/// Routes a parse to its command. Where no sub-command was chosen, or the
/// chosen name is not in the table, nothing is called and nothing is
/// reported. Otherwise the matched values of that command's parameters are
/// converted, and a fatal conversion means no call.
pub fn dispatch<V>(table: &Vec<CommandPlan>, selected: Option<&Vec<char>>, matched: Vec<Matched<V>>) -> (r: Result<
    Dispatch<V>,
    RunError,
>)
    ensures
        selected is None ==> r matches Ok(Dispatch::NoCommand),
        selected matches Some(n) ==> (forall|j: int|
            0 <= j < table@.len() ==> #[trigger] table@[j].name@ != n@) ==> r matches Ok(
            Dispatch::NoCommand,
        ),
        selected matches Some(n) ==> forall|i: int|
            #![trigger table@[i]]
            command_named(table@, n@, i) ==> match convert_all(table@[i].params@, matched@) {
                Ok(vs) => r matches Ok(Dispatch::Call { command, args }) && command == i && args@
                    == vs,
                Err(e) => r == Err::<Dispatch<V>, RunError>(e),
            },
{
    match selected {
        None => Ok(Dispatch::NoCommand),
        Some(name) => match find_command(table, name) {
            None => Ok(Dispatch::NoCommand),
            Some(i) => {
                let converted = convert_values(&table[i].params, matched);
                match converted {
                    Ok(args) => Ok(Dispatch::Call { command: i, args }),
                    Err(e) => Err(e),
                }
            },
        },
    }
}

} // verus!
