//! One generation pass: from the declaration and its global options to the
//! schema, the dispatch table and the plans of the global store.
use vstd::prelude::*;
use crate::dispatch::{CommandPlan, ValuePlan};
use crate::schema::{
    app_model, build_schema, names_given, AppSpec, Declaration, GlobalOption, Method,
    Param,
};
use crate::shape::{
    inner_of, is_optional_form, name_of, opt_view, optional_form, parse_as, parse_text, simple_name,
    TypeRef,
};
use crate::text::copy_all;

verus! {

/// A fatal error of generation, with the index of the global option at fault.
#[derive(Debug, PartialEq, Eq)]
pub enum GenError {
    /// The option's name is empty.
    EmptyOptionName(usize),
    /// The option is optional, but its inner type is not a path that a value
    /// can be parsed as.
    UnsupportedOptionType(usize),
}

/// Everything one pass produces.
pub struct Generated {
    pub schema: AppSpec,
    /// One entry per command: sub-command name and parameter plans.
    pub commands: Vec<CommandPlan>,
    /// One plan per global option, in order.
    pub globals: Vec<ValuePlan>,
}

pub ghost struct PlanModel {
    pub name: Seq<char>,
    pub optional: bool,
    pub parse_as: Option<Seq<char>>,
}

pub open spec fn plan_view(p: ValuePlan) -> PlanModel {
    PlanModel { name: p.name@, optional: p.optional, parse_as: opt_view(p.parse_as) }
}

/// A parameter is parsed as its type, or as the inner type if optional; a
/// type that is not a path is handed on raw.
pub open spec fn param_plan_model(p: Param) -> PlanModel {
    if is_optional_form(p.ty) {
        PlanModel { name: p.name@, optional: true, parse_as: parse_as(inner_of(p.ty)) }
    } else {
        PlanModel { name: p.name@, optional: false, parse_as: parse_as(p.ty) }
    }
}

/// A global option is always parsed: as its type, or as the inner type if
/// optional.
pub open spec fn global_plan_model(o: GlobalOption) -> PlanModel {
    if is_optional_form(o.ty) {
        PlanModel { name: o.name@, optional: true, parse_as: Some(inner_of(o.ty).text@) }
    } else {
        PlanModel { name: o.name@, optional: false, parse_as: Some(o.ty.text@) }
    }
}

/// Whether generation can take the global option: it has a name, and an
/// optional one has an inner path type.
pub open spec fn option_usable(o: GlobalOption) -> bool {
    &&& o.name@.len() > 0
    &&& is_optional_form(o.ty) ==> inner_of(o.ty).head is Some
}

pub open spec fn option_error(i: int, o: GlobalOption) -> GenError {
    if o.name@.len() == 0 {
        GenError::EmptyOptionName(i as usize)
    } else {
        GenError::UnsupportedOptionType(i as usize)
    }
}

/// The index of the first option that generation cannot take.
pub open spec fn first_unusable(opts: Seq<GlobalOption>, i: int) -> bool {
    &&& 0 <= i < opts.len()
    &&& !option_usable(opts[i])
    &&& forall|j: int| 0 <= j < i ==> option_usable(#[trigger] opts[j])
}

pub open spec fn command_matches(c: CommandPlan, m: Method) -> bool {
    &&& c.name@ == m.name@
    &&& c.params@.len() == m.params@.len()
    &&& forall|k: int|
        0 <= k < m.params@.len() ==> plan_view(#[trigger] c.params@[k]) == param_plan_model(
            m.params@[k],
        )
}

/// The global option of an entry of the option text, once its name and its
/// type have been read as types: it is named by the simple name of the
/// first.
pub fn global_option(name: &TypeRef, ty: TypeRef, about: Vec<char>) -> (r: GlobalOption)
    ensures
        r.name@ == simple_name(*name),
        r.ty == ty,
        r.about@ == about@,
{
    GlobalOption { name: name_of(name), ty, about }
}

/// The plan of a command parameter.
pub fn param_plan(p: &Param) -> (r: ValuePlan)
    ensures
        plan_view(r) == param_plan_model(*p),
{
    if optional_form(&p.ty) {
        match &p.ty.first_arg {
            Some(inner) => ValuePlan {
                name: copy_all(&p.name),
                optional: true,
                parse_as: parse_text(inner),
            },
            None => ValuePlan { name: copy_all(&p.name), optional: true, parse_as: None },
        }
    } else {
        ValuePlan { name: copy_all(&p.name), optional: false, parse_as: parse_text(&p.ty) }
    }
}

/// The dispatch entry of a command.
pub fn command_plan(m: &Method) -> (r: CommandPlan)
    ensures
        command_matches(r, *m),
{
    let mut params: Vec<ValuePlan> = Vec::new();
    let mut i: usize = 0;
    while i < m.params.len()
        invariant
            i <= m.params@.len(),
            params@.len() == i,
            forall|k: int| 0 <= k < i ==> plan_view(#[trigger] params@[k]) == param_plan_model(m.params@[k]),
        decreases m.params@.len() - i,
    {
        params.push(param_plan(&m.params[i]));
        i += 1;
    }
    CommandPlan { name: copy_all(&m.name), params }
}

/// The plan of a global option, or `None` where generation cannot take it.
pub fn global_plan(o: &GlobalOption) -> (r: Option<ValuePlan>)
    ensures
        r is Some <==> option_usable(*o),
        r matches Some(p) ==> plan_view(p) == global_plan_model(*o),
{
    if o.name.len() == 0 {
        return None;
    }
    if optional_form(&o.ty) {
        match &o.ty.first_arg {
            Some(inner) => match &inner.head {
                Some(_) => Some(
                    ValuePlan {
                        name: copy_all(&o.name),
                        optional: true,
                        parse_as: Some(copy_all(&inner.text)),
                    },
                ),
                None => None,
            },
            None => None,
        }
    } else {
        Some(
            ValuePlan { name: copy_all(&o.name), optional: false, parse_as: Some(copy_all(&o.ty.text)) },
        )
    }
}

/// One generation pass. It fails on the first global option without a name
/// or optional without an inner path type; otherwise it gives the schema of
/// the declaration, one dispatch entry per command and one plan per global
/// option, each in the order of declaration.
pub fn generate(d: &Declaration, opts: &Vec<GlobalOption>) -> (r: Result<Generated, GenError>)
    ensures
        r is Ok <==> forall|i: int| 0 <= i < opts@.len() ==> option_usable(#[trigger] opts@[i]),
        r matches Err(e) ==> exists|i: int| first_unusable(opts@, i) && e == option_error(i, opts@[i]),
        r matches Ok(g) ==> {
            &&& g.schema@ == app_model(*d, opts@)
            &&& g.commands@.len() == d.methods@.len()
            &&& forall|k: int| 0 <= k < d.methods@.len() ==> command_matches(#[trigger] g.commands@[k], d.methods@[k])
            &&& g.globals@.len() == opts@.len()
            &&& forall|k: int| 0 <= k < opts@.len() ==> plan_view(#[trigger] g.globals@[k]) == global_plan_model(opts@[k])
        },
{
    let mut globals: Vec<ValuePlan> = Vec::new();
    let mut i: usize = 0;
    while i < opts.len()
        invariant
            i <= opts@.len(),
            globals@.len() == i,
            forall|k: int| 0 <= k < i ==> option_usable(#[trigger] opts@[k]),
            forall|k: int| 0 <= k < i ==> plan_view(#[trigger] globals@[k]) == global_plan_model(opts@[k]),
        decreases opts@.len() - i,
    {
        match global_plan(&opts[i]) {
            Some(p) => globals.push(p),
            None => {
                let e = if opts[i].name.len() == 0 {
                    GenError::EmptyOptionName(i)
                } else {
                    GenError::UnsupportedOptionType(i)
                };
                assert(first_unusable(opts@, i as int));
                return Err(e);
            },
        }
        i += 1;
    }
    assert(names_given(opts@)) by {
        assert forall|k: int| 0 <= k < opts@.len() implies #[trigger] opts@[k].name@.len() > 0 by {
            assert(option_usable(opts@[k]));
        }
    }
    let mut commands: Vec<CommandPlan> = Vec::new();
    let mut j: usize = 0;
    while j < d.methods.len()
        invariant
            j <= d.methods@.len(),
            commands@.len() == j,
            forall|k: int| 0 <= k < j ==> command_matches(#[trigger] commands@[k], d.methods@[k]),
        decreases d.methods@.len() - j,
    {
        commands.push(command_plan(&d.methods[j]));
        j += 1;
    }
    let schema = build_schema(d, opts);
    Ok(Generated { schema, commands, globals })
}

} // verus!
