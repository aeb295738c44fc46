//! The argument schema: one argument per global option, one sub-command per
//! command with one argument per parameter, and the about texts taken from
//! documentation.
use vstd::prelude::*;
use crate::shape::{is_optional_form, name_of, optional_form, shape_of, simple_name, TypeRef};
use crate::text::{append_chars, clean_doc, clean_doc_chars, copy_all};

verus! {

/// A parameter of a command.
pub struct Param {
    pub name: Vec<char>,
    pub ty: TypeRef,
}

/// A command: one method of the declaration.
pub struct Method {
    pub name: Vec<char>,
    /// The method's documentation fragments, in order.
    pub doc: Vec<Vec<char>>,
    pub params: Vec<Param>,
}

/// The declaration that the interface is generated from.
pub struct Declaration {
    /// The declared type, whose simple name names the application.
    pub self_ty: TypeRef,
    /// The declaration's documentation fragments, in order.
    pub doc: Vec<Vec<char>>,
    pub methods: Vec<Method>,
}

/// A global option: a named, typed value given once for every command.
pub struct GlobalOption {
    pub name: Vec<char>,
    pub ty: TypeRef,
    pub about: Vec<char>,
}

/// One argument of the schema. A positional argument has an empty `long`
/// and `short`; a flag has both, `--name` and `-n`.
pub struct ArgSpec {
    pub name: Vec<char>,
    pub long: Vec<char>,
    pub short: Vec<char>,
    pub required: bool,
    pub takes_value: bool,
    pub help: Vec<char>,
}

pub struct SubcommandSpec {
    pub name: Vec<char>,
    pub about: Vec<char>,
    pub args: Vec<ArgSpec>,
}

/// The whole schema handed to the argument parser.
pub struct AppSpec {
    pub name: Vec<char>,
    pub about: Vec<char>,
    pub args: Vec<ArgSpec>,
    pub subcommands: Vec<SubcommandSpec>,
    pub subcommand_required: bool,
}

pub ghost struct ArgModel {
    pub name: Seq<char>,
    pub long: Seq<char>,
    pub short: Seq<char>,
    pub required: bool,
    pub takes_value: bool,
    pub help: Seq<char>,
}

pub ghost struct SubcommandModel {
    pub name: Seq<char>,
    pub about: Seq<char>,
    pub args: Seq<ArgModel>,
}

pub ghost struct AppModel {
    pub name: Seq<char>,
    pub about: Seq<char>,
    pub args: Seq<ArgModel>,
    pub subcommands: Seq<SubcommandModel>,
    pub subcommand_required: bool,
}

impl View for ArgSpec {
    type V = ArgModel;

    open spec fn view(&self) -> ArgModel {
        ArgModel {
            name: self.name@,
            long: self.long@,
            short: self.short@,
            required: self.required,
            takes_value: self.takes_value,
            help: self.help@,
        }
    }
}

impl View for SubcommandSpec {
    type V = SubcommandModel;

    open spec fn view(&self) -> SubcommandModel {
        SubcommandModel {
            name: self.name@,
            about: self.about@,
            args: self.args@.map_values(|a: ArgSpec| a@),
        }
    }
}

impl View for AppSpec {
    type V = AppModel;

    open spec fn view(&self) -> AppModel {
        AppModel {
            name: self.name@,
            about: self.about@,
            args: self.args@.map_values(|a: ArgSpec| a@),
            subcommands: self.subcommands@.map_values(|s: SubcommandSpec| s@),
            subcommand_required: self.subcommand_required,
        }
    }
}

/// The about text of a declaration: its cleaned documentation fragments,
/// one after the other.
pub open spec fn docs_about(ds: Seq<Vec<char>>) -> Seq<char>
    decreases ds.len(),
{
    if ds.len() == 0 {
        Seq::empty()
    } else {
        docs_about(ds.drop_last()) + clean_doc(ds.last()@)
    }
}

/// The about text of a command: its first documentation fragment, cleaned.
pub open spec fn first_doc(ds: Seq<Vec<char>>) -> Seq<char> {
    if ds.len() == 0 {
        Seq::empty()
    } else {
        clean_doc(ds[0]@)
    }
}

/// A required global option is a required argument that takes a value; an
/// optional one is a flag `--name` / `-n` that takes a value.
pub open spec fn global_arg_model(o: GlobalOption) -> ArgModel {
    if is_optional_form(o.ty) {
        ArgModel {
            name: o.name@,
            long: seq!['-', '-'] + o.name@,
            short: seq!['-', o.name@[0]],
            required: false,
            takes_value: true,
            help: o.about@,
        }
    } else {
        ArgModel {
            name: o.name@,
            long: Seq::empty(),
            short: Seq::empty(),
            required: true,
            takes_value: true,
            help: o.about@,
        }
    }
}

/// A parameter is a positional argument, required unless its type is optional.
pub open spec fn param_arg_model(p: Param) -> ArgModel {
    ArgModel {
        name: p.name@,
        long: Seq::empty(),
        short: Seq::empty(),
        required: !is_optional_form(p.ty),
        takes_value: false,
        help: Seq::empty(),
    }
}

pub open spec fn subcommand_model(m: Method) -> SubcommandModel {
    SubcommandModel {
        name: m.name@,
        about: first_doc(m.doc@),
        args: m.params@.map_values(|p: Param| param_arg_model(p)),
    }
}

pub open spec fn app_model(d: Declaration, opts: Seq<GlobalOption>) -> AppModel {
    AppModel {
        name: simple_name(d.self_ty),
        about: docs_about(d.doc@),
        args: opts.map_values(|o: GlobalOption| global_arg_model(o)),
        subcommands: d.methods@.map_values(|m: Method| subcommand_model(m)),
        subcommand_required: true,
    }
}

/// Every global option has a non-empty name.
pub open spec fn names_given(opts: Seq<GlobalOption>) -> bool {
    forall|i: int| 0 <= i < opts.len() ==> #[trigger] opts[i].name@.len() > 0
}

/// The concatenated, cleaned documentation.
pub fn about_of(ds: &Vec<Vec<char>>) -> (r: Vec<char>)
    ensures
        r@ == docs_about(ds@),
{
    let mut r: Vec<char> = Vec::new();
    let mut i: usize = 0;
    while i < ds.len()
        invariant
            i <= ds@.len(),
            r@ == docs_about(ds@.subrange(0, i as int)),
        decreases ds@.len() - i,
    {
        assert(ds@.subrange(0, i + 1).drop_last() =~= ds@.subrange(0, i as int));
        let part = clean_doc_chars(&ds[i]);
        append_chars(&mut r, &part);
        i += 1;
    }
    assert(ds@.subrange(0, ds@.len() as int) =~= ds@);
    r
}

/// The first documentation fragment, cleaned, or nothing.
pub fn command_about(ds: &Vec<Vec<char>>) -> (r: Vec<char>)
    ensures
        r@ == first_doc(ds@),
{
    if ds.len() == 0 {
        Vec::new()
    } else {
        clean_doc_chars(&ds[0])
    }
}

/// The argument of a global option.
pub fn global_arg(o: &GlobalOption) -> (r: ArgSpec)
    requires
        o.name@.len() > 0,
    ensures
        r@ == global_arg_model(*o),
{
    if optional_form(&o.ty) {
        let mut long: Vec<char> = Vec::new();
        long.push('-');
        long.push('-');
        append_chars(&mut long, &o.name);
        let mut short: Vec<char> = Vec::new();
        short.push('-');
        short.push(o.name[0]);
        assert(short@ =~= seq!['-', o.name@[0]]);
        assert(long@ =~= seq!['-', '-'] + o.name@);
        ArgSpec {
            name: copy_all(&o.name),
            long,
            short,
            required: false,
            takes_value: true,
            help: copy_all(&o.about),
        }
    } else {
        let r = ArgSpec {
            name: copy_all(&o.name),
            long: Vec::new(),
            short: Vec::new(),
            required: true,
            takes_value: true,
            help: copy_all(&o.about),
        };
        assert(r@ =~= global_arg_model(*o));
        r
    }
}

/// The argument of a command parameter.
pub fn param_arg(p: &Param) -> (r: ArgSpec)
    ensures
        r@ == param_arg_model(*p),
{
    let r = ArgSpec {
        name: copy_all(&p.name),
        long: Vec::new(),
        short: Vec::new(),
        required: !optional_form(&p.ty),
        takes_value: false,
        help: Vec::new(),
    };
    assert(r@ =~= param_arg_model(*p));
    r
}

/// The sub-command of a command: its name, its about text and one argument
/// per parameter, in the order of declaration.
pub fn subcommand(m: &Method) -> (r: SubcommandSpec)
    ensures
        r@ == subcommand_model(*m),
{
    let mut args: Vec<ArgSpec> = Vec::new();
    let mut i: usize = 0;
    while i < m.params.len()
        invariant
            i <= m.params@.len(),
            args@.len() == i,
            forall|k: int| 0 <= k < i ==> #[trigger] args@[k]@ == param_arg_model(m.params@[k]),
        decreases m.params@.len() - i,
    {
        let a = param_arg(&m.params[i]);
        args.push(a);
        i += 1;
    }
    let r = SubcommandSpec { name: copy_all(&m.name), about: command_about(&m.doc), args };
    assert(r@.args =~= subcommand_model(*m).args);
    r
}

/// The schema of the whole interface: the application's name and about
/// text, one argument per global option and one sub-command per command,
/// in order, with a sub-command required.
pub fn build_schema(d: &Declaration, opts: &Vec<GlobalOption>) -> (r: AppSpec)
    requires
        names_given(opts@),
    ensures
        r@ == app_model(*d, opts@),
{
    let mut args: Vec<ArgSpec> = Vec::new();
    let mut i: usize = 0;
    while i < opts.len()
        invariant
            names_given(opts@),
            i <= opts@.len(),
            args@.len() == i,
            forall|k: int| 0 <= k < i ==> #[trigger] args@[k]@ == global_arg_model(opts@[k]),
        decreases opts@.len() - i,
    {
        let a = global_arg(&opts[i]);
        args.push(a);
        i += 1;
    }
    let mut subs: Vec<SubcommandSpec> = Vec::new();
    let mut j: usize = 0;
    while j < d.methods.len()
        invariant
            j <= d.methods@.len(),
            subs@.len() == j,
            forall|k: int| 0 <= k < j ==> #[trigger] subs@[k]@ == subcommand_model(d.methods@[k]),
        decreases d.methods@.len() - j,
    {
        let s = subcommand(&d.methods[j]);
        subs.push(s);
        j += 1;
    }
    let r = AppSpec {
        name: name_of(&d.self_ty),
        about: about_of(&d.doc),
        args,
        subcommands: subs,
        subcommand_required: true,
    };
    assert(r@.args =~= app_model(*d, opts@).args);
    assert(r@.subcommands =~= app_model(*d, opts@).subcommands);
    r
}

/// A sub-command has exactly one argument per parameter of its command, in
/// the order of declaration, each required exactly when the parameter's type
/// has the scalar shape.
pub proof fn lemma_subcommand_args(m: Method)
    ensures
        subcommand_model(m).args.len() == m.params@.len(),
        forall|i: int|
            0 <= i < m.params@.len() ==> {
                let a = #[trigger] subcommand_model(m).args[i];
                &&& a.name == m.params@[i].name@
                &&& a.required == (shape_of(m.params@[i].ty) is Scalar)
            },
{
}

} // verus!
