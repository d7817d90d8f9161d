//! The function extractor: walk the top-level entries of each
//! compilation unit, take every entry tagged subprogram, read its name
//! and entry address, and decode the location of each formal-parameter
//! child.  Extraction is all-or-nothing: the first missing attribute,
//! wrongly shaped attribute, or undecodable location aborts the pass
//! with a typed error that names the function and parameter concerned.

use vstd::prelude::*;

use crate::dwarf_utils::ArgumentLocation;
use crate::dwarf_utils::LocationError;
use crate::dwarf_utils::convert_dw_at_location;
use crate::dwarf_utils::spec_decode_location;
use crate::entries::AttrKind;
use crate::entries::AttrValue;
use crate::entries::AttrValueView;
use crate::entries::AttrView;
use crate::entries::ChildEntry;
use crate::entries::ChildView;
use crate::entries::CompilationUnit;
use crate::entries::DebugEntry;
use crate::entries::DieAttr;
use crate::entries::DieTag;
use crate::entries::EntryView;
use crate::strings::StringTable;
use crate::strings::lossy_str;
use crate::strings::spec_strtab_lookup;

verus! {

/// One formal parameter of a function: its name and where it lives.
#[derive(Debug)]
pub struct Argument {
    pub name: String,
    pub location: ArgumentLocation,
}

/// One function found in the debug information: its name, its formal
/// parameters in declaration order, and the address of its first
/// instruction.
#[derive(Debug)]
pub struct Function {
    pub name: String,
    pub arguments: Vec<Argument>,
    pub start_address: u64,
}

/// Why an extraction pass failed.  `function` and `parameter` name the
/// entry being read where they are known at the point of failure.
#[derive(Debug)]
pub enum ExtractionError {
    MissingAttribute { function: Option<String>, parameter: Option<String>, attribute: AttrKind },
    UnexpectedAttributeType {
        function: Option<String>,
        parameter: Option<String>,
        attribute: AttrKind,
    },
    InvalidLocation { function: String, parameter: String },
    InvalidRegister { function: String, parameter: String, register: u64 },
}

/// What a single attribute read can fail with: the attribute is absent,
/// or its value has a shape the reader does not accept.
#[derive(Debug, Copy, Clone, PartialEq, Eq, Structural)]
pub enum AttrProblem {
    Missing,
    Unexpected,
}

/// The mathematical shape of an argument.
#[verifier::ext_equal]
pub struct ArgumentView {
    pub name: Seq<char>,
    pub location: ArgumentLocation,
}

/// The mathematical shape of a function record.
#[verifier::ext_equal]
pub struct FunctionView {
    pub name: Seq<char>,
    pub arguments: Seq<ArgumentView>,
    pub start_address: u64,
}

/// The mathematical shape of an extraction error.
#[verifier::ext_equal]
pub enum ExtractionErrorView {
    MissingAttribute {
        function: Option<Seq<char>>,
        parameter: Option<Seq<char>>,
        attribute: AttrKind,
    },
    UnexpectedAttributeType {
        function: Option<Seq<char>>,
        parameter: Option<Seq<char>>,
        attribute: AttrKind,
    },
    InvalidLocation { function: Seq<char>, parameter: Seq<char> },
    InvalidRegister { function: Seq<char>, parameter: Seq<char>, register: u64 },
}

/// The view of an optional name.
pub open spec fn opt_name_view(o: Option<String>) -> Option<Seq<char>> {
    match o {
        None => None,
        Some(s) => Some(s@),
    }
}

impl View for Argument {
    type V = ArgumentView;

    open spec fn view(&self) -> ArgumentView {
        ArgumentView { name: self.name@, location: self.location }
    }
}

impl View for Function {
    type V = FunctionView;

    open spec fn view(&self) -> FunctionView {
        FunctionView {
            name: self.name@,
            arguments: self.arguments@.map_values(|a: Argument| a@),
            start_address: self.start_address,
        }
    }
}

impl View for ExtractionError {
    type V = ExtractionErrorView;

    open spec fn view(&self) -> ExtractionErrorView {
        match self {
            ExtractionError::MissingAttribute { function, parameter, attribute } => {
                ExtractionErrorView::MissingAttribute {
                    function: opt_name_view(*function),
                    parameter: opt_name_view(*parameter),
                    attribute: *attribute,
                }
            },
            ExtractionError::UnexpectedAttributeType { function, parameter, attribute } => {
                ExtractionErrorView::UnexpectedAttributeType {
                    function: opt_name_view(*function),
                    parameter: opt_name_view(*parameter),
                    attribute: *attribute,
                }
            },
            ExtractionError::InvalidLocation { function, parameter } => {
                ExtractionErrorView::InvalidLocation { function: function@, parameter: parameter@ }
            },
            ExtractionError::InvalidRegister { function, parameter, register } => {
                ExtractionErrorView::InvalidRegister {
                    function: function@,
                    parameter: parameter@,
                    register: *register,
                }
            },
        }
    }
}

/// The views of a sequence of attributes.
pub open spec fn attrs_view(s: Seq<DieAttr>) -> Seq<AttrView> {
    s.map_values(|a: DieAttr| a@)
}

/// The views of a sequence of arguments.
pub open spec fn args_view(s: Seq<Argument>) -> Seq<ArgumentView> {
    s.map_values(|a: Argument| a@)
}

/// The views of a sequence of functions.
pub open spec fn funcs_view(s: Seq<Function>) -> Seq<FunctionView> {
    s.map_values(|f: Function| f@)
}

/// The views of a sequence of compilation units.
pub open spec fn units_view(s: Seq<CompilationUnit>) -> Seq<Seq<EntryView>> {
    s.map_values(|u: CompilationUnit| u@)
}

/// The value of the last attribute of kind `kind` in `attrs`, if any:
/// when a kind repeats, the last occurrence wins.
pub open spec fn spec_find_attr(attrs: Seq<AttrView>, kind: AttrKind) -> Option<AttrValueView>
    decreases attrs.len(),
{
    if attrs.len() == 0 {
        None
    } else if attrs.last().kind == kind {
        Some(attrs.last().value)
    } else {
        spec_find_attr(attrs.drop_last(), kind)
    }
}

/// The name an attribute list carries: a string-offset form resolved
/// against the string table, or an inline string taken verbatim.
/// Absence is `Missing`; any other value shape, and an offset that
/// resolves to no string, is `Unexpected`.
pub open spec fn spec_name_of(attrs: Seq<AttrView>, strtab: Seq<u8>) -> Result<
    Seq<char>,
    AttrProblem,
> {
    match spec_find_attr(attrs, AttrKind::Name) {
        None => Err(AttrProblem::Missing),
        Some(AttrValueView::StringOffset(off)) => match spec_strtab_lookup(strtab, off as int) {
            Some(b) => Ok(lossy_str(b)),
            None => Err(AttrProblem::Unexpected),
        },
        Some(AttrValueView::InlineString(s)) => Ok(s),
        Some(_) => Err(AttrProblem::Unexpected),
    }
}

/// The start address an attribute list carries, which must be in
/// raw-address form.
pub open spec fn spec_low_pc_of(attrs: Seq<AttrView>) -> Result<u64, AttrProblem> {
    match spec_find_attr(attrs, AttrKind::LowPc) {
        None => Err(AttrProblem::Missing),
        Some(AttrValueView::Address(a)) => Ok(a),
        Some(_) => Err(AttrProblem::Unexpected),
    }
}

/// The location-expression bytes an attribute list carries, which must
/// be in raw byte-buffer form.
pub open spec fn spec_location_bytes_of(attrs: Seq<AttrView>) -> Result<Seq<u8>, AttrProblem> {
    match spec_find_attr(attrs, AttrKind::Location) {
        None => Err(AttrProblem::Missing),
        Some(AttrValueView::ExprLoc(b)) => Ok(b),
        Some(_) => Err(AttrProblem::Unexpected),
    }
}

/// The argument a formal-parameter child yields: its name and its
/// decoded location, or the error that stops the pass, carrying the
/// owning function's name and the parameter's own name where known.
pub open spec fn spec_argument_of(child: ChildView, strtab: Seq<u8>, fname: Seq<char>) -> Result<
    ArgumentView,
    ExtractionErrorView,
> {
    match spec_name_of(child.attrs, strtab) {
        Err(AttrProblem::Missing) => Err(
            ExtractionErrorView::MissingAttribute {
                function: Some(fname),
                parameter: None,
                attribute: AttrKind::Name,
            },
        ),
        Err(AttrProblem::Unexpected) => Err(
            ExtractionErrorView::UnexpectedAttributeType {
                function: Some(fname),
                parameter: None,
                attribute: AttrKind::Name,
            },
        ),
        Ok(pname) => match spec_location_bytes_of(child.attrs) {
            Err(AttrProblem::Missing) => Err(
                ExtractionErrorView::MissingAttribute {
                    function: Some(fname),
                    parameter: Some(pname),
                    attribute: AttrKind::Location,
                },
            ),
            Err(AttrProblem::Unexpected) => Err(
                ExtractionErrorView::UnexpectedAttributeType {
                    function: Some(fname),
                    parameter: Some(pname),
                    attribute: AttrKind::Location,
                },
            ),
            Ok(bytes) => match spec_decode_location(bytes) {
                Ok(loc) => Ok(ArgumentView { name: pname, location: loc }),
                Err(LocationError::InvalidLocation) => Err(
                    ExtractionErrorView::InvalidLocation { function: fname, parameter: pname },
                ),
                Err(LocationError::InvalidRegister(n)) => Err(
                    ExtractionErrorView::InvalidRegister {
                        function: fname,
                        parameter: pname,
                        register: n,
                    },
                ),
            },
        },
    }
}

/// The arguments the children of a subprogram entry yield, in
/// declaration order; children not tagged formal-parameter are
/// skipped, and the first failing parameter aborts.
pub open spec fn spec_arguments_of(
    children: Seq<ChildView>,
    strtab: Seq<u8>,
    fname: Seq<char>,
) -> Result<Seq<ArgumentView>, ExtractionErrorView>
    decreases children.len(),
{
    if children.len() == 0 {
        Ok(Seq::empty())
    } else if children[0].tag != DieTag::FormalParameter {
        spec_arguments_of(children.skip(1), strtab, fname)
    } else {
        match spec_argument_of(children[0], strtab, fname) {
            Err(e) => Err(e),
            Ok(a) => match spec_arguments_of(children.skip(1), strtab, fname) {
                Err(e) => Err(e),
                Ok(rest) => Ok(seq![a] + rest),
            },
        }
    }
}

/// The function record a subprogram entry yields: name, start address,
/// and the arguments of its direct formal-parameter children.
pub open spec fn spec_function_of(entry: EntryView, strtab: Seq<u8>) -> Result<
    FunctionView,
    ExtractionErrorView,
> {
    match spec_name_of(entry.attrs, strtab) {
        Err(AttrProblem::Missing) => Err(
            ExtractionErrorView::MissingAttribute {
                function: None,
                parameter: None,
                attribute: AttrKind::Name,
            },
        ),
        Err(AttrProblem::Unexpected) => Err(
            ExtractionErrorView::UnexpectedAttributeType {
                function: None,
                parameter: None,
                attribute: AttrKind::Name,
            },
        ),
        Ok(fname) => match spec_low_pc_of(entry.attrs) {
            Err(AttrProblem::Missing) => Err(
                ExtractionErrorView::MissingAttribute {
                    function: Some(fname),
                    parameter: None,
                    attribute: AttrKind::LowPc,
                },
            ),
            Err(AttrProblem::Unexpected) => Err(
                ExtractionErrorView::UnexpectedAttributeType {
                    function: Some(fname),
                    parameter: None,
                    attribute: AttrKind::LowPc,
                },
            ),
            Ok(addr) => match spec_arguments_of(entry.children, strtab, fname) {
                Err(e) => Err(e),
                Ok(args) => Ok(
                    FunctionView { name: fname, arguments: args, start_address: addr },
                ),
            },
        },
    }
}

/// The functions one compilation unit yields: its top-level entries
/// tagged subprogram, in encounter order; other entries are skipped.
pub open spec fn spec_unit_functions(entries: Seq<EntryView>, strtab: Seq<u8>) -> Result<
    Seq<FunctionView>,
    ExtractionErrorView,
>
    decreases entries.len(),
{
    if entries.len() == 0 {
        Ok(Seq::empty())
    } else if entries[0].tag != DieTag::Subprogram {
        spec_unit_functions(entries.skip(1), strtab)
    } else {
        match spec_function_of(entries[0], strtab) {
            Err(e) => Err(e),
            Ok(f) => match spec_unit_functions(entries.skip(1), strtab) {
                Err(e) => Err(e),
                Ok(rest) => Ok(seq![f] + rest),
            },
        }
    }
}

/// The functions a whole pass yields: unit by unit, in order, with the
/// first error aborting the pass.
pub open spec fn spec_extract(units: Seq<Seq<EntryView>>, strtab: Seq<u8>) -> Result<
    Seq<FunctionView>,
    ExtractionErrorView,
>
    decreases units.len(),
{
    if units.len() == 0 {
        Ok(Seq::empty())
    } else {
        match spec_unit_functions(units[0], strtab) {
            Err(e) => Err(e),
            Ok(fs) => match spec_extract(units.skip(1), strtab) {
                Err(e) => Err(e),
                Ok(rest) => Ok(fs + rest),
            },
        }
    }
}

/// A sequence prefix joined onto the result of the remainder of a
/// walk: errors pass through.
pub open spec fn with_prefix<A>(
    prefix: Seq<A>,
    r: Result<Seq<A>, ExtractionErrorView>,
) -> Result<Seq<A>, ExtractionErrorView> {
    match r {
        Ok(rest) => Ok(prefix + rest),
        Err(e) => Err(e),
    }
}

/// The index of the last attribute of kind `kind`, scanning from the
/// back so that a repeated kind resolves to its last occurrence.
fn find_attr_index(attrs: &Vec<DieAttr>, kind: AttrKind) -> (r: Option<usize>)
    ensures
        match r {
            Some(i) => i < attrs@.len() && attrs@[i as int].kind == kind && spec_find_attr(
                attrs_view(attrs@),
                kind,
            ) == Some(attrs@[i as int]@.value),
            None => spec_find_attr(attrs_view(attrs@), kind) is None,
        },
{
    let ghost av = attrs_view(attrs@);
    let mut j: usize = attrs.len();
    proof {
        assert(av.take(j as int) =~= av);
    }
    while j > 0
        invariant
            j <= attrs@.len(),
            av == attrs_view(attrs@),
            spec_find_attr(av, kind) == spec_find_attr(av.take(j as int), kind),
        decreases j,
    {
        let i = j - 1;
        if attrs[i].kind == kind {
            proof {
                assert(av.take(j as int).last() == av[i as int]);
            }
            return Some(i);
        }
        proof {
            assert(av.take(j as int).drop_last() =~= av.take(i as int));
        }
        j = i;
    }
    None
}

/// Read the name an attribute list carries, resolving a string-offset
/// form against the string table and taking an inline string verbatim.
fn read_name_attr(attrs: &Vec<DieAttr>, strings: &StringTable) -> (r: Result<String, AttrProblem>)
    ensures
        match r {
            Ok(s) => spec_name_of(attrs_view(attrs@), strings@) == Ok::<Seq<char>, AttrProblem>(s@),
            Err(p) => spec_name_of(attrs_view(attrs@), strings@) == Err::<Seq<char>, AttrProblem>(
                p,
            ),
        },
{
    match find_attr_index(attrs, AttrKind::Name) {
        None => Err(AttrProblem::Missing),
        Some(i) => match &attrs[i].value {
            AttrValue::StringOffset(off) => match strings.resolve(*off) {
                Some(s) => Ok(s),
                None => Err(AttrProblem::Unexpected),
            },
            AttrValue::InlineString(s) => Ok(s.clone()),
            _ => Err(AttrProblem::Unexpected),
        },
    }
}

/// Read the start address an attribute list carries, which must be in
/// raw-address form.
fn read_low_pc_attr(attrs: &Vec<DieAttr>) -> (r: Result<u64, AttrProblem>)
    ensures
        match r {
            Ok(a) => spec_low_pc_of(attrs_view(attrs@)) == Ok::<u64, AttrProblem>(a),
            Err(p) => spec_low_pc_of(attrs_view(attrs@)) == Err::<u64, AttrProblem>(p),
        },
{
    match find_attr_index(attrs, AttrKind::LowPc) {
        None => Err(AttrProblem::Missing),
        Some(i) => match &attrs[i].value {
            AttrValue::Address(a) => Ok(*a),
            _ => Err(AttrProblem::Unexpected),
        },
    }
}

/// Read one direct child of a subprogram entry.  A child not tagged
/// formal-parameter yields nothing; a formal parameter yields its
/// argument record, or the error that aborts the pass.
pub fn process_function_child(
    entry: &ChildEntry,
    strings: &StringTable,
    function_name: &String,
) -> (r: Result<Option<Argument>, ExtractionError>)
    ensures
        match r {
            Ok(opt) => match opt {
                None => entry@.tag != DieTag::FormalParameter,
                Some(a) => entry@.tag == DieTag::FormalParameter && spec_argument_of(
                    entry@,
                    strings@,
                    function_name@,
                ) == Ok::<ArgumentView, ExtractionErrorView>(a@),
            },
            Err(e) => entry@.tag == DieTag::FormalParameter && spec_argument_of(
                entry@,
                strings@,
                function_name@,
            ) == Err::<ArgumentView, ExtractionErrorView>(e@),
        },
{
    if entry.tag != DieTag::FormalParameter {
        return Ok(None);
    }
    let arg_name = match read_name_attr(&entry.attrs, strings) {
        Ok(s) => s,
        Err(AttrProblem::Missing) => {
            return Err(
                ExtractionError::MissingAttribute {
                    function: Some(function_name.clone()),
                    parameter: None,
                    attribute: AttrKind::Name,
                },
            );
        },
        Err(AttrProblem::Unexpected) => {
            return Err(
                ExtractionError::UnexpectedAttributeType {
                    function: Some(function_name.clone()),
                    parameter: None,
                    attribute: AttrKind::Name,
                },
            );
        },
    };
    match find_attr_index(&entry.attrs, AttrKind::Location) {
        None => Err(
            ExtractionError::MissingAttribute {
                function: Some(function_name.clone()),
                parameter: Some(arg_name),
                attribute: AttrKind::Location,
            },
        ),
        Some(i) => match &entry.attrs[i].value {
            AttrValue::ExprLoc(bytes) => match convert_dw_at_location(bytes.as_slice()) {
                Ok(location) => Ok(Some(Argument { name: arg_name, location })),
                Err(LocationError::InvalidLocation) => Err(
                    ExtractionError::InvalidLocation {
                        function: function_name.clone(),
                        parameter: arg_name,
                    },
                ),
                Err(LocationError::InvalidRegister(n)) => Err(
                    ExtractionError::InvalidRegister {
                        function: function_name.clone(),
                        parameter: arg_name,
                        register: n,
                    },
                ),
            },
            _ => Err(
                ExtractionError::UnexpectedAttributeType {
                    function: Some(function_name.clone()),
                    parameter: Some(arg_name),
                    attribute: AttrKind::Location,
                },
            ),
        },
    }
}

/// Assemble the function record of one subprogram entry: its name, its
/// start address, and the arguments of its direct formal-parameter
/// children, in declaration order.
pub fn get_function_from_dwarf_entry(entry: &DebugEntry, strings: &StringTable) -> (r: Result<
    Function,
    ExtractionError,
>)
    ensures
        match r {
            Ok(f) => spec_function_of(entry@, strings@) == Ok::<
                FunctionView,
                ExtractionErrorView,
            >(f@),
            Err(e) => spec_function_of(entry@, strings@) == Err::<
                FunctionView,
                ExtractionErrorView,
            >(e@),
        },
{
    let func_name = match read_name_attr(&entry.attrs, strings) {
        Ok(s) => s,
        Err(AttrProblem::Missing) => {
            return Err(
                ExtractionError::MissingAttribute {
                    function: None,
                    parameter: None,
                    attribute: AttrKind::Name,
                },
            );
        },
        Err(AttrProblem::Unexpected) => {
            return Err(
                ExtractionError::UnexpectedAttributeType {
                    function: None,
                    parameter: None,
                    attribute: AttrKind::Name,
                },
            );
        },
    };
    let start_address = match read_low_pc_attr(&entry.attrs) {
        Ok(a) => a,
        Err(AttrProblem::Missing) => {
            return Err(
                ExtractionError::MissingAttribute {
                    function: Some(func_name),
                    parameter: None,
                    attribute: AttrKind::LowPc,
                },
            );
        },
        Err(AttrProblem::Unexpected) => {
            return Err(
                ExtractionError::UnexpectedAttributeType {
                    function: Some(func_name),
                    parameter: None,
                    attribute: AttrKind::LowPc,
                },
            );
        },
    };
    let ghost cv = entry@.children;
    let ghost fname_v = func_name@;
    let mut args: Vec<Argument> = Vec::new();
    let mut i: usize = 0;
    proof {
        assert(cv.skip(0) =~= cv);
        if spec_arguments_of(cv, strings@, fname_v) is Ok {
            assert(args_view(args@) + spec_arguments_of(cv, strings@, fname_v)->Ok_0
                =~= spec_arguments_of(cv, strings@, fname_v)->Ok_0);
        }
    }
    while i < entry.children.len()
        invariant
            i <= entry.children@.len(),
            cv == entry@.children,
            cv.len() == entry.children@.len(),
            fname_v == func_name@,
            spec_name_of(entry@.attrs, strings@) == Ok::<Seq<char>, AttrProblem>(fname_v),
            spec_low_pc_of(entry@.attrs) == Ok::<u64, AttrProblem>(start_address),
            spec_arguments_of(cv, strings@, fname_v) == with_prefix(
                args_view(args@),
                spec_arguments_of(cv.skip(i as int), strings@, fname_v),
            ),
        decreases entry.children@.len() - i,
    {
        let ghost rest = cv.skip(i as int);
        proof {
            assert(rest[0] == cv[i as int]);
            assert(rest.skip(1) =~= cv.skip(i as int + 1));
        }
        match process_function_child(&entry.children[i], strings, &func_name) {
            Ok(None) => {},
            Ok(Some(argument)) => {
                proof {
                    let a_v = argument@;
                    let old_av = args_view(args@);
                    assert(args_view(args@.push(argument)) =~= old_av + seq![a_v]);
                    if spec_arguments_of(cv.skip(i as int + 1), strings@, fname_v) is Ok {
                        let tail = spec_arguments_of(cv.skip(i as int + 1), strings@, fname_v)->Ok_0;
                        assert((old_av + seq![a_v]) + tail =~= old_av + (seq![a_v] + tail));
                    }
                }
                args.push(argument);
            },
            Err(e) => {
                return Err(e);
            },
        }
        i += 1;
    }
    proof {
        assert(cv.skip(cv.len() as int) =~= Seq::<ChildView>::empty());
        assert(args_view(args@) + Seq::<ArgumentView>::empty() =~= args_view(args@));
    }
    Ok(Function { name: func_name, arguments: args, start_address })
}

/// Collect the functions of one compilation unit: its top-level
/// entries tagged subprogram, in encounter order.
fn functions_of_unit(unit: &CompilationUnit, strings: &StringTable) -> (r: Result<
    Vec<Function>,
    ExtractionError,
>)
    ensures
        match r {
            Ok(fs) => spec_unit_functions(unit@, strings@) == Ok::<
                Seq<FunctionView>,
                ExtractionErrorView,
            >(funcs_view(fs@)),
            Err(e) => spec_unit_functions(unit@, strings@) == Err::<
                Seq<FunctionView>,
                ExtractionErrorView,
            >(e@),
        },
{
    let ghost ev = unit@;
    let mut functions: Vec<Function> = Vec::new();
    let mut i: usize = 0;
    proof {
        assert(ev.skip(0) =~= ev);
        if spec_unit_functions(ev, strings@) is Ok {
            assert(funcs_view(functions@) + spec_unit_functions(ev, strings@)->Ok_0
                =~= spec_unit_functions(ev, strings@)->Ok_0);
        }
    }
    while i < unit.entries.len()
        invariant
            i <= unit.entries@.len(),
            ev == unit@,
            ev.len() == unit.entries@.len(),
            spec_unit_functions(ev, strings@) == with_prefix(
                funcs_view(functions@),
                spec_unit_functions(ev.skip(i as int), strings@),
            ),
        decreases unit.entries@.len() - i,
    {
        let ghost rest = ev.skip(i as int);
        proof {
            assert(rest[0] == ev[i as int]);
            assert(rest.skip(1) =~= ev.skip(i as int + 1));
        }
        if unit.entries[i].tag == DieTag::Subprogram {
            match get_function_from_dwarf_entry(&unit.entries[i], strings) {
                Ok(func) => {
                    proof {
                        let f_v = func@;
                        let old_fv = funcs_view(functions@);
                        assert(funcs_view(functions@.push(func)) =~= old_fv + seq![f_v]);
                        if spec_unit_functions(ev.skip(i as int + 1), strings@) is Ok {
                            let tail = spec_unit_functions(ev.skip(i as int + 1), strings@)->Ok_0;
                            assert((old_fv + seq![f_v]) + tail =~= old_fv + (seq![f_v] + tail));
                        }
                    }
                    functions.push(func);
                },
                Err(e) => {
                    return Err(e);
                },
            }
        }
        i += 1;
    }
    proof {
        assert(ev.skip(ev.len() as int) =~= Seq::<EntryView>::empty());
        assert(funcs_view(functions@) + Seq::<FunctionView>::empty() =~= funcs_view(functions@));
    }
    Ok(functions)
}

/// Run the whole extraction pass: every compilation unit in order,
/// every top-level subprogram entry within it, all-or-nothing.
pub fn extract_functions(units: &Vec<CompilationUnit>, strings: &StringTable) -> (r: Result<
    Vec<Function>,
    ExtractionError,
>)
    ensures
        match r {
            Ok(fs) => spec_extract(units_view(units@), strings@) == Ok::<
                Seq<FunctionView>,
                ExtractionErrorView,
            >(funcs_view(fs@)),
            Err(e) => spec_extract(units_view(units@), strings@) == Err::<
                Seq<FunctionView>,
                ExtractionErrorView,
            >(e@),
        },
{
    let ghost uv = units_view(units@);
    let mut functions: Vec<Function> = Vec::new();
    let mut i: usize = 0;
    proof {
        assert(uv.skip(0) =~= uv);
        if spec_extract(uv, strings@) is Ok {
            assert(funcs_view(functions@) + spec_extract(uv, strings@)->Ok_0 =~= spec_extract(
                uv,
                strings@,
            )->Ok_0);
        }
    }
    while i < units.len()
        invariant
            i <= units@.len(),
            uv == units_view(units@),
            uv.len() == units@.len(),
            spec_extract(uv, strings@) == with_prefix(
                funcs_view(functions@),
                spec_extract(uv.skip(i as int), strings@),
            ),
        decreases units@.len() - i,
    {
        let ghost rest = uv.skip(i as int);
        proof {
            assert(rest[0] == uv[i as int]);
            assert(rest.skip(1) =~= uv.skip(i as int + 1));
        }
        match functions_of_unit(&units[i], strings) {
            Ok(mut unit_functions) => {
                proof {
                    let got = funcs_view(unit_functions@);
                    let old_fv = funcs_view(functions@);
                    assert(funcs_view(functions@ + unit_functions@) =~= old_fv + got);
                    if spec_extract(uv.skip(i as int + 1), strings@) is Ok {
                        let tail = spec_extract(uv.skip(i as int + 1), strings@)->Ok_0;
                        assert((old_fv + got) + tail =~= old_fv + (got + tail));
                    }
                }
                functions.append(&mut unit_functions);
            },
            Err(e) => {
                return Err(e);
            },
        }
        i += 1;
    }
    proof {
        assert(uv.skip(uv.len() as int) =~= Seq::<Seq<EntryView>>::empty());
        assert(funcs_view(functions@) + Seq::<FunctionView>::empty() =~= funcs_view(functions@));
    }
    Ok(functions)
}

/// Extraction is deterministic: over the same entries and string
/// table, any two results that satisfy the extractor's contract are
/// equal, in content and in order.
pub proof fn lemma_extraction_deterministic(
    units: Seq<Seq<EntryView>>,
    strtab: Seq<u8>,
    r1: Result<Seq<FunctionView>, ExtractionErrorView>,
    r2: Result<Seq<FunctionView>, ExtractionErrorView>,
)
    requires
        r1 == spec_extract(units, strtab),
        r2 == spec_extract(units, strtab),
    ensures
        r1 == r2,
{
}

} // verus!
