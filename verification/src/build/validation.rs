//! Checking a program before it runs. A form passes when every symbol that it
//! uses is declared where it is used. Scopes, functions and macros open a
//! scope of their own; an assignment declares its symbol before its value is
//! checked, so that a function may use its own name. The check of one form
//! stops at its first error; the check of a program goes through every form
//! and gathers the errors of all of them.

use vstd::prelude::*;
use crate::build::error::{
    redeclared_symbol,
    undeclared_mutable_symbol,
    undeclared_symbol,
    BuildErrorStack,
    BuildErrorView,
    BuildResult,
};
use crate::build::form::assignment::Assignment;
use crate::build::form::{Expr, Form};
use crate::build::symbol::{is_mutable_name, Symbol};
use crate::build::table::{
    can_declare,
    declare,
    is_declared,
    nothing_declared,
    TrackScopeView,
    TrackTable,
};

verus! {

/// What checking a form comes to: the scopes afterwards, and the first error
/// if there was one.
pub struct Validation {
    pub scopes: Seq<TrackScopeView>,
    pub error: Option<BuildErrorView>,
}

pub open spec fn passed(scopes: Seq<TrackScopeView>) -> Validation {
    Validation { scopes, error: None }
}

pub open spec fn failed(scopes: Seq<TrackScopeView>, error: BuildErrorView) -> Validation {
    Validation { scopes, error: Some(error) }
}

/// The outcome of a check that ran in a scope of its own, after that scope was closed.
pub open spec fn leaving(inner: Validation) -> Validation {
    Validation { scopes: inner.scopes.drop_last(), error: inner.error }
}

/// The scopes after the first `upto` parameters were declared in the innermost one.
pub open spec fn declare_params(
    scopes: Seq<TrackScopeView>,
    params: Seq<Symbol>,
    upto: int,
) -> Seq<TrackScopeView>
    decreases upto,
{
    if 0 < upto <= params.len() {
        declare(declare_params(scopes, params, upto - 1), params[upto - 1]@)
    } else {
        scopes
    }
}

/// The error for a use of a symbol that is not declared.
pub open spec fn undeclared(name: Seq<char>) -> BuildErrorView {
    if is_mutable_name(name) {
        undeclared_mutable_symbol(name)
    } else {
        undeclared_symbol(name)
    }
}

/// What checking `form` comes to, from the given scopes.
pub open spec fn validated(scopes: Seq<TrackScopeView>, form: Form) -> Validation
    decreases form, 0int, 0int,
{
    match form.expr {
        Expr::Symbol(symbol) => if is_declared(scopes, symbol@) {
            passed(scopes)
        } else {
            failed(scopes, undeclared(symbol@))
        },
        Expr::AssignmentList(list, _) => assigned_from(scopes, list@, 0),
        Expr::Scope(forms) => leaving(validated_from(scopes.push(nothing_declared()), forms@, 0)),
        Expr::Function(definition) => leaving(
            validated(
                declare_params(
                    scopes.push(nothing_declared()),
                    definition.params@,
                    definition.params@.len() as int,
                ),
                *definition.body,
            ),
        ),
        Expr::Macro(definition) => leaving(
            validated(
                declare_params(
                    scopes.push(nothing_declared()),
                    definition.params@,
                    definition.params@.len() as int,
                ),
                *definition.body,
            ),
        ),
        Expr::Call(call) => {
            let first = validated(scopes, *call.callable);
            if first.error is Some {
                first
            } else {
                validated_from(first.scopes, call.arguments@, 0)
            }
        },
        Expr::Array(forms) => validated_from(scopes, forms@, 0),
        _ => passed(scopes),
    }
}

/// What checking the forms from place `from` on comes to, one after the other.
pub open spec fn validated_from(scopes: Seq<TrackScopeView>, forms: Seq<Form>, from: int) -> Validation
    decreases forms, 1int, forms.len() - from,
{
    if 0 <= from < forms.len() {
        let first = validated(scopes, forms[from]);
        if first.error is Some {
            first
        } else {
            validated_from(first.scopes, forms, from + 1)
        }
    } else {
        passed(scopes)
    }
}

/// What checking the assignments from place `from` on comes to: each declares
/// its symbol, then has its value checked.
pub open spec fn assigned_from(
    scopes: Seq<TrackScopeView>,
    list: Seq<Assignment>,
    from: int,
) -> Validation
    decreases list, 1int, list.len() - from,
{
    if 0 <= from < list.len() {
        let name = list[from].symbol@;
        if !can_declare(scopes, name) {
            failed(scopes, redeclared_symbol(name))
        } else {
            let first = validated(declare(scopes, name), list[from].value);
            if first.error is Some {
                first
            } else {
                assigned_from(first.scopes, list, from + 1)
            }
        }
    } else {
        passed(scopes)
    }
}

/// The errors of the forms of a program from place `from` on: each form is
/// checked from the scopes that the forms before it left, whether or not they
/// passed, and gives at most one error.
pub open spec fn program_errors(scopes: Seq<TrackScopeView>, forms: Seq<Form>, from: int) -> Seq<
    BuildErrorView,
>
    decreases forms.len() - from,
{
    if 0 <= from < forms.len() {
        let first = validated(scopes, forms[from]);
        let rest = program_errors(first.scopes, forms, from + 1);
        match first.error {
            Some(error) => seq![error] + rest,
            None => rest,
        }
    } else {
        Seq::empty()
    }
}

/// The scopes that the forms of a program from place `from` on leave.
pub open spec fn program_scopes(scopes: Seq<TrackScopeView>, forms: Seq<Form>, from: int) -> Seq<
    TrackScopeView,
>
    decreases forms.len() - from,
{
    if 0 <= from < forms.len() {
        program_scopes(validated(scopes, forms[from]).scopes, forms, from + 1)
    } else {
        scopes
    }
}

/// The errors as they are modelled.
pub open spec fn error_views(errors: Seq<BuildErrorStack>) -> Seq<BuildErrorView> {
    errors.map_values(|error: BuildErrorStack| error@)
}

fn declare_all(track: &mut TrackTable, params: &Vec<Symbol>)
    requires
        old(track)@.len() > 0,
    ensures
        final(track)@ == declare_params(old(track)@, params@, params@.len() as int),
        final(track)@.len() == old(track)@.len(),
{
    let mut i: usize = 0;
    while i < params.len()
        invariant
            i <= params.len(),
            track@ == declare_params(old(track)@, params@, i as int),
            track@.len() == old(track)@.len(),
            track@.len() > 0,
        decreases params.len() - i,
    {
        let _ = track.assign(&params[i]);
        i = i + 1;
    }
}

fn validate_all(track: &mut TrackTable, forms: &Vec<Form>) -> (result: BuildResult<()>)
    requires
        old(track)@.len() > 0,
    ensures
        final(track)@ == validated_from(old(track)@, forms@, 0).scopes,
        final(track)@.len() == old(track)@.len(),
        match result {
            Ok(_) => validated_from(old(track)@, forms@, 0).error is None,
            Err(error) => validated_from(old(track)@, forms@, 0).error == Some(error@),
        },
    decreases forms, 1int, 0int,
{
    let mut i: usize = 0;
    while i < forms.len()
        invariant
            i <= forms.len(),
            validated_from(old(track)@, forms@, 0) == validated_from(track@, forms@, i as int),
            track@.len() == old(track)@.len(),
            track@.len() > 0,
        decreases forms.len() - i,
    {
        match validate_form(track, &forms[i]) {
            Ok(_) => {},
            Err(error) => {
                return Err(error);
            },
        }
        i = i + 1;
    }
    Ok(())
}

fn validate_assignments(track: &mut TrackTable, list: &Vec<Assignment>) -> (result: BuildResult<()>)
    requires
        old(track)@.len() > 0,
    ensures
        final(track)@ == assigned_from(old(track)@, list@, 0).scopes,
        final(track)@.len() == old(track)@.len(),
        match result {
            Ok(_) => assigned_from(old(track)@, list@, 0).error is None,
            Err(error) => assigned_from(old(track)@, list@, 0).error == Some(error@),
        },
    decreases list, 1int, 0int,
{
    let mut i: usize = 0;
    while i < list.len()
        invariant
            i <= list.len(),
            assigned_from(old(track)@, list@, 0) == assigned_from(track@, list@, i as int),
            track@.len() == old(track)@.len(),
            track@.len() > 0,
        decreases list.len() - i,
    {
        let ghost before = track@;
        match track.assign(&list[i].symbol) {
            Ok(_) => {},
            Err(error) => {
                proof {
                    let name = list@[i as int].symbol@;
                    assert(before.last().ordinary.insert(name) =~= before.last().ordinary);
                    assert(track@ =~= before);
                }
                return Err(error);
            },
        }
        match validate_form(track, &list[i].value) {
            Ok(_) => {},
            Err(error) => {
                return Err(error);
            },
        }
        i = i + 1;
    }
    Ok(())
}

/// Checks one form: every symbol that it uses must be declared where it is
/// used. The declarations that the form makes in the innermost scope stay;
/// the scopes that it opens are closed again, also where it fails.
pub fn validate_form(track: &mut TrackTable, form: &Form) -> (result: BuildResult<()>)
    requires
        old(track)@.len() > 0,
    ensures
        final(track)@ == validated(old(track)@, *form).scopes,
        final(track)@.len() == old(track)@.len(),
        match result {
            Ok(_) => validated(old(track)@, *form).error is None,
            Err(error) => validated(old(track)@, *form).error == Some(error@),
        },
    decreases form, 0int, 0int,
{
    match &form.expr {
        Expr::Symbol(symbol) => {
            if track.contains(symbol) {
                Ok(())
            } else if symbol.is_mutable() {
                Err(BuildErrorStack::undeclared_mutable_symbol(symbol))
            } else {
                Err(BuildErrorStack::undeclared_symbol(symbol))
            }
        },
        Expr::AssignmentList(list, _) => validate_assignments(track, list),
        Expr::Scope(forms) => {
            track.create_scope();
            let result = validate_all(track, forms);
            track.drop_scope();
            result
        },
        Expr::Function(definition) => {
            track.create_scope();
            declare_all(track, &definition.params);
            let result = validate_form(track, &definition.body);
            track.drop_scope();
            result
        },
        Expr::Macro(definition) => {
            track.create_scope();
            declare_all(track, &definition.params);
            let result = validate_form(track, &definition.body);
            track.drop_scope();
            result
        },
        Expr::Call(call) => {
            match validate_form(track, &call.callable) {
                Ok(_) => validate_all(track, &call.arguments),
                Err(error) => Err(error),
            }
        },
        Expr::Array(forms) => validate_all(track, forms),
        _ => Ok(()),
    }
}

/// Checks every form of a program, in order, and gathers the errors: the
/// check of the program does not stop at the first form that fails.
pub fn validate_program(track: &mut TrackTable, forms: &Vec<Form>) -> (errors: Vec<BuildErrorStack>)
    requires
        old(track)@.len() > 0,
    ensures
        error_views(errors@) == program_errors(old(track)@, forms@, 0),
        final(track)@ == program_scopes(old(track)@, forms@, 0),
        final(track)@.len() == old(track)@.len(),
{
    let mut errors: Vec<BuildErrorStack> = Vec::new();
    let mut i: usize = 0;
    assert(error_views(errors@) =~= Seq::empty());
    while i < forms.len()
        invariant
            i <= forms.len(),
            program_errors(old(track)@, forms@, 0) == error_views(errors@) + program_errors(
                track@,
                forms@,
                i as int,
            ),
            program_scopes(old(track)@, forms@, 0) == program_scopes(track@, forms@, i as int),
            track@.len() == old(track)@.len(),
            track@.len() > 0,
        decreases forms.len() - i,
    {
        let ghost found = error_views(errors@);
        let ghost before = track@;
        match validate_form(track, &forms[i]) {
            Ok(_) => {},
            Err(error) => {
                errors.push(error);
                proof {
                    let rest = program_errors(track@, forms@, i as int + 1);
                    assert(error_views(errors@) =~= found + seq![error@]);
                    assert(found + (seq![error@] + rest) =~= (found + seq![error@]) + rest);
                }
            },
        }
        i = i + 1;
    }
    errors
}

/// The names that the standard library declares.
pub open spec fn standard_names() -> Seq<Seq<char>> {
    seq![
        "+"@,
        "-"@,
        "*"@,
        "/"@,
        "^"@,
        "map"@,
        "reduce"@,
        "fold"@,
        "scan"@,
        "filter"@,
        "append"@,
        "prepend"@,
        "pop-back"@,
        "pop-front"@,
        "print"@,
        "println"@,
        "readln"@,
        "format"@,
    ]
}

/// The scopes after the first `upto` of the names were declared in the innermost one.
pub open spec fn declare_names(
    scopes: Seq<TrackScopeView>,
    names: Seq<Seq<char>>,
    upto: int,
) -> Seq<TrackScopeView>
    decreases upto,
{
    if 0 < upto <= names.len() {
        declare(declare_names(scopes, names, upto - 1), names[upto - 1])
    } else {
        scopes
    }
}

/// Declares the names of the standard library in the innermost scope.
pub fn populate_track(track: &mut TrackTable)
    requires
        old(track)@.len() > 0,
    ensures
        final(track)@ == declare_names(old(track)@, standard_names(), 18),
{
    let names: Vec<&str> = vec![
        "+",
        "-",
        "*",
        "/",
        "^",
        "map",
        "reduce",
        "fold",
        "scan",
        "filter",
        "append",
        "prepend",
        "pop-back",
        "pop-front",
        "print",
        "println",
        "readln",
        "format",
    ];
    assert(names@.len() == 18);
    assert(forall|j: int| 0 <= j < 18 ==> (#[trigger] names@[j])@ == standard_names()[j]);
    let mut i: usize = 0;
    while i < names.len()
        invariant
            i <= names.len(),
            names@.len() == 18,
            forall|j: int| 0 <= j < 18 ==> (#[trigger] names@[j])@ == standard_names()[j],
            track@ == declare_names(old(track)@, standard_names(), i as int),
            track@.len() > 0,
        decreases names.len() - i,
    {
        let _ = track.assign(&Symbol::new(names[i]));
        i = i + 1;
    }
}

} // verus!
