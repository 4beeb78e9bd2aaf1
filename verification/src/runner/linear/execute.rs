//! How functions and macros are called. A call that supplies too many
//! arguments fails; one that supplies too few gives a partial application; one
//! that supplies exactly as many as are taken opens a scope, binds the
//! parameters and says what is to be run in that scope. A callable that has
//! nothing to run is a broken value, which no call may be made with: whoever
//! calls tests for it first and aborts. Evaluating forms and
//! running native code are the host's part: it runs what it is told and then
//! hands the outcome to `finish_call`, which closes the scope.

use vstd::prelude::*;
use std::rc::Rc;
use crate::build::form::Form;
use crate::build::symbol::Symbol;
use crate::run::error::{too_many_arguments, RunErrorStack};
use crate::run::result::RunResult;
use crate::run::table::{after_assign, child_of, ScopeView, SymbolTable};
use crate::run::value::function::{Function, FunctionView, Native};
use crate::run::value::macros::Macro;
use crate::run::value::Value;
use crate::run::valueref::{share, share_all, ValueRef};

verus! {

/// What a call comes to, by the number of arguments that it supplies.
pub enum Step {
    /// More arguments than the callable takes.
    TooMany,
    /// Fewer arguments than the callable takes.
    Partial,
    /// As many as it takes, and this body to evaluate.
    Body(Rc<Form>),
    /// As many as it takes, and this native implementation to run.
    Native(Native),
    /// As many as it takes, and nothing to run: the callable is broken, and
    /// the call must not be made.
    Impossible,
}

/// The step for a callable and a number of supplied arguments.
pub open spec fn step_of(callable: FunctionView, supplied: nat) -> Step {
    if supplied > callable.arity {
        Step::TooMany
    } else if supplied < callable.arity {
        Step::Partial
    } else {
        match callable.body {
            Some(body) => Step::Body(body),
            None => match callable.native {
                Some(native) => Step::Native(native),
                None => Step::Impossible,
            },
        }
    }
}

/// The chain after the first `upto` parameters were assigned their values in
/// order, each as an assignment that may fail without stopping the others.
pub open spec fn bound_scope(
    chain: Seq<ScopeView>,
    params: Seq<Symbol>,
    values: Seq<ValueRef>,
    upto: int,
) -> Seq<ScopeView>
    decreases upto,
{
    if 0 < upto <= params.len() && upto <= values.len() {
        after_assign(
            bound_scope(chain, params, values, upto - 1),
            params[upto - 1]@,
            values[upto - 1],
            false,
        )
    } else {
        chain
    }
}

/// How many parameters get a value.
pub open spec fn bound_count(params: Seq<Symbol>, values: Seq<ValueRef>) -> int {
    if params.len() <= values.len() {
        params.len() as int
    } else {
        values.len() as int
    }
}

/// The chain inside a call: a new scope in which the parameters are bound, in
/// the order in which they were declared, to the arguments that earlier
/// partial applications supplied followed by those of this call.
pub open spec fn entered(
    chain: Seq<ScopeView>,
    callable: FunctionView,
    arguments: Seq<ValueRef>,
) -> Seq<ScopeView> {
    bound_scope(
        child_of(chain),
        callable.params,
        callable.bound + arguments,
        bound_count(callable.params, callable.bound + arguments),
    )
}

/// The chain after a call was begun: inside the call where something is to be
/// run, and untouched otherwise.
pub open spec fn chain_after(
    chain: Seq<ScopeView>,
    callable: FunctionView,
    arguments: Seq<ValueRef>,
) -> Seq<ScopeView> {
    match step_of(callable, arguments.len()) {
        Step::Body(_) => entered(chain, callable, arguments),
        Step::Native(_) => entered(chain, callable, arguments),
        _ => chain,
    }
}

/// Binding parameters touches the innermost scope alone.
pub proof fn lemma_binding_stays_inside(
    chain: Seq<ScopeView>,
    params: Seq<Symbol>,
    values: Seq<ValueRef>,
    upto: int,
)
    requires
        chain.len() > 0,
    ensures
        bound_scope(chain, params, values, upto).len() == chain.len(),
        bound_scope(chain, params, values, upto).skip(1) == chain.skip(1),
    decreases upto,
{
    if 0 < upto <= params.len() && upto <= values.len() {
        lemma_binding_stays_inside(chain, params, values, upto - 1);
        let before = bound_scope(chain, params, values, upto - 1);
        let after = bound_scope(chain, params, values, upto);
        assert(after.skip(1) =~= before.skip(1));
    }
}

/// Closing the scope of a call gives back the chain from which the call was made.
pub proof fn lemma_teardown_restores_the_chain(
    chain: Seq<ScopeView>,
    callable: FunctionView,
    arguments: Seq<ValueRef>,
)
    ensures
        entered(chain, callable, arguments).len() == chain.len() + 1,
        entered(chain, callable, arguments).skip(1) == chain,
{
    let all = callable.bound + arguments;
    lemma_binding_stays_inside(
        child_of(chain),
        callable.params,
        all,
        bound_count(callable.params, all),
    );
    assert(child_of(chain).skip(1) =~= chain);
}

/// Supplying the arguments of a call in two parts comes to the same as
/// supplying them at once: the partial application of a callable to the first
/// part, called with the rest, runs the same thing in the same scope as the
/// callable called with all of them in order.
pub proof fn lemma_partial_application_completes(
    chain: Seq<ScopeView>,
    func: Function,
    first: Seq<ValueRef>,
    rest: Seq<ValueRef>,
)
    requires
        first.len() < func.arity,
    ensures
        func.applied(first).arity == func.arity - first.len(),
        step_of(func.applied(first), rest.len()) == step_of(func.view(), (first + rest).len()),
        entered(chain, func.applied(first), rest) == entered(chain, func.view(), first + rest),
        chain_after(chain, func.applied(first), rest) == chain_after(
            chain,
            func.view(),
            first + rest,
        ),
{
    assert((func.bound@ + first) + rest =~= func.bound@ + (first + rest));
}

/// Whether a call of `callable` with `supplied` arguments may be made: it may
/// not where the call would find nothing to run.
pub fn can_call(callable: &Function, supplied: usize) -> (possible: bool)
    ensures
        possible == (step_of(callable.view(), supplied as nat) != Step::Impossible),
{
    supplied != callable.arity || callable.body.is_some() || callable.native.is_some()
}

/// What the host is to do for a call that was begun.
#[derive(Debug)]
pub enum Dispatch {
    /// Nothing: the call gave this value, a partial application.
    Value(ValueRef),
    /// Evaluate this form in the scope that was opened, then finish the call.
    Body(Rc<Form>),
    /// Run this native implementation in the scope that was opened, then
    /// finish the call.
    Native(Native),
}

/// What begins a call, before a partial application is wrapped as a value.
enum Entered {
    Partial(Function),
    Body(Rc<Form>),
    Native(Native),
}

fn enter(table: &mut SymbolTable, callable: &Function, arguments: Vec<ValueRef>) -> (result:
    RunResult<Entered>)
    requires
        step_of(callable.view(), arguments@.len()) != Step::Impossible,
    ensures
        final(table)@ == chain_after(old(table)@, callable.view(), arguments@),
        match result {
            Ok(Entered::Partial(partial)) => step_of(callable.view(), arguments@.len())
                == Step::Partial && partial.view() == callable.applied(arguments@),
            Ok(Entered::Body(body)) => step_of(callable.view(), arguments@.len()) == Step::Body(
                body,
            ),
            Ok(Entered::Native(native)) => step_of(callable.view(), arguments@.len())
                == Step::Native(native),
            Err(error) => step_of(callable.view(), arguments@.len()) == Step::TooMany && error@
                == too_many_arguments(callable.arity as nat, arguments@.len()),
        },
{
    if arguments.len() > callable.arity {
        return Err(RunErrorStack::too_many_arguments(callable.arity, arguments.len()));
    } else if arguments.len() < callable.arity {
        return Ok(Entered::Partial(Function::partial(callable, arguments)));
    }
    let run = match &callable.body {
        Some(body) => Entered::Body(share(body)),
        None => match callable.native {
            Some(native) => Entered::Native(native),
            None => unreached(),
        },
    };
    let ghost outside = table@;
    let ghost supplied = arguments@;
    let mut arguments = arguments;
    let mut values = share_all(&callable.bound);
    values.append(&mut arguments);
    assert(values@ == callable.bound@ + supplied);
    table.create_scope();
    let params: &Vec<Symbol> = &callable.params;
    let count = if params.len() <= values.len() {
        params.len()
    } else {
        values.len()
    };
    let mut i: usize = 0;
    while i < count
        invariant
            i <= count,
            count == bound_count(params@, values@),
            table@ == bound_scope(child_of(outside), params@, values@, i as int),
        decreases count - i,
    {
        let _ = table.assign_shared(&params[i], share(&values[i]), false);
        i = i + 1;
    }
    Ok(run)
}

/// Begins the call of a function with the values of its arguments.
///
/// Too many arguments fail the call and leave the table as it was. Too few
/// give the partial application as the value of the call, and leave the
/// table as it was. Exactly as many as the function takes open a scope, bind
/// the parameters in it, and hand out what is to be run there. A call that
/// would find nothing to run must not be made.
pub fn execute_function(table: &mut SymbolTable, func: &Function, arguments: Vec<ValueRef>) -> (result:
    RunResult<Dispatch>)
    requires
        step_of(func.view(), arguments@.len()) != Step::Impossible,
    ensures
        final(table)@ == chain_after(old(table)@, func.view(), arguments@),
        match result {
            Ok(Dispatch::Value(value)) => step_of(func.view(), arguments@.len()) == Step::Partial
                && (*value) is Function && (*value)->Function_0.view() == func.applied(
                arguments@,
            ),
            Ok(Dispatch::Body(body)) => step_of(func.view(), arguments@.len()) == Step::Body(body),
            Ok(Dispatch::Native(native)) => step_of(func.view(), arguments@.len())
                == Step::Native(native),
            Err(error) => step_of(func.view(), arguments@.len()) == Step::TooMany && error@
                == too_many_arguments(func.arity as nat, arguments@.len()),
        },
{
    match enter(table, func, arguments) {
        Ok(Entered::Partial(partial)) => Ok(Dispatch::Value(Rc::new(Value::Function(partial)))),
        Ok(Entered::Body(body)) => Ok(Dispatch::Body(body)),
        Ok(Entered::Native(native)) => Ok(Dispatch::Native(native)),
        Err(error) => Err(error),
    }
}

/// Whether `value` stands for `form` left unevaluated: a function without
/// parameters whose body is the form.
pub open spec fn is_deferred(value: ValueRef, form: Form) -> bool {
    &&& (*value) is Function
    &&& (*value)->Function_0.view() == FunctionView {
        params: Seq::empty(),
        body: Some(Rc::new(form)),
        native: None,
        arity: 0,
        bound: Seq::empty(),
    }
}

/// Whether each value stands for the form at its place, left unevaluated.
pub open spec fn all_deferred(values: Seq<ValueRef>, forms: Seq<Form>) -> bool {
    &&& values.len() == forms.len()
    &&& forall|i: int| 0 <= i < values.len() ==> is_deferred(#[trigger] values[i], forms[i])
}

/// Wraps forms so that they can be bound unevaluated: each becomes a function
/// without parameters whose body is the form.
pub fn defer(forms: Vec<Form>) -> (values: Vec<ValueRef>)
    ensures
        all_deferred(values@, forms@),
{
    let mut forms = forms;
    let ghost all = forms@;
    let mut reversed: Vec<ValueRef> = Vec::new();
    while forms.len() > 0
        invariant
            forms@.len() + reversed@.len() == all.len(),
            forms@ == all.take(forms@.len() as int),
            forall|i: int|
                0 <= i < reversed@.len() ==> is_deferred(
                    #[trigger] reversed@[i],
                    all[all.len() - 1 - i],
                ),
        decreases forms@.len(),
    {
        let ghost before = forms@;
        let form = forms.pop().unwrap();
        assert(form == all[before.len() - 1]);
        let thunk = Function::new(Vec::new(), form);
        reversed.push(Rc::new(Value::Function(thunk)));
        assert(forms@ =~= all.take(forms@.len() as int));
        assert(thunk.params@ =~= Seq::empty());
        assert(thunk.bound@ =~= Seq::empty());
    }
    let mut values: Vec<ValueRef> = Vec::new();
    while reversed.len() > 0
        invariant
            reversed@.len() + values@.len() == all.len(),
            forall|i: int|
                0 <= i < reversed@.len() ==> is_deferred(
                    #[trigger] reversed@[i],
                    all[all.len() - 1 - i],
                ),
            forall|i: int| 0 <= i < values@.len() ==> is_deferred(#[trigger] values@[i], all[i]),
        decreases reversed@.len(),
    {
        let value = reversed.pop().unwrap();
        values.push(value);
    }
    values
}

/// Begins the call of a macro with the forms of its arguments, which are
/// bound unevaluated. Otherwise a macro is called as a function is; where
/// too few arguments are supplied, the partial application is a macro.
pub fn execute_macro(table: &mut SymbolTable, mac: &Macro, arguments: Vec<Form>) -> (result:
    RunResult<Dispatch>)
    requires
        step_of(mac.shape.view(), arguments@.len()) != Step::Impossible,
    ensures
        exists|values: Seq<ValueRef>| #[trigger]
            all_deferred(values, arguments@) && final(table)@ == chain_after(
                old(table)@,
                mac.shape.view(),
                values,
            ) && (match result {
                Ok(Dispatch::Value(value)) => (*value) is Macro
                    && (*value)->Macro_0.shape.view() == mac.shape.applied(values),
                _ => true,
            }),
        match result {
            Ok(Dispatch::Value(_)) => step_of(mac.shape.view(), arguments@.len()) == Step::Partial,
            Ok(Dispatch::Body(body)) => step_of(mac.shape.view(), arguments@.len()) == Step::Body(
                body,
            ),
            Ok(Dispatch::Native(native)) => step_of(mac.shape.view(), arguments@.len())
                == Step::Native(native),
            Err(error) => step_of(mac.shape.view(), arguments@.len()) == Step::TooMany && error@
                == too_many_arguments(mac.shape.arity as nat, arguments@.len()),
        },
{
    let values = defer(arguments);
    let ghost bound = values@;
    let result = match enter(table, &mac.shape, values) {
        Ok(Entered::Partial(partial)) => Ok(
            Dispatch::Value(Rc::new(Value::Macro(Macro { shape: partial }))),
        ),
        Ok(Entered::Body(body)) => Ok(Dispatch::Body(body)),
        Ok(Entered::Native(native)) => Ok(Dispatch::Native(native)),
        Err(error) => Err(error),
    };
    assert(all_deferred(bound, arguments@));
    result
}

/// Finishes a call that opened a scope: closes that scope, whatever came of
/// running the call, and hands the outcome on.
pub fn finish_call(table: &mut SymbolTable, outcome: RunResult<ValueRef>) -> (result: RunResult<
    ValueRef,
>)
    ensures
        final(table)@ == (if old(table)@.len() > 1 {
            old(table)@.skip(1)
        } else {
            old(table)@
        }),
        result == outcome,
{
    table.drop_scope();
    outcome
}

} // verus!
