//! What the standard library of the language needs from the runtime.

use vstd::prelude::*;
use crate::build::symbol::Symbol;
use crate::run::table::{lookup_in, ScopeView, SymbolTable};
use crate::run::value::Value;

verus! {

/// The symbol under which `eval` finds its argument.
pub open spec fn eval_parameter() -> Seq<char> {
    "expr"@
}

/// What `eval` says of an argument that is no text.
pub open spec fn not_evaluable(printed: Seq<char>) -> Seq<char> {
    "Not possible to parse and evaluate a non String `"@ + printed + "`"@
}

/// What `eval` is to parse and evaluate, from the scopes of its call: the text
/// that its argument is bound to; or the complaint that the argument is no
/// text; or, where no argument is bound, the message of the failed lookup.
pub open spec fn eval_source_in(chain: Seq<ScopeView>) -> Result<Seq<char>, Seq<char>> {
    match lookup_in(chain, eval_parameter()) {
        Ok(value) => match *value {
            Value::String(source) => Ok(source@),
            other => Err(not_evaluable(other.text())),
        },
        Err(error) => Err(error.message()),
    }
}

/// The source text that the native `eval` is to parse and evaluate.
pub fn eval_source(table: &SymbolTable) -> (result: Result<String, String>)
    ensures
        match result {
            Ok(source) => eval_source_in(table@) is Ok && eval_source_in(table@)->Ok_0 == source@,
            Err(complaint) => eval_source_in(table@) is Err && eval_source_in(table@)->Err_0
                == complaint@,
        },
{
    match table.lookup(&Symbol::new("expr")) {
        Ok(value) => match &*value {
            Value::String(source) => Ok(source.clone()),
            other => {
                let printed = other.to_string();
                Err(
                    String::from_str("Not possible to parse and evaluate a non String `").concat(
                        printed.as_str(),
                    ).concat("`"),
                )
            },
        },
        Err(error) => Err(error.message()),
    }
}

} // verus!
