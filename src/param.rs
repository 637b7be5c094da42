//! The binding façade: one entry point per wire-type family, each taking any
//! value type that has an adapter for that wire type.
use vstd::prelude::*;

use crate::column::{bind_column, bind_outcome, BindError, ColumnBuffer};
use crate::wire::{AsOci, Int, Num};

verus! {

/// Binds one value to column `col` as a numeric parameter.
pub fn set_param_num<T: AsOci<Num>>(col: u16, t: T) -> (r: Result<ColumnBuffer, BindError>)
    ensures
        bind_outcome::<Num, T>(col, seq![t], r),
{
    let mut values: Vec<T> = Vec::new();
    values.push(t);
    assert(values@ =~= seq![t]);
    bind_column::<Num, T>(col, &values)
}

/// Binds one value to column `col` as an integer parameter.
pub fn set_param_int<T: AsOci<Int>>(col: u16, t: T) -> (r: Result<ColumnBuffer, BindError>)
    ensures
        bind_outcome::<Int, T>(col, seq![t], r),
{
    let mut values: Vec<T> = Vec::new();
    values.push(t);
    assert(values@ =~= seq![t]);
    bind_column::<Int, T>(col, &values)
}

} // verus!
