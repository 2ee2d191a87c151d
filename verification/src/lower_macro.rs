//! Lowering of conditional calls and recorded results.

use vstd::prelude::*;

use crate::ast::Expr;
use crate::kinds::BindingKind;
use crate::lower_spec::{
    conditional_call, conditional_call_list, known_result, known_result_list, macro_args,
};
use crate::calls::{conditional_call_tail, known_result_tail};
use crate::lower_value::macro_call_list;
use crate::lowerer::{CallMacro, Lowerer, Reject};

verus! {

impl<'a> Lowerer<'a> {
    /// `conditional_call!(condition, func, args...)`.
    pub fn lower_conditional_call(&mut self, expr: &'a Expr) -> (r: Option<()>)
        ensures
            final(self)@ == conditional_call(old(self)@, expr).0,
            r is Some == conditional_call(old(self)@, expr).1,
        decreases *expr, 16int,
    {
        match macro_call_list(expr, "conditional_call") {
            Some(list) => self.lower_conditional_call_list(list),
            None => None,
        }
    }

    /// `conditional_call!` with its arguments.
    pub fn lower_conditional_call_list(&mut self, list: &'a Vec<Expr>) -> (r: Option<()>)
        ensures
            final(self)@ == conditional_call_list(old(self)@, list).0,
            r is Some == conditional_call_list(old(self)@, list).1,
        decreases *list, list.len() + 2,
    {
        let mac = CallMacro::ConditionalCall;
        if list.len() < 2 {
            return None;
        }
        if list.len() > 6 {
            self.reject(Reject::TooManyArguments(mac));
            return None;
        }
        match self.lower_value_expr(&list[0]) {
            Some(cond) => if cond.reg > 255 {
                self.reject(Reject::RegisterIndex(cond.reg));
                None
            } else {
                assert(conditional_call_list(old(self)@, list) == match macro_args(
                    self@,
                    list,
                    2,
                    mac,
                    seq![],
                ) {
                    (s, None) => (s, false),
                    (s, Some(args)) => conditional_call_tail(s, &list[1], cond.reg, args),
                });
                match self.lower_macro_args(list, mac) {
                    Some(args) => self.finish_conditional_call(&list[1], cond.reg, &args),
                    None => None,
                }
            },
            None => None,
        }
    }

    /// `record_known_result!(result, func, args...)`.
    pub fn lower_record_known_result(&mut self, expr: &'a Expr) -> (r: Option<()>)
        ensures
            final(self)@ == known_result(old(self)@, expr).0,
            r is Some == known_result(old(self)@, expr).1,
        decreases *expr, 16int,
    {
        match macro_call_list(expr, "record_known_result") {
            Some(list) => self.lower_known_result_list(list),
            None => None,
        }
    }

    /// `record_known_result!` with its arguments.
    pub fn lower_known_result_list(&mut self, list: &'a Vec<Expr>) -> (r: Option<()>)
        ensures
            final(self)@ == known_result_list(old(self)@, list).0,
            r is Some == known_result_list(old(self)@, list).1,
        decreases *list, list.len() + 2,
    {
        let mac = CallMacro::RecordKnownResult;
        if list.len() < 2 {
            return None;
        }
        match self.lower_value_expr(&list[0]) {
            Some(result) => if result.kind == BindingKind::Float {
                self.reject(Reject::FloatOperand(mac));
                None
            } else {
                assert(known_result_list(old(self)@, list) == match macro_args(
                    self@,
                    list,
                    2,
                    mac,
                    seq![],
                ) {
                    (s, None) => (s, false),
                    (s, Some(args)) => known_result_tail(s, &list[1], result, args),
                });
                match self.lower_macro_args(list, mac) {
                    Some(args) => self.finish_known_result(&list[1], result, &args),
                    None => None,
                }
            },
            None => None,
        }
    }
}

} // verus!
