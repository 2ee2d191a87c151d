//! Lowering of helper, method and I/O calls.

use vstd::prelude::*;

use crate::ast::{canonical_expr_segments, Expr, ExprKind};
use crate::calls::{any_depends_on_stack, MAX_HELPER_CALL_ARITY};
use crate::config::{CallPolicySpec, policy_for, shim_for};
use crate::kinds::{Binding, BindingKind};
use crate::lower_spec::{
    call_args, call_value, config_call_stmt, io_call_stmt, io_shim, macro_args, method_policy,
    method_value, receiver_type, referent_value, shim_call,
};
use crate::lowerer::{CallMacro, Lowerer, Reject};
use crate::ops::CallTarget;
use crate::policy::{call_policy_shape, CallFamily, CallResultKind};
use crate::text::{same_text, string_views};

verus! {

impl<'a> Lowerer<'a> {
    /// A helper call in value position.
    pub fn lower_call_value(&mut self, expr: &'a Expr) -> (r: Option<Binding>)
        ensures
            final(self)@ == call_value(old(self)@, expr).0,
            r == call_value(old(self)@, expr).1,
        decreases *expr, 8int,
    {
        let call = match &expr.kind {
            ExprKind::Call(c) => c,
            _ => {
                return None;
            },
        };
        let policy = match self.resolve_call_policy(&call.func) {
            Some(policy) => policy,
            None => {
                return None;
            },
        };
        if call.args.len() > MAX_HELPER_CALL_ARITY {
            return None;
        }
        let none: Vec<Binding> = Vec::new();
        assert(none@ =~= seq![]);
        let args = match self.lower_call_args(&call.args, none) {
            Some(args) => args,
            None => {
                return None;
            },
        };
        let reg: u16 = self.alloc_reg();
        self.finish_call_value(&call.func, &args, policy, reg)
    }

    /// The type whose methods a receiver has.
    fn receiver_owner(&self, receiver: &Expr) -> (r: Option<&'a String>)
        ensures
            r == receiver_type(self@.ctx.config, *receiver),
    {
        match self.ctx.config {
            Some(c) => match &receiver.kind {
                ExprKind::Path(p) => match p.path.get_ident() {
                    Some(name) => if same_text(name.as_str(), "program") {
                        Some(&c.env_type_name)
                    } else if same_text(name.as_str(), "state") {
                        Some(&c.state_type_name)
                    } else {
                        None
                    },
                    None => None,
                },
                _ => None,
            },
            None => None,
        }
    }

    fn declared_method_policy(&self, owner: &String, method: &String) -> (r: Option<CallPolicySpec>)
        ensures
            r == method_policy(self@, owner@, method@),
    {
        match self.ctx.call_policies {
            Some(entries) => {
                let segments = vec![owner.clone(), method.clone()];
                assert(string_views(segments@) =~= seq![owner@, method@]);
                policy_for(entries, &segments)
            },
            None => None,
        }
    }

    /// A method call of the program or the state.
    pub fn lower_method_call_value(&mut self, expr: &'a Expr) -> (r: Option<Binding>)
        ensures
            final(self)@ == method_value(old(self)@, expr).0,
            r == method_value(old(self)@, expr).1,
        decreases *expr, 8int,
    {
        let call = match &expr.kind {
            ExprKind::MethodCall(c) => c,
            _ => {
                return None;
            },
        };
        let owner = match self.receiver_owner(&call.receiver) {
            Some(owner) => owner,
            None => {
                return None;
            },
        };
        let kind = match self.declared_method_policy(owner, &call.method) {
            Some(CallPolicySpec::Explicit(kind)) => kind,
            _ => {
                return None;
            },
        };
        if call.args.len() >= MAX_HELPER_CALL_ARITY {
            return None;
        }
        let receiver = match self.lower_value_expr(&call.receiver) {
            Some(b) => b,
            None => {
                return None;
            },
        };
        let first = vec![receiver];
        assert(first@ =~= seq![receiver]);
        let args = match self.lower_call_args(&call.args, first) {
            Some(args) => args,
            None => {
                return None;
            },
        };
        let reg: u16 = self.alloc_reg();
        let (family, result, wrapped) = call_policy_shape(kind);
        let elidable = matches!(
            family,
            CallFamily::Pure | CallFamily::PureCannotRaise | CallFamily::PureOrMemerror
        );
        if !elidable || result != CallResultKind::Int || wrapped {
            return None;
        }
        self.emit_policy_call(CallTarget::Method(owner, &call.method), family, result, &args, reg);
        let depends_on_stack = any_depends_on_stack(&args);
        Some(Binding { reg, kind: BindingKind::Int, depends_on_stack })
    }

    /// The arguments that a macro call hands to its callee.
    pub fn lower_macro_args(&mut self, list: &'a Vec<Expr>, mac: CallMacro) -> (r: Option<
        Vec<Binding>,
    >)
        requires
            list.len() >= 2,
        ensures
            final(self)@ == macro_args(old(self)@, list, 2, mac, seq![]).0,
            match r {
                Some(v) => macro_args(old(self)@, list, 2, mac, seq![]).1 == Some(v@),
                None => macro_args(old(self)@, list, 2, mac, seq![]).1 is None,
            },
        decreases *list, list.len() + 1,
    {
        let mut out: Vec<Binding> = Vec::new();
        let mut i: usize = 2;
        assert(out@ =~= seq![]);
        while i < list.len()
            invariant
                2 <= i <= list.len(),
                macro_args(old(self)@, list, 2, mac, seq![]) == macro_args(
                    self@,
                    list,
                    i as int,
                    mac,
                    out@,
                ),
            decreases list.len() - i,
        {
            match self.lower_value_expr(&list[i]) {
                None => {
                    return None;
                },
                Some(b) => {
                    if b.reg > 255 {
                        self.reject(Reject::RegisterIndex(b.reg));
                        return None;
                    }
                    if b.kind == BindingKind::Float {
                        self.reject(Reject::FloatOperand(mac));
                        return None;
                    }
                    out.push(b);
                },
            }
            i = i + 1;
        }
        Some(out)
    }

    /// The arguments of a call, after those already lowered.
    pub fn lower_call_args(&mut self, list: &'a Vec<Expr>, first: Vec<Binding>) -> (r: Option<
        Vec<Binding>,
    >)
        ensures
            final(self)@ == call_args(old(self)@, list, 0, first@).0,
            match r {
                Some(v) => call_args(old(self)@, list, 0, first@).1 == Some(v@),
                None => call_args(old(self)@, list, 0, first@).1 is None,
            },
        decreases *list, list.len() + 1,
    {
        let mut out: Vec<Binding> = first;
        let mut i: usize = 0;
        while i < list.len()
            invariant
                i <= list.len(),
                call_args(old(self)@, list, 0, first@) == call_args(self@, list, i as int, out@),
            decreases list.len() - i,
        {
            match self.lower_value_expr(&list[i]) {
                None => {
                    return None;
                },
                Some(b) => {
                    out.push(b);
                },
            }
            i = i + 1;
        }
        Some(out)
    }

    /// A helper call in statement position.
    pub fn lower_config_call_stmt(&mut self, expr: &'a Expr) -> (r: Option<()>)
        ensures
            final(self)@ == config_call_stmt(old(self)@, expr).0,
            r is Some == config_call_stmt(old(self)@, expr).1,
        decreases *expr, 16int,
    {
        let call = match &expr.kind {
            ExprKind::Call(c) => c,
            _ => {
                return None;
            },
        };
        let policy = match self.resolve_call_policy(&call.func) {
            Some(policy) => policy,
            None => {
                return None;
            },
        };
        if call.args.len() > MAX_HELPER_CALL_ARITY {
            return None;
        }
        let none: Vec<Binding> = Vec::new();
        assert(none@ =~= seq![]);
        let args = match self.lower_call_args(&call.args, none) {
            Some(args) => args,
            None => {
                return None;
            },
        };
        self.finish_call_stmt(&call.func, &args, policy)
    }

    /// The stand-in of an I/O function.
    fn io_shim_of(&self, func: &Expr) -> (r: Option<&'a String>)
        ensures
            match r {
                Some(s) => io_shim(self@.ctx.config, *func) == Some(*s),
                None => io_shim(self@.ctx.config, *func) is None,
            },
    {
        proof {
            reveal(io_shim);
        }
        match self.ctx.config {
            Some(config) => match canonical_expr_segments(func) {
                Some(segments) => shim_for(&config.io_shims, &segments),
                None => None,
            },
            None => None,
        }
    }

    fn emit_shim_call(&mut self, shim: &'a String, b: Binding)
        ensures
            final(self)@ == shim_call(old(self)@, shim, b),
    {
        proof {
            reveal(shim_call);
        }
        let first = Binding::new_fixed(BindingKind::Int, b.reg);
        let args = vec![first];
        assert(args@ =~= seq![first]);
        self.emit_policy_call(
            CallTarget::Shim(shim),
            CallFamily::Residual,
            CallResultKind::Void,
            &args,
            0,
        );
    }

    /// The value of an expression or of what it borrows.
    fn lower_referent(&mut self, expr: &'a Expr) -> (r: Option<Binding>)
        ensures
            final(self)@ == referent_value(old(self)@, expr).0,
            r == referent_value(old(self)@, expr).1,
        decreases *expr, 13int,
    {
        match &expr.kind {
            ExprKind::Reference(x) => self.lower_value_expr(x),
            _ => self.lower_value_expr(expr),
        }
    }

    /// An I/O call becomes a call of its stand-in with the first argument.
    pub fn lower_io_call_stmt(&mut self, expr: &'a Expr) -> (r: Option<()>)
        ensures
            final(self)@ == io_call_stmt(old(self)@, expr).0,
            r is Some == io_call_stmt(old(self)@, expr).1,
        decreases *expr, 16int,
    {
        let call = match &expr.kind {
            ExprKind::Call(c) => c,
            _ => {
                return None;
            },
        };
        let shim = match self.io_shim_of(&call.func) {
            Some(shim) => shim,
            None => {
                return None;
            },
        };
        if call.args.len() == 0 {
            return None;
        }
        match self.lower_referent(&call.args[0]) {
            Some(b) => {
                self.emit_shim_call(shim, b);
                Some(())
            },
            None => None,
        }
    }
}

} // verus!
