//! Runtime values: the tagged union the evaluator produces and environments
//! store, together with its specification-level mirror.

use vstd::prelude::*;

verus! {

use vstd::string::StringExecFns;
use crate::ast::{BlockStatement, StmtV, render_stmts, view_of_stmts};
use crate::text::{i64_to_string, join_comma, joined, render_i64};
use crate::environment::{EnvV, Environment};

/// A runtime value. `Return` is a control-flow wrapper that statement
/// sequencing unwraps; `Error` is a terminal fault value that short-circuits
/// evaluation once produced.
#[derive(Debug, PartialEq)]
pub enum Object {
    Int(i64),
    Boolean(bool),
    Null,
    Return(Box<Object>),
    Function { parameters: Vec<String>, body: BlockStatement, environment: Environment },
    Error(String),
}

/// Specification-level mirror of an [`Object`].
pub enum ObjV {
    Int(i64),
    Boolean(bool),
    Null,
    Return(Box<ObjV>),
    Function { parameters: Seq<Seq<char>>, body: Seq<StmtV>, environment: EnvV },
    Error(Seq<char>),
}

/// The mirror of a runtime value.
pub open spec fn view_of_obj(o: Object) -> ObjV
    decreases o,
{
    match o {
        Object::Int(value) => ObjV::Int(value),
        Object::Boolean(value) => ObjV::Boolean(value),
        Object::Null => ObjV::Null,
        Object::Return(inner) => ObjV::Return(Box::new(view_of_obj(*inner))),
        Object::Function { parameters, body, environment } => ObjV::Function {
            parameters: parameters.deep_view(),
            body: view_of_stmts(body.statements@),
            environment: crate::environment::view_of_env(environment),
        },
        Object::Error(message) => ObjV::Error(message@),
    }
}

impl DeepView for Object {
    type V = ObjV;

    open spec fn deep_view(&self) -> ObjV {
        view_of_obj(*self)
    }
}

/// The name of a value's runtime type, as it appears in error messages.
pub open spec fn type_label(o: ObjV) -> Seq<char> {
    match o {
        ObjV::Int(_) => "INTEGER"@,
        ObjV::Boolean(_) => "BOOLEAN"@,
        ObjV::Null => "NULL"@,
        ObjV::Return(_) => "RETURN"@,
        ObjV::Function { .. } => "FUNCTION"@,
        ObjV::Error(_) => "ERROR"@,
    }
}

impl Object {
    /// The name of this value's runtime type. Total: every variant has a
    /// name, so building an error message can never itself fault.
    pub fn type_info(&self) -> (r: String)
        ensures
            r@ == type_label(self.deep_view()),
    {
        match self {
            Object::Int(_) => String::from_str("INTEGER"),
            Object::Boolean(_) => String::from_str("BOOLEAN"),
            Object::Null => String::from_str("NULL"),
            Object::Return(_) => String::from_str("RETURN"),
            Object::Function { .. } => String::from_str("FUNCTION"),
            Object::Error(_) => String::from_str("ERROR"),
        }
    }
}

/// The canonical rendering of a runtime value; errors render as
/// `Error: <message>`, an in-flight `Return` as the value it carries.
pub open spec fn render_obj(o: ObjV) -> Seq<char>
    decreases o,
{
    match o {
        ObjV::Int(value) => render_i64(value),
        ObjV::Boolean(value) => if value {
            "true"@
        } else {
            "false"@
        },
        ObjV::Null => "null"@,
        ObjV::Return(inner) => render_obj(*inner),
        ObjV::Function { parameters, body, environment } => "fn ("@ + joined(parameters)
            + ") { "@ + render_stmts(body) + " }"@,
        ObjV::Error(message) => "Error: "@ + message,
    }
}

impl Object {
    /// Canonical stringification of a runtime value; errors render as
    /// `Error: <message>`.
    pub fn to_string(&self) -> (r: String)
        ensures
            r@ == render_obj(self.deep_view()),
        decreases self,
    {
        match self {
            Object::Int(value) => i64_to_string(*value),
            Object::Boolean(value) => {
                if *value {
                    String::from_str("true")
                } else {
                    String::from_str("false")
                }
            },
            Object::Null => String::from_str("null"),
            Object::Return(inner) => (&**inner).to_string(),
            Object::Function { parameters, body, environment: _ } => {
                let mut out = String::from_str("fn (");
                let params = join_comma(parameters);
                out.append(params.as_str());
                out.append(") { ");
                let body_rendered = body.to_string();
                out.append(body_rendered.as_str());
                out.append(" }");
                out
            },
            Object::Error(message) => {
                let mut out = String::from_str("Error: ");
                out.append(message.as_str());
                out
            },
        }
    }
}

impl Clone for Object {
    fn clone(&self) -> (r: Self)
        ensures
            r.deep_view() == self.deep_view(),
        decreases self,
    {
        match self {
            Object::Int(value) => Object::Int(*value),
            Object::Boolean(value) => Object::Boolean(*value),
            Object::Null => Object::Null,
            Object::Return(inner) => Object::Return(Box::new((&**inner).clone())),
            Object::Function { parameters, body, environment } => Object::Function {
                parameters: crate::ast::clone_names(parameters),
                body: body.clone(),
                environment: environment.clone(),
            },
            Object::Error(message) => Object::Error(message.clone()),
        }
    }
}

} // verus!
