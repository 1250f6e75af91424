//! Evaluation of Lua policy descriptors into typed decisions.

use vstd::prelude::*;
use crate::decision::{check_rename, valid_rename, Decision, DescriptorError};

verus! {

#[verifier::external_type_specification]
#[verifier::external_body]
pub struct ExLua(mlua::Lua);

#[verifier::external_type_specification]
#[verifier::external_body]
pub struct ExValue(mlua::Value);

#[verifier::external_type_specification]
#[verifier::external_body]
pub struct ExTable(mlua::Table);

#[verifier::external_type_specification]
#[verifier::external_body]
pub struct ExFunction(mlua::Function);

#[verifier::external_type_specification]
#[verifier::external_body]
pub struct ExError(mlua::Error);

/// The kinds of value that a descriptor's result is told apart by.
enum ScriptValue {
    Boolean(bool),
    Table(mlua::Table),
    Other(mlua::Value),
}

/// What a descriptor returned, with a table's fields already read.
pub enum Shape {
    Boolean(bool),
    /// A table, with its `rename_to` string and `transform` function if present.
    Table(Option<String>, Option<mlua::Function>),
    /// Any other value.
    Other(mlua::Value),
}

/// A descriptor's verdict before its transform, if any, has been run on the
/// source file's content.
pub enum Verdict {
    /// The decision is complete.
    Ready(Decision),
    /// The entry is kept, under the given rename; its content comes from the function.
    NeedsTransform(Option<String>, mlua::Function),
}

impl Verdict {
    pub open spec fn wf(&self) -> bool {
        match self {
            Verdict::Ready(d) => d.wf(),
            Verdict::NeedsTransform(rename_to, _) => rename_to matches Some(n) ==> valid_rename(
                n@,
            ),
        }
    }
}

#[verifier::external_type_specification]
#[verifier::external_body]
pub struct ExChunk<'a>(mlua::Chunk<'a>);

/// Relies on mlua's `Lua::load`: prepares `source` as a chunk of `lua`.
#[verifier::external_body]
fn load_chunk<'a>(lua: &mlua::Lua, source: &'a str) -> mlua::Chunk<'a> {
    lua.load(source)
}

/// Relies on mlua's `Chunk::set_name`: names the chunk in error messages.
#[verifier::external_body]
fn named_chunk<'a>(chunk: mlua::Chunk<'a>, name: &str) -> mlua::Chunk<'a> {
    chunk.set_name(name)
}

/// Relies on mlua's `Chunk::eval`: runs the chunk and returns its first result.
#[verifier::external_body]
fn eval_chunk<'a>(chunk: mlua::Chunk<'a>) -> Result<mlua::Value, mlua::Error> {
    chunk.eval::<mlua::Value>()
}

/// Relies on the variants of mlua's `Value`: tells booleans and tables apart
/// from every other value.
#[verifier::external_body]
fn shape_of(v: mlua::Value) -> ScriptValue {
    match v {
        mlua::Value::Boolean(b) => ScriptValue::Boolean(b),
        mlua::Value::Table(t) => ScriptValue::Table(t),
        other => ScriptValue::Other(other),
    }
}

/// Relies on mlua's `Table::get` read as an optional string; a missing field,
/// a field of another type or a failing lookup all give `None`.
#[verifier::external_body]
fn table_string(t: &mlua::Table, key: &str) -> Option<String> {
    t.get::<Option<String>>(key).ok().flatten()
}

/// Relies on mlua's `Table::get` read as an optional function; a missing
/// field, a field of another type or a failing lookup all give `None`.
#[verifier::external_body]
fn table_function(t: &mlua::Table, key: &str) -> Option<mlua::Function> {
    t.get::<Option<mlua::Function>>(key).ok().flatten()
}

/// Relies on mlua's `Function::call`: calls `f` with one string and reads its
/// first result as a string.
#[verifier::external_body]
fn call_with_text(f: &mlua::Function, arg: String) -> Result<String, mlua::Error> {
    f.call::<String>(arg)
}

/// Relies on the `Display` impl of mlua's `Error`: its message.
#[verifier::external_body]
fn error_text(e: &mlua::Error) -> String {
    e.to_string()
}

/// `r` is the verdict owed for a table with the given `rename_to` and
/// `transform` fields.
pub open spec fn table_verdict_is(
    rename_to: Option<String>,
    transform: Option<mlua::Function>,
    r: Result<Verdict, DescriptorError>,
) -> bool {
    &&& (r is Ok) <==> (rename_to matches Some(n) ==> valid_rename(n@))
    &&& (r matches Err(e) ==> (rename_to matches Some(n) && (e matches DescriptorError::RenameEmpty
        <==> n@.len() == 0) && (e matches DescriptorError::RenameHasSeparator(m) <==> n@.len()
        != 0) && (e matches DescriptorError::RenameHasSeparator(m) ==> m@ == n@)))
    &&& (r matches Ok(v) ==> v.wf())
    &&& (r matches Ok(Verdict::Ready(d))) <==> (r is Ok && transform.is_none())
    &&& (r matches Ok(Verdict::Ready(d)) ==> d.keep && d.rename_to == rename_to
        && d.transform.is_none())
    &&& (r matches Ok(Verdict::NeedsTransform(n, f)) ==> n == rename_to && transform == Some(f))
}

/// The verdict for a descriptor that returned a table with the given
/// `rename_to` and `transform` fields; the rename is checked first.
pub fn table_verdict(rename_to: Option<String>, transform: Option<mlua::Function>) -> (r: Result<
    Verdict,
    DescriptorError,
>)
    ensures
        table_verdict_is(rename_to, transform, r),
{
    if let Some(name) = &rename_to {
        match check_rename(name.as_str()) {
            Ok(()) => {},
            Err(e) => {
                return Err(e);
            },
        }
    }
    match transform {
        None => Ok(Verdict::Ready(Decision { keep: true, rename_to, transform: None })),
        Some(f) => Ok(Verdict::NeedsTransform(rename_to, f)),
    }
}

/// The verdict for what a descriptor's evaluation gave: its value, or the
/// message of the failure to load or run it.
pub fn settle(shape: Result<Shape, String>) -> (r: Result<Verdict, DescriptorError>)
    ensures
        shape matches Err(m) ==> (r matches Err(DescriptorError::EvalFailed(m2)) && m2@ == m@),
        shape matches Ok(Shape::Boolean(b)) ==> (r matches Ok(Verdict::Ready(d)) && d.keep == b
            && d.rename_to.is_none() && d.transform.is_none()),
        shape matches Ok(Shape::Other(_)) ==> r matches Err(DescriptorError::WrongType(_)),
        shape matches Ok(Shape::Table(n, t)) ==> table_verdict_is(n, t, r),
        r matches Ok(v) ==> v.wf(),
{
    match shape {
        Err(m) => Err(DescriptorError::EvalFailed(m)),
        Ok(Shape::Boolean(b)) => Ok(Verdict::Ready(Decision::from_bool(b))),
        Ok(Shape::Table(n, t)) => table_verdict(n, t),
        Ok(Shape::Other(v)) => Err(DescriptorError::WrongType(v)),
    }
}

/// The decision for a kept entry under `rename_to` whose transform gave
/// `out`: its content, or the message of its failure.
pub fn transformed_decision(rename_to: Option<String>, out: Result<String, String>) -> (r: Result<
    Decision,
    DescriptorError,
>)
    ensures
        out matches Ok(c) ==> (r matches Ok(d) && d.keep && d.rename_to == rename_to
            && d.transform == Some(c)),
        out matches Err(m) ==> (r matches Err(DescriptorError::TransformFailed(m2)) && m2@ == m@),
{
    match out {
        Ok(c) => Ok(Decision { keep: true, rename_to, transform: Some(c) }),
        Err(m) => Err(DescriptorError::TransformFailed(m)),
    }
}

/// Runs a descriptor's source and interprets what it returns: a boolean, or a
/// table with optional `rename_to` and `transform` fields. A transform is
/// called once, on `source_text`, the described file's content as read (or
/// the message of the failure to read it, an error only when a transform
/// needs it).
pub fn evaluate_descriptor(
    lua: &mlua::Lua,
    source: &str,
    name: &str,
    source_text: Result<String, String>,
) -> (r: Result<Decision, DescriptorError>)
    ensures
        r matches Ok(d) ==> d.wf(),
        r matches Ok(d) && d.transform is Some ==> source_text is Ok,
        r matches Err(DescriptorError::SourceUnreadable(m)) ==> (source_text matches Err(m2)
            && m@ == m2@),
{
    let evaluated = match eval_chunk(named_chunk(load_chunk(lua, source), name)) {
        Ok(v) => Ok(
            match shape_of(v) {
                ScriptValue::Boolean(b) => Shape::Boolean(b),
                ScriptValue::Table(t) => Shape::Table(
                    table_string(&t, "rename_to"),
                    table_function(&t, "transform"),
                ),
                ScriptValue::Other(v) => Shape::Other(v),
            },
        ),
        Err(e) => Err(error_text(&e)),
    };
    match settle(evaluated) {
        Err(e) => Err(e),
        Ok(Verdict::Ready(d)) => Ok(d),
        Ok(Verdict::NeedsTransform(rename_to, f)) => match source_text {
            Err(m) => Err(DescriptorError::SourceUnreadable(m)),
            Ok(text) => {
                let out = match call_with_text(&f, text) {
                    Ok(c) => Ok(c),
                    Err(e) => Err(error_text(&e)),
                };
                transformed_decision(rename_to, out)
            },
        },
    }
}

} // verus!
