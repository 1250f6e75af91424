use dotty::decision::{Decision, DescriptorError};
use dotty::script::{evaluate_descriptor, settle, table_verdict, transformed_decision, Shape, Verdict};
use mlua::Lua;

fn eval(script: &str, source: Result<&str, &str>) -> Result<Decision, DescriptorError> {
    let lua = Lua::new();
    let text = source.map(|s| s.to_string()).map_err(|e| e.to_string());
    evaluate_descriptor(&lua, script, "x.lua", text)
}

#[test]
fn boolean_descriptor() {
    let d = eval("return false", Ok("B")).unwrap();
    assert!(!d.keep);
    assert!(d.rename_to.is_none() && d.transform.is_none());
    let d = eval("return true", Err("unread")).unwrap();
    assert!(d.keep && d.rename_to.is_none() && d.transform.is_none());
}

#[test]
fn rename_descriptor() {
    let d = eval("return { rename_to = 'renamed.txt' }", Ok("content")).unwrap();
    assert!(d.keep);
    assert_eq!(d.rename_to.as_deref(), Some("renamed.txt"));
    assert!(d.transform.is_none());
}

#[test]
fn invalid_descriptors_are_errors() {
    assert!(matches!(
        eval("return { rename_to = 'a/b' }", Ok("")),
        Err(DescriptorError::RenameHasSeparator(n)) if n == "a/b"
    ));
    assert!(matches!(eval("return { rename_to = '' }", Ok("")), Err(DescriptorError::RenameEmpty)));
    assert!(matches!(eval("return 42", Ok("")), Err(DescriptorError::WrongType(_))));
    assert!(matches!(eval("return nil", Ok("")), Err(DescriptorError::WrongType(_))));
    assert!(matches!(eval("return (", Ok("")), Err(DescriptorError::EvalFailed(_))));
    assert!(matches!(eval("error('no')", Ok("")), Err(DescriptorError::EvalFailed(_))));
}

#[test]
fn transform_with_rename_to() {
    let script = r#"
        return {
            rename_to = ".config_renamed",
            transform = function(content)
                return content:gsub("old", "new")
            end
        }
    "#;
    let d = eval(script, Ok("old @example.com")).unwrap();
    assert!(d.keep);
    assert_eq!(d.rename_to.as_deref(), Some(".config_renamed"));
    assert_eq!(d.transform.as_deref(), Some("new @example.com"));
}

#[test]
fn failing_transform_is_an_error() {
    let script = "return { transform = function(c) error('boom') end }";
    assert!(matches!(eval(script, Ok("x")), Err(DescriptorError::TransformFailed(_))));
}

#[test]
fn unreadable_source_matters_only_for_a_transform() {
    let script = "return { transform = function(c) return c end }";
    assert!(matches!(
        eval(script, Err("gone")),
        Err(DescriptorError::SourceUnreadable(m)) if m == "gone"
    ));
    let d = eval("return { rename_to = 'n' }", Err("gone")).unwrap();
    assert_eq!(d.rename_to.as_deref(), Some("n"));
}

#[test]
fn rename_is_checked_before_transform_runs() {
    let script = "return { rename_to = 'a/b', transform = function(c) error('never') end }";
    assert!(matches!(eval(script, Ok("x")), Err(DescriptorError::RenameHasSeparator(_))));
}

#[test]
fn table_verdict_without_transform_is_ready() {
    assert!(matches!(
        table_verdict(None, None),
        Ok(Verdict::Ready(d)) if d.keep && d.rename_to.is_none() && d.transform.is_none()
    ));
    assert!(matches!(
        table_verdict(Some("a\\b".to_string()), None),
        Err(DescriptorError::RenameHasSeparator(_))
    ));
}

#[test]
fn settle_each_shape() {
    assert!(matches!(
        settle(Err("bad chunk".to_string())),
        Err(DescriptorError::EvalFailed(m)) if m == "bad chunk"
    ));
    assert!(matches!(
        settle(Ok(Shape::Boolean(false))),
        Ok(Verdict::Ready(d)) if !d.keep && d.rename_to.is_none() && d.transform.is_none()
    ));
    assert!(matches!(
        settle(Ok(Shape::Other(mlua::Value::Integer(1)))),
        Err(DescriptorError::WrongType(_))
    ));
    assert!(matches!(
        settle(Ok(Shape::Table(Some("r.txt".to_string()), None))),
        Ok(Verdict::Ready(d)) if d.keep && d.rename_to.as_deref() == Some("r.txt")
    ));
}

#[test]
fn transformed_decision_keeps_content_or_error() {
    let d = transformed_decision(Some("n".to_string()), Ok("out".to_string())).unwrap();
    assert!(d.keep);
    assert_eq!(d.rename_to.as_deref(), Some("n"));
    assert_eq!(d.transform.as_deref(), Some("out"));
    assert!(matches!(
        transformed_decision(None, Err("boom".to_string())),
        Err(DescriptorError::TransformFailed(m)) if m == "boom"
    ));
}
