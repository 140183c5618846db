use exp_lang::ast::Ident;
use exp_lang::interpreter::scope::{AssignError, Scope};
use exp_lang::interpreter::{Kind, Primitive};

fn name(text: &str) -> Ident {
    Ident(text.to_string())
}

#[test]
fn new_scope_binds_nothing() {
    let scope = Scope::new();
    assert_eq!(scope.get(&name("x")), None);
    assert_eq!(scope.get(&name("")), None);
}

#[test]
fn define_then_get_gives_the_value() {
    let mut scope = Scope::new();
    scope.define(name("x"), Primitive::Number(1));
    scope.define(name("y"), Primitive::Bool(true));
    assert_eq!(scope.get(&name("x")), Some(Primitive::Number(1)));
    assert_eq!(scope.get(&name("y")), Some(Primitive::Bool(true)));
    assert_eq!(scope.get(&name("z")), None);
}

#[test]
fn define_again_replaces_even_with_another_kind() {
    let mut scope = Scope::new();
    scope.define(name("x"), Primitive::Number(1));
    scope.define(name("x"), Primitive::String("s".to_string()));
    assert_eq!(scope.get(&name("x")), Some(Primitive::String("s".to_string())));
}

#[test]
fn names_are_compared_by_their_text() {
    let mut scope = Scope::new();
    scope.define(name("value"), Primitive::Number(1));
    let mut other = String::from("val");
    other.push_str("ue");
    assert_eq!(scope.get(&Ident(other)), Some(Primitive::Number(1)));
    assert_eq!(scope.get(&name("Value")), None);
    assert_eq!(scope.get(&name("valu")), None);
}

#[test]
fn inner_frame_shadows_and_delete_uncovers() {
    let mut scope = Scope::new();
    scope.define(name("x"), Primitive::Number(1));
    scope.create();
    assert_eq!(scope.get(&name("x")), Some(Primitive::Number(1)));
    scope.define(name("x"), Primitive::Number(2));
    scope.define(name("y"), Primitive::Number(3));
    assert_eq!(scope.get(&name("x")), Some(Primitive::Number(2)));
    scope.delete();
    assert_eq!(scope.get(&name("x")), Some(Primitive::Number(1)));
    assert_eq!(scope.get(&name("y")), None);
}

#[test]
fn assign_replaces_the_innermost_binding_only() {
    let mut scope = Scope::new();
    scope.define(name("x"), Primitive::Number(1));
    scope.create();
    scope.define(name("x"), Primitive::Number(2));
    scope.create();
    assert_eq!(scope.assign(&name("x"), Primitive::Number(9)), Ok(()));
    assert_eq!(scope.get(&name("x")), Some(Primitive::Number(9)));
    scope.delete();
    assert_eq!(scope.get(&name("x")), Some(Primitive::Number(9)));
    scope.delete();
    assert_eq!(scope.get(&name("x")), Some(Primitive::Number(1)));
}

#[test]
fn assign_of_another_kind_is_refused_and_changes_nothing() {
    let mut scope = Scope::new();
    scope.define(name("x"), Primitive::Number(1));
    assert_eq!(
        scope.assign(&name("x"), Primitive::Bool(true)),
        Err(AssignError::TypeMismatch)
    );
    assert_eq!(scope.get(&name("x")), Some(Primitive::Number(1)));
}

#[test]
fn assign_goes_by_the_innermost_binding_even_where_an_outer_one_would_fit() {
    let mut scope = Scope::new();
    scope.define(name("x"), Primitive::Bool(false));
    scope.create();
    scope.define(name("x"), Primitive::Number(1));
    assert_eq!(
        scope.assign(&name("x"), Primitive::Bool(true)),
        Err(AssignError::TypeMismatch)
    );
    scope.delete();
    assert_eq!(scope.get(&name("x")), Some(Primitive::Bool(false)));
}

#[test]
fn assign_to_an_unbound_name_is_refused_and_binds_nothing() {
    let mut scope = Scope::new();
    assert_eq!(
        scope.assign(&name("x"), Primitive::Number(1)),
        Err(AssignError::UndefinedVariable)
    );
    assert_eq!(scope.get(&name("x")), None);
}

#[test]
fn assign_compares_kinds_not_values() {
    let mut scope = Scope::new();
    scope.define(name("a"), Primitive::Array(vec![]));
    assert_eq!(
        scope.assign(&name("a"), Primitive::Array(vec![Primitive::Number(1)])),
        Ok(())
    );
    scope.define(name("r"), Primitive::Range { begin: 0, fin: None });
    assert_eq!(
        scope.assign(&name("r"), Primitive::Range { begin: 1, fin: Some(2) }),
        Ok(())
    );
    scope.define(name("n"), Primitive::Nothing);
    assert_eq!(scope.assign(&name("n"), Primitive::Nothing), Ok(()));
    assert_eq!(
        scope.assign(&name("n"), Primitive::Number(0)),
        Err(AssignError::TypeMismatch)
    );
}

#[test]
fn each_value_has_its_kind() {
    assert_eq!(Primitive::Number(1).kind(), Kind::Number);
    assert_eq!(Primitive::Bool(true).kind(), Kind::Bool);
    assert_eq!(Primitive::String(String::new()).kind(), Kind::String);
    assert_eq!(Primitive::Array(vec![]).kind(), Kind::Array);
    assert_eq!(Primitive::Range { begin: 0, fin: None }.kind(), Kind::Range);
    assert_eq!(Primitive::Nothing.kind(), Kind::Nothing);
    let function = Primitive::Function {
        args_name: vec![],
        code: exp_lang::ast::Expr::Literal(exp_lang::ast::Literal::Nothing),
    };
    assert_eq!(function.kind(), Kind::Function);
}

#[test]
fn global_split_shows_the_global_frame_only() {
    let mut scope = Scope::new();
    scope.define(name("g"), Primitive::Number(1));
    scope.create();
    scope.define(name("local"), Primitive::Number(2));
    let mut global = scope.create_global();
    {
        let inner = global.get_mut();
        assert_eq!(inner.get(&name("g")), Some(Primitive::Number(1)));
        assert_eq!(inner.get(&name("local")), None);
        inner.define(name("g2"), Primitive::Number(3));
    }
    global.reconstruct(&mut scope);
    assert_eq!(scope.get(&name("local")), Some(Primitive::Number(2)));
    assert_eq!(scope.get(&name("g")), Some(Primitive::Number(1)));
    assert_eq!(scope.get(&name("g2")), Some(Primitive::Number(3)));
    scope.delete();
    assert_eq!(scope.get(&name("local")), None);
    assert_eq!(scope.get(&name("g2")), Some(Primitive::Number(3)));
}

#[test]
fn reconstruct_keeps_the_order_of_the_frames_set_aside() {
    let mut scope = Scope::new();
    scope.define(name("x"), Primitive::Number(0));
    scope.create();
    scope.define(name("x"), Primitive::Number(1));
    scope.create();
    scope.define(name("x"), Primitive::Number(2));
    scope.create();
    scope.define(name("x"), Primitive::Number(3));
    let global = scope.create_global();
    global.reconstruct(&mut scope);
    assert_eq!(scope.get(&name("x")), Some(Primitive::Number(3)));
    scope.delete();
    assert_eq!(scope.get(&name("x")), Some(Primitive::Number(2)));
    scope.delete();
    assert_eq!(scope.get(&name("x")), Some(Primitive::Number(1)));
    scope.delete();
    assert_eq!(scope.get(&name("x")), Some(Primitive::Number(0)));
}

#[test]
fn get_hands_out_a_copy() {
    let mut scope = Scope::new();
    scope.define(name("a"), Primitive::Array(vec![Primitive::Number(1)]));
    let mut copy = scope.get(&name("a")).unwrap();
    if let Primitive::Array(items) = &mut copy {
        items.push(Primitive::Number(2));
    }
    assert_eq!(
        scope.get(&name("a")),
        Some(Primitive::Array(vec![Primitive::Number(1)]))
    );
}
