use rcalc::symbols::{SymbolError, SymbolTable};

fn assert_close(a: f64, b: f64) {
    assert!(f64::abs(a - b) < 1e-6);
}

#[test]
fn success() {
    let name = "a";
    let a = 1.0;
    let mut symbols = SymbolTable::<f64>::new();
    assert_eq!(symbols.define(name, a), Ok(()));
    let a_result_from_symbols = symbols.get(name);
    assert!(a_result_from_symbols.is_ok());
    if let Ok(a_from_symbols) = a_result_from_symbols {
        assert_close(a_from_symbols, a);
    }
}

#[test]
fn redefined() {
    let name = "a";
    let a = 1.0;
    let mut symbols = SymbolTable::<f64>::new();
    assert_eq!(symbols.define(name, a), Ok(()));
    assert_eq!(symbols.define(name, a), Err(SymbolError::ReDefinition));
}

#[test]
fn undefined() {
    let name = "a";
    let mut symbols = SymbolTable::<f64>::new();
    assert_eq!(symbols.get(name), Err(SymbolError::UnDefinition));
}

#[test]
fn first_definition_stays() {
    let mut symbols = SymbolTable::<i32>::new();
    assert_eq!(symbols.define("a", 1), Ok(()));
    assert_eq!(symbols.define("a", 2), Err(SymbolError::ReDefinition));
    assert_eq!(symbols.get("a"), Ok(1));
    assert_eq!(symbols.define("b", 3), Ok(()));
    assert_eq!(symbols.get("a"), Ok(1));
    assert_eq!(symbols.get("b"), Ok(3));
    assert_eq!(symbols.get("c"), Err(SymbolError::UnDefinition));
    assert_eq!(symbols.get(""), Err(SymbolError::UnDefinition));
    assert_eq!(symbols.get("A"), Err(SymbolError::UnDefinition));
}

#[test]
fn define_all_stops_at_the_first_clash() {
    let mut symbols = SymbolTable::<i32>::new();
    assert_eq!(symbols.define_all(vec![]), Ok(()));
    assert_eq!(symbols.define_all(vec![("a", 1), ("b", 2)]), Ok(()));
    assert_eq!(
        symbols.define_all(vec![("c", 3), ("a", 4), ("d", 5)]),
        Err(SymbolError::ReDefinition)
    );
    assert_eq!(symbols.get("a"), Ok(1));
    assert_eq!(symbols.get("b"), Ok(2));
    assert_eq!(symbols.get("c"), Ok(3));
    assert_eq!(symbols.get("d"), Err(SymbolError::UnDefinition));
    assert_eq!(
        symbols.define_all(vec![("x", 1), ("x", 2)]),
        Err(SymbolError::ReDefinition)
    );
    assert_eq!(symbols.get("x"), Ok(1));
}
