use simple_lisp::error::CompileError;
use simple_lisp::pool::ConstantPool;
use simple_lisp::pool::find_str;

#[test]
fn pushing_twice_gives_the_same_index() {
    let mut pool = ConstantPool::new();
    pool.str_push("a").unwrap();
    pool.str_push("b").unwrap();
    let first = pool.str_index("b");
    pool.str_push("b").unwrap();
    assert_eq!(pool.str_index("b"), first);
    assert_eq!(first, 1);
    assert_eq!(pool.len(), 2);
    assert_eq!(pool.strings, vec!["a", "b"]);
}

#[test]
fn distinct_strings_get_consecutive_indices() {
    let mut pool = ConstantPool::new();
    let names = ["zeta", "alpha", "", "mid", "Alpha"];
    for name in names {
        pool.str_push(name).unwrap();
    }
    for (i, name) in names.iter().enumerate() {
        assert_eq!(pool.str_index(name) as usize, i);
        assert_eq!(pool.find(name), Some(i));
    }
    assert_eq!(pool.find("beta"), None);
}

#[test]
fn intern_returns_the_index_of_first_insertion() {
    let mut pool = ConstantPool::new();
    assert_eq!(pool.intern("x"), Ok(0));
    assert_eq!(pool.intern("y"), Ok(1));
    assert_eq!(pool.intern("x"), Ok(0));
    assert_eq!(pool.intern("z"), Ok(2));
    assert_eq!(pool.len(), 3);
}

#[test]
fn a_full_pool_refuses_new_strings_only() {
    let mut pool = ConstantPool::new();
    // filled directly: pushing one by one would compare each string with all before it
    for i in 0..65536 {
        pool.strings.push(format!("s{}", i));
    }
    assert_eq!(pool.len(), 65536);
    assert_eq!(pool.str_push("one more"), Err(CompileError::CapacityOverflow));
    assert_eq!(pool.intern("one more"), Err(CompileError::CapacityOverflow));
    assert_eq!(pool.len(), 65536);
    assert_eq!(pool.str_push("s7"), Ok(()));
    assert_eq!(pool.intern("s65535"), Ok(65535));
}

#[test]
fn find_str_finds_the_first_occurrence() {
    let v = vec!["a".to_string(), "b".to_string(), "a".to_string()];
    assert_eq!(find_str(&v, "a"), Some(0));
    assert_eq!(find_str(&v, "b"), Some(1));
    assert_eq!(find_str(&v, "c"), None);
    assert_eq!(find_str(&Vec::new(), "a"), None);
}
