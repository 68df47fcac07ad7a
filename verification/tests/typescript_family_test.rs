use egg_stitch::decimal::{parse_i32_at, parse_u32_at, push_i32, push_u32};
use egg_stitch::lang::{TsOp, Weights};

#[test]
fn ts_op_round_trips_the_ops_the_family_builds() {
    assert_eq!(TsOp::from_name("app"), TsOp::App);
    assert_eq!(TsOp::from_name("lam2"), TsOp::Lam(2));
    assert_eq!(TsOp::App.to_string(), "app");
    assert_eq!(TsOp::Lam(2).to_string(), "lam2");
}

#[test]
fn from_name_reads_the_built_in_words() {
    assert_eq!(TsOp::from_name("define"), TsOp::Define);
    assert_eq!(TsOp::from_name("done"), TsOp::Done);
    assert_eq!(TsOp::from_name("app"), TsOp::App);
    assert_eq!(TsOp::from_name("apps"), TsOp::Sym("apps"));
    assert_eq!(TsOp::from_name("defin"), TsOp::Sym("defin"));
    assert_eq!(TsOp::from_name(""), TsOp::Sym(""));
}

#[test]
fn from_name_reads_binders() {
    assert_eq!(TsOp::from_name("lam0"), TsOp::Lam(0));
    assert_eq!(TsOp::from_name("lam17"), TsOp::Lam(17));
    assert_eq!(TsOp::from_name("lam+3"), TsOp::Lam(3));
    assert_eq!(TsOp::from_name("lam007"), TsOp::Lam(7));
    assert_eq!(TsOp::from_name("lam4294967295"), TsOp::Lam(u32::MAX));
    assert_eq!(TsOp::from_name("lam4294967296"), TsOp::Sym("lam4294967296"));
    assert_eq!(TsOp::from_name("lam-1"), TsOp::Sym("lam-1"));
    assert_eq!(TsOp::from_name("lam"), TsOp::Sym("lam"));
    assert_eq!(TsOp::from_name("lam+"), TsOp::Sym("lam+"));
    assert_eq!(TsOp::from_name("lam 2"), TsOp::Sym("lam 2"));
    assert_eq!(TsOp::from_name("lambda"), TsOp::Sym("lambda"));
}

#[test]
fn from_name_reads_de_bruijn_variables() {
    assert_eq!(TsOp::from_name("$0"), TsOp::Var(0));
    assert_eq!(TsOp::from_name("$12"), TsOp::Var(12));
    assert_eq!(TsOp::from_name("$-5"), TsOp::Var(-5));
    assert_eq!(TsOp::from_name("$+5"), TsOp::Var(5));
    assert_eq!(TsOp::from_name("$2147483647"), TsOp::Var(i32::MAX));
    assert_eq!(TsOp::from_name("$-2147483648"), TsOp::Var(i32::MIN));
    assert_eq!(TsOp::from_name("$2147483648"), TsOp::Sym("$2147483648"));
    assert_eq!(TsOp::from_name("$"), TsOp::Sym("$"));
    assert_eq!(TsOp::from_name("$-"), TsOp::Sym("$-"));
    assert_eq!(TsOp::from_name("$x"), TsOp::Sym("$x"));
    assert_eq!(TsOp::from_name("$1a"), TsOp::Sym("$1a"));
}

#[test]
fn from_name_keeps_other_names_as_symbols() {
    let op = TsOp::from_name("fn_0");
    assert_eq!(op, TsOp::Sym("fn_0"));
    assert_eq!(op.to_string(), "fn_0");
    assert_eq!(TsOp::from_name("ÈªëÈ£é").to_string(), "ÈªëÈ£é");
}

#[test]
fn to_string_writes_every_form() {
    assert_eq!(TsOp::Define.to_string(), "define");
    assert_eq!(TsOp::Done.to_string(), "done");
    assert_eq!(TsOp::App.to_string(), "app");
    assert_eq!(TsOp::Lam(0).to_string(), "lam0");
    assert_eq!(TsOp::Lam(u32::MAX).to_string(), "lam4294967295");
    assert_eq!(TsOp::Var(3).to_string(), "$3");
    assert_eq!(TsOp::Var(-40).to_string(), "$-40");
    assert_eq!(TsOp::Var(i32::MIN).to_string(), "$-2147483648");
    assert_eq!(TsOp::Sym("x").to_string(), "x");
}

#[test]
fn names_read_back_as_the_same_operator() {
    let ops = vec![
        TsOp::Define,
        TsOp::Done,
        TsOp::App,
        TsOp::Lam(0),
        TsOp::Lam(3),
        TsOp::Lam(u32::MAX),
        TsOp::Var(0),
        TsOp::Var(-1),
        TsOp::Var(i32::MAX),
        TsOp::Var(i32::MIN),
        TsOp::Sym("f"),
        TsOp::Sym("lambda"),
    ];
    for op in ops {
        assert_eq!(TsOp::from_name(&op.to_string()), op);
    }
}

#[test]
fn a_symbol_named_like_a_built_in_does_not_read_back() {
    assert_eq!(TsOp::from_name(&TsOp::Sym("app").to_string()), TsOp::App);
    assert_eq!(TsOp::from_name(&TsOp::Sym("$1").to_string()), TsOp::Var(1));
}

#[test]
fn intrinsic_size_charges_each_node_kind_its_cost() {
    let w = Weights { sym_var_cost: 2, app_cost: 5, lam_cost: 7 };
    assert_eq!(TsOp::App.intrinsic_size(&w), 5);
    assert_eq!(TsOp::Lam(3).intrinsic_size(&w), 7);
    assert_eq!(TsOp::Lam(1).intrinsic_size(&w), 7);
    assert_eq!(TsOp::Lam(0).intrinsic_size(&w), 7);
    assert_eq!(TsOp::Var(0).intrinsic_size(&w), 2);
    assert_eq!(TsOp::Define.intrinsic_size(&w), 2);
    assert_eq!(TsOp::Done.intrinsic_size(&w), 2);
    assert_eq!(TsOp::Sym("f").intrinsic_size(&w), 2);
}

#[test]
fn binds_child_counts_binders() {
    assert_eq!(TsOp::Lam(3).binds_child(0), 3);
    assert_eq!(TsOp::Lam(3).binds_child(1), 0);
    assert_eq!(TsOp::Define.binds_child(1), 1);
    assert_eq!(TsOp::Define.binds_child(0), 0);
    assert_eq!(TsOp::Define.binds_child(2), 0);
    assert_eq!(TsOp::App.binds_child(0), 0);
    assert_eq!(TsOp::Var(0).binds_child(0), 0);
}

#[test]
fn de_bruijn_variables_know_their_index() {
    assert_eq!(TsOp::Var(4).de_bruijn_index(), Some(4));
    assert_eq!(TsOp::Var(-2).de_bruijn_index(), Some(-2));
    assert_eq!(TsOp::Lam(4).de_bruijn_index(), None);
    assert_eq!(TsOp::Sym("x").de_bruijn_index(), None);
    let v = TsOp::make_db_var(9).expect("every index has a variable");
    assert_eq!(v, TsOp::Var(9));
    assert_eq!(v.de_bruijn_index(), Some(9));
    assert_eq!(v.binds_child(0), 0);
}

#[test]
fn no_operator_is_a_pattern_variable() {
    assert!(TsOp::App.as_var().is_none());
    assert!(TsOp::Var(0).as_var().is_none());
    assert!(TsOp::Sym("?x").as_var().is_none());
}

#[test]
fn decimal_notation_matches_display() {
    for n in [0u32, 7, 10, 99, 100, 65536, u32::MAX] {
        let mut s = String::from("#");
        push_u32(&mut s, n);
        assert_eq!(s, format!("#{}", n));
    }
    for n in [0i32, -1, 9, -10, 12345, i32::MAX, i32::MIN] {
        let mut s = String::new();
        push_i32(&mut s, n);
        assert_eq!(s, n.to_string());
    }
}

#[test]
fn decimal_reading_matches_parse() {
    let cases = ["", "+", "-", "0", "+0", "-0", "007", "12a", " 1", "4294967295", "4294967296", "2147483647", "2147483648", "-2147483648", "-2147483649", "+-1", "1_0"];
    for s in cases {
        let cs: Vec<char> = s.chars().collect();
        assert_eq!(parse_u32_at(&cs, 0), s.parse::<u32>().ok(), "u32 {s:?}");
        assert_eq!(parse_i32_at(&cs, 0), s.parse::<i32>().ok(), "i32 {s:?}");
    }
    let cs: Vec<char> = "lam42".chars().collect();
    assert_eq!(parse_u32_at(&cs, 3), Some(42));
    assert_eq!(parse_i32_at(&cs, 5), None);
}

#[test]
fn a_binder_costs_lam_cost_however_many_variables_it_binds() {
    let w = Weights { sym_var_cost: 1, app_cost: 1, lam_cost: 7 };
    for n in 1..=5u32 {
        assert_eq!(TsOp::Lam(n).intrinsic_size(&w), 7);
    }
    assert_eq!(TsOp::Lam(u32::MAX).intrinsic_size(&w), 7);
}
