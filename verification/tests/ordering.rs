use sorted_locks::emit::Statement;
use sorted_locks::mode::Mode;
use sorted_locks::order::order_requests;
use sorted_locks::request::Request;
use sorted_locks::text::{str_eq, str_lt};
use sorted_locks::token::Token;
use sorted_locks::sorted_locks_text;

fn req(name: &str, mode: Mode) -> Request {
    Request { name: String::from(name), mode }
}

fn ident(s: &str) -> Token {
    Token::Ident(String::from(s))
}

fn comma() -> Token {
    Token::Punct(',')
}

#[test]
fn mode_tiebreak_read_precedes_write() {
    // Same resource name: the mode rank decides, whatever the input order.
    let plan_a = order_requests(vec![req("x", Mode::Write), req("x", Mode::Read)]);
    let plan_b = order_requests(vec![req("x", Mode::Read), req("x", Mode::Write)]);
    for plan in [plan_a, plan_b] {
        assert_eq!(plan.len(), 2);
        assert_eq!(plan[0].mode, Mode::Read);
        assert_eq!(plan[1].mode, Mode::Write);
    }
}

#[test]
fn full_mode_rank_order_on_one_name() {
    let plan = order_requests(vec![
        req("x", Mode::Lock),
        req("x", Mode::Read),
        req("x", Mode::Write),
        req("x", Mode::ReadClone),
    ]);
    let modes: Vec<Mode> = plan.iter().map(|r| r.mode).collect();
    assert_eq!(modes, vec![Mode::Read, Mode::ReadClone, Mode::Write, Mode::Lock]);
}

#[test]
fn name_comparison_dominates_mode_comparison() {
    // ("b", Lock) vs ("a", Read): "a" wins on name even though its mode
    // rank is the lowest of all.
    let plan = order_requests(vec![req("b", Mode::Lock), req("a", Mode::Read)]);
    assert_eq!(plan[0].name, "a");
    assert_eq!(plan[0].mode, Mode::Read);
    assert_eq!(plan[1].name, "b");
    assert_eq!(plan[1].mode, Mode::Lock);
}

#[test]
fn permutations_give_identical_plans() {
    let tokens_a = vec![
        ident("beta"),
        ident("write"),
        comma(),
        ident("alpha"),
        ident("read"),
        comma(),
        ident("gamma"),
        ident("lock"),
    ];
    let tokens_b = vec![
        ident("gamma"),
        ident("lock"),
        comma(),
        ident("beta"),
        ident("write"),
        comma(),
        ident("alpha"),
        ident("read"),
    ];
    let tokens_c = vec![
        ident("alpha"),
        ident("read"),
        comma(),
        ident("gamma"),
        ident("lock"),
        comma(),
        ident("beta"),
        ident("write"),
    ];
    let out_a = sorted_locks_text(&tokens_a).unwrap();
    let out_b = sorted_locks_text(&tokens_b).unwrap();
    let out_c = sorted_locks_text(&tokens_c).unwrap();
    assert_eq!(out_a, out_b);
    assert_eq!(out_b, out_c);
}

#[test]
fn proper_prefix_comes_first() {
    let plan = order_requests(vec![req("abc", Mode::Read), req("ab", Mode::Write)]);
    assert_eq!(plan[0].name, "ab");
    assert_eq!(plan[1].name, "abc");
}

#[test]
fn order_is_stable_under_rerun() {
    let reqs = || {
        vec![
            req("b", Mode::Read),
            req("a", Mode::Lock),
            req("b", Mode::Read),
            req("a", Mode::Write),
        ]
    };
    let once: Vec<(String, Mode)> =
        order_requests(reqs()).into_iter().map(|r| (r.name, r.mode)).collect();
    let twice: Vec<(String, Mode)> =
        order_requests(reqs()).into_iter().map(|r| (r.name, r.mode)).collect();
    assert_eq!(once, twice);
    let expected = vec![
        (String::from("a"), Mode::Write),
        (String::from("a"), Mode::Lock),
        (String::from("b"), Mode::Read),
        (String::from("b"), Mode::Read),
    ];
    assert_eq!(once, expected);
}

#[test]
fn str_lt_orders_by_codepoint() {
    assert!(str_lt("alpha", "beta"));
    assert!(!str_lt("beta", "alpha"));
    assert!(str_lt("", "a"));
    assert!(!str_lt("a", ""));
    assert!(str_lt("ab", "abc"));
    assert!(!str_lt("abc", "ab"));
    assert!(!str_lt("same", "same"));
    assert!(str_lt("A", "a"));
}

#[test]
fn str_eq_compares_contents() {
    assert!(str_eq("lock", "lock"));
    assert!(!str_eq("lock", "Lock"));
    assert!(!str_eq("lock", "loc"));
    assert!(str_eq("", ""));
}

#[test]
fn render_gives_the_statement_text() {
    let s = Statement { target: String::from("cache"), mode: Mode::ReadClone };
    assert_eq!(
        s.render(),
        "let cache = self.cache.read().expect(\"must read\").clone();"
    );
}
