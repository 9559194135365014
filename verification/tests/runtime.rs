use map2::eval::{
    eval_block, eval_expr, key_mappings_from, Ambient, Effect, EvalErr,
};
use map2::keys::{syn_report, InputEvent, Key, KeyAction, EV_KEY, TYPE_DOWN, TYPE_UP};
use map2::key_parse::{parse_key_sequence, to_key_actions};
use map2::mediator::{DispatchOut, ExecutionMessage, MediatorState};
use map2::script::{Block, Expr, KeyMapping, MappingTo, Stmt, ValueType, VarMapArena};

const FUEL: u64 = 1_000_000;

fn ev(code: u16, value: i32) -> InputEvent {
    InputEvent { event_type: EV_KEY, code, value }
}

fn actions_of(s: &str) -> Vec<KeyAction> {
    to_key_actions(parse_key_sequence(s).unwrap())
}

fn install(state: &mut MediatorState, token: u64, mappings: Vec<KeyMapping>, env: usize) {
    for m in mappings {
        let r = state.handle_message(ExecutionMessage::AddMapping(
            token,
            m.from,
            None,
            m.to,
            env,
        ));
        assert!(r.is_none());
    }
}

fn expect_emit(out: DispatchOut) -> Vec<InputEvent> {
    match out {
        DispatchOut::Emit(evs) => evs,
        other => panic!("expected a rewrite, got {:?}", other),
    }
}

fn expect_forward(out: DispatchOut) -> InputEvent {
    match out {
        DispatchOut::Forward(e) => e,
        other => panic!("expected a forward, got {:?}", other),
    }
}

fn expect_trigger(out: DispatchOut) -> (Block, usize) {
    match out {
        DispatchOut::Trigger(b, env) => (b, env),
        other => panic!("expected a trigger, got {:?}", other),
    }
}

#[test]
fn plain_click_mapping_rewrites() {
    // a :: b
    let ms = key_mappings_from("a", MappingTo::Actions(actions_of("b"))).unwrap();
    let mut state = MediatorState::new();
    install(&mut state, 0, ms, 0);

    let down = expect_emit(state.dispatch_event(ev(30, TYPE_DOWN)));
    assert_eq!(
        down,
        vec![ev(48, TYPE_DOWN), syn_report(), ev(48, TYPE_UP), syn_report()]
    );
    let up = expect_emit(state.dispatch_event(ev(30, TYPE_UP)));
    assert_eq!(up, vec![]);
}

#[test]
fn capital_mapping_injects_shift() {
    // A :: b
    let ms = key_mappings_from("A", MappingTo::Actions(actions_of("b"))).unwrap();
    let mut state = MediatorState::new();
    install(&mut state, 0, ms, 0);

    let down = expect_emit(state.dispatch_event(ev(30, TYPE_DOWN)));
    assert_eq!(
        down,
        vec![
            ev(42, TYPE_DOWN),
            syn_report(),
            ev(48, TYPE_DOWN),
            syn_report(),
            ev(48, TYPE_UP),
            syn_report(),
        ]
    );
    let up = expect_emit(state.dispatch_event(ev(30, TYPE_UP)));
    assert_eq!(up, vec![]);
}

#[test]
fn ctrl_gated_lambda_mapping() {
    // ^c :: { send("x") }; ctrl passes through, c triggers, c-up is swallowed.
    let body = Block {
        statements: vec![Stmt::Expr(Expr::FunctionCall(
            "send".to_string(),
            vec![Expr::Value(ValueType::String("x".to_string()))],
        ))],
    };
    let ms = key_mappings_from("^c", MappingTo::Lambda(body)).unwrap();
    let mut state = MediatorState::new();
    install(&mut state, 0, ms, 0);

    let mut output: Vec<InputEvent> = Vec::new();
    let mut arena = VarMapArena::new_root();

    for event in [ev(29, TYPE_DOWN), ev(46, TYPE_DOWN), ev(46, TYPE_UP), ev(29, TYPE_UP)] {
        match state.dispatch_event(event) {
            DispatchOut::Forward(e) => output.push(e),
            DispatchOut::Emit(evs) => output.extend(evs),
            DispatchOut::Swallow => {}
            DispatchOut::Trigger(block, env) => {
                let mut amb = Ambient::new(state.window_cycle_token, None);
                eval_block(&block, env, &mut arena, &mut amb, FUEL).unwrap();
                for eff in amb.effects {
                    if let Effect::Emit(e) = eff {
                        output.push(e);
                    }
                }
            }
        }
    }
    let keys_only: Vec<InputEvent> = output.into_iter().filter(|e| !e.is_syn()).collect();
    assert_eq!(
        keys_only,
        vec![ev(29, TYPE_DOWN), ev(45, TYPE_DOWN), ev(45, TYPE_UP), ev(29, TYPE_UP)]
    );
}

#[test]
fn eat_set_consumes_exactly_once() {
    let mut state = MediatorState::new();
    let a = KeyAction::new(Key::new(EV_KEY, 30), TYPE_DOWN);
    let r = state.handle_message(ExecutionMessage::EatEv(a));
    assert!(r.is_none());

    match state.dispatch_event(ev(30, TYPE_DOWN)) {
        DispatchOut::Swallow => {}
        other => panic!("first occurrence must be swallowed, got {:?}", other),
    }
    let fwd = expect_forward(state.dispatch_event(ev(30, TYPE_DOWN)));
    assert_eq!(fwd, ev(30, TYPE_DOWN));
}

#[test]
fn stale_token_mapping_does_not_fire() {
    let ms = key_mappings_from("a", MappingTo::Actions(actions_of("b"))).unwrap();
    let mut state = MediatorState::new();
    install(&mut state, 0, ms, 0);
    expect_emit(state.dispatch_event(ev(30, TYPE_DOWN)));

    // Focus change opens a new cycle; after eviction the old binding is gone.
    state.begin_focus_change(Some("bar".to_string()));
    state.evict_stale();
    let fwd = expect_forward(state.dispatch_event(ev(30, TYPE_DOWN)));
    assert_eq!(fwd, ev(30, TYPE_DOWN));

    // A registration carrying the old token is dropped on arrival.
    let stale = key_mappings_from("a", MappingTo::Actions(actions_of("b"))).unwrap();
    install(&mut state, 0, stale, 0);
    let fwd = expect_forward(state.dispatch_event(ev(30, TYPE_DOWN)));
    assert_eq!(fwd, ev(30, TYPE_DOWN));
}

#[test]
fn window_scoped_mapping_wins() {
    let scoped = key_mappings_from("a", MappingTo::Actions(actions_of("c"))).unwrap();
    let agnostic = key_mappings_from("a", MappingTo::Actions(actions_of("b"))).unwrap();
    let mut state = MediatorState::new();
    state.last_window_class = Some("term".to_string());
    install(&mut state, 0, agnostic, 0);
    for m in scoped {
        state.handle_message(ExecutionMessage::AddMapping(
            0,
            m.from,
            Some("term".to_string()),
            m.to,
            0,
        ));
    }
    let down = expect_emit(state.dispatch_event(ev(30, TYPE_DOWN)));
    // KEY_C is 46; the agnostic target KEY_B (48) must not fire.
    assert_eq!(
        down,
        vec![ev(46, TYPE_DOWN), syn_report(), ev(46, TYPE_UP), syn_report()]
    );
}

#[test]
fn emitted_groups_each_end_in_one_syn() {
    let ms = key_mappings_from("a", MappingTo::Actions(actions_of("bc"))).unwrap();
    let mut state = MediatorState::new();
    install(&mut state, 0, ms, 0);
    let evs = expect_emit(state.dispatch_event(ev(30, TYPE_DOWN)));
    assert!(evs.len() > 0 && evs.len() % 2 == 0);
    for pair in evs.chunks(2) {
        assert!(!pair[0].is_syn());
        assert!(pair[1].is_syn());
    }
}

#[test]
fn syn_events_forward_unchanged() {
    let mut state = MediatorState::new();
    let fwd = expect_forward(state.dispatch_event(syn_report()));
    assert_eq!(fwd, syn_report());
}

#[test]
fn for_loop_prints_sum() {
    // let x = 0; for(let i=0; i<3; i=i+1) { x = x + i } print(x)
    let body = Block {
        statements: vec![Stmt::Expr(Expr::Assign(
            "x".to_string(),
            Box::new(Expr::Add(
                Box::new(Expr::Name("x".to_string())),
                Box::new(Expr::Name("i".to_string())),
            )),
        ))],
    };
    let program = Block {
        statements: vec![
            Stmt::Expr(Expr::Init(
                "x".to_string(),
                Box::new(Expr::Value(ValueType::Number(0))),
            )),
            Stmt::For(
                Box::new(Expr::Init(
                    "i".to_string(),
                    Box::new(Expr::Value(ValueType::Number(0))),
                )),
                Box::new(Expr::LT(
                    Box::new(Expr::Name("i".to_string())),
                    Box::new(Expr::Value(ValueType::Number(3))),
                )),
                Box::new(Expr::Assign(
                    "i".to_string(),
                    Box::new(Expr::Add(
                        Box::new(Expr::Name("i".to_string())),
                        Box::new(Expr::Value(ValueType::Number(1))),
                    )),
                )),
                body,
            ),
            Stmt::Expr(Expr::FunctionCall(
                "print".to_string(),
                vec![Expr::Name("x".to_string())],
            )),
        ],
    };
    let mut arena = VarMapArena::new_root();
    let mut amb = Ambient::new(0, None);
    eval_block(&program, 0, &mut arena, &mut amb, FUEL).unwrap();
    assert_eq!(amb.effects.len(), 1);
    match &amb.effects[0] {
        Effect::Print(s) => assert_eq!(s.as_str(), "3"),
        other => panic!("expected a print, got {:?}", other),
    }
}

#[test]
fn window_change_callback_cycle() {
    // on_window_change(|| { if active_window_class() == "foo" { a :: b } })
    let inner = key_mappings_from("a", MappingTo::Actions(actions_of("b"))).unwrap();
    let callback_body = Block {
        statements: vec![Stmt::If(
            vec![(
                Expr::Eq(
                    Box::new(Expr::FunctionCall("active_window_class".to_string(), vec![])),
                    Box::new(Expr::Value(ValueType::String("foo".to_string()))),
                ),
                Block { statements: vec![Stmt::Expr(Expr::KeyMapping(inner))] },
            )],
            None,
        )],
    };
    let register = Expr::FunctionCall(
        "on_window_change".to_string(),
        vec![Expr::Lambda(vec![], callback_body)],
    );

    let mut arena = VarMapArena::new_root();
    let mut state = MediatorState::new();
    let mut amb = Ambient::new(0, None);
    eval_expr(&register, 0, &mut arena, &mut amb, FUEL).unwrap();
    for eff in amb.effects {
        if let Effect::RegisterCallback(b, env) = eff {
            state.handle_message(ExecutionMessage::RegisterWindowChangeCallback(b, env));
        }
    }
    assert_eq!(state.callbacks.len(), 1);

    // Focus moves to "foo": the callback re-registers under the new token.
    state.begin_focus_change(Some("foo".to_string()));
    let mut amb = Ambient::new(state.window_cycle_token, Some("foo".to_string()));
    let cb_block = Block { statements: std::mem::take(&mut state.callbacks[0].0.statements) };
    eval_block(&cb_block, state.callbacks[0].1, &mut arena, &mut amb, FUEL).unwrap();
    state.callbacks[0].0.statements = cb_block.statements;
    for eff in amb.effects {
        if let Effect::AddMapping(t, f, wc, to, env) = eff {
            state.handle_message(ExecutionMessage::AddMapping(t, f, wc, to, env));
        }
    }
    state.evict_stale();
    let out = expect_emit(state.dispatch_event(ev(30, TYPE_DOWN)));
    assert_eq!(out[0], ev(48, TYPE_DOWN));
    expect_emit(state.dispatch_event(ev(30, TYPE_UP)));

    // Focus moves to "bar": nothing re-registers, the binding is evicted.
    state.begin_focus_change(Some("bar".to_string()));
    let cb_block = Block { statements: std::mem::take(&mut state.callbacks[0].0.statements) };
    let mut amb = Ambient::new(state.window_cycle_token, Some("bar".to_string()));
    eval_block(&cb_block, state.callbacks[0].1, &mut arena, &mut amb, FUEL).unwrap();
    state.callbacks[0].0.statements = cb_block.statements;
    assert!(amb.effects.is_empty());
    state.evict_stale();
    let fwd = expect_forward(state.dispatch_event(ev(30, TYPE_DOWN)));
    assert_eq!(fwd, ev(30, TYPE_DOWN));
}

#[test]
fn explicit_edge_mapping_sleeps_then_sends() {
    // {KEY_A down} :: { sleep(50); send("b") }; the A-down itself is swallowed.
    let body = Block {
        statements: vec![
            Stmt::Expr(Expr::FunctionCall(
                "sleep".to_string(),
                vec![Expr::Value(ValueType::Number(50))],
            )),
            Stmt::Expr(Expr::FunctionCall(
                "send".to_string(),
                vec![Expr::Value(ValueType::String("b".to_string()))],
            )),
        ],
    };
    let ms = key_mappings_from("{KEY_A down}", MappingTo::Lambda(body)).unwrap();
    assert_eq!(ms.len(), 1);
    let mut state = MediatorState::new();
    install(&mut state, 0, ms, 0);

    let (block, env) = expect_trigger(state.dispatch_event(ev(30, TYPE_DOWN)));
    let mut arena = VarMapArena::new_root();
    let mut amb = Ambient::new(0, None);
    eval_block(&block, env, &mut arena, &mut amb, FUEL).unwrap();

    match &amb.effects[0] {
        Effect::Sleep(ms) => assert_eq!(*ms, 50),
        other => panic!("expected the sleep first, got {:?}", other),
    }
    let emitted: Vec<InputEvent> = amb.effects[1..]
        .iter()
        .map(|e| match e {
            Effect::Emit(ev) => *ev,
            other => panic!("expected only emissions after the sleep, got {:?}", other),
        })
        .collect();
    assert_eq!(
        emitted,
        vec![ev(48, TYPE_DOWN), syn_report(), ev(48, TYPE_UP), syn_report()]
    );
}

#[test]
fn evaluator_value_semantics() {
    let mut arena = VarMapArena::new_root();
    let mut amb = Ambient::new(0, None);

    // String concatenation and equality.
    let concat = Expr::Add(
        Box::new(Expr::Value(ValueType::String("ab".to_string()))),
        Box::new(Expr::Value(ValueType::String("cd".to_string()))),
    );
    match eval_expr(&concat, 0, &mut arena, &mut amb, FUEL).unwrap() {
        ValueType::String(s) => assert_eq!(s.as_str(), "abcd"),
        other => panic!("expected a string, got {:?}", other),
    }

    // Cross-tag equality is false; inequality is true.
    let cross = Expr::Eq(
        Box::new(Expr::Value(ValueType::Number(1))),
        Box::new(Expr::Value(ValueType::Bool(true))),
    );
    match eval_expr(&cross, 0, &mut arena, &mut amb, FUEL).unwrap() {
        ValueType::Bool(b) => assert!(!b),
        other => panic!("expected a bool, got {:?}", other),
    }

    // `and` means boolean equality.
    let and_quirk = Expr::And(
        Box::new(Expr::Value(ValueType::Bool(false))),
        Box::new(Expr::Value(ValueType::Bool(false))),
    );
    match eval_expr(&and_quirk, 0, &mut arena, &mut amb, FUEL).unwrap() {
        ValueType::Bool(b) => assert!(b),
        other => panic!("expected a bool, got {:?}", other),
    }

    // Truncating division.
    let div = Expr::Div(
        Box::new(Expr::Value(ValueType::Number(-7))),
        Box::new(Expr::Value(ValueType::Number(2))),
    );
    match eval_expr(&div, 0, &mut arena, &mut amb, FUEL).unwrap() {
        ValueType::Number(n) => assert_eq!(n, -3),
        other => panic!("expected a number, got {:?}", other),
    }

    // Unbound names read as Void, observable through equality.
    let unbound = Expr::Eq(
        Box::new(Expr::Name("nope".to_string())),
        Box::new(Expr::Value(ValueType::Number(0))),
    );
    match eval_expr(&unbound, 0, &mut arena, &mut amb, FUEL).unwrap() {
        ValueType::Bool(b) => assert!(!b),
        other => panic!("expected a bool, got {:?}", other),
    }
}

#[test]
fn evaluator_error_cases() {
    let mut arena = VarMapArena::new_root();
    let mut amb = Ambient::new(0, None);
    let num = |n: i64| Box::new(Expr::Value(ValueType::Number(n)));
    let boolean = |b: bool| Box::new(Expr::Value(ValueType::Bool(b)));

    let r = eval_expr(&Expr::Div(num(1), num(0)), 0, &mut arena, &mut amb, FUEL);
    assert_eq!(r.unwrap_err(), EvalErr::DivByZero);

    let r = eval_expr(&Expr::Sub(num(1), boolean(true)), 0, &mut arena, &mut amb, FUEL);
    assert_eq!(r.unwrap_err(), EvalErr::TypeMismatch);

    let r = eval_expr(&Expr::Add(num(i64::MAX), num(1)), 0, &mut arena, &mut amb, FUEL);
    assert_eq!(r.unwrap_err(), EvalErr::Overflow);

    let r = eval_expr(
        &Expr::Assign("ghostvar".to_string(), num(1)),
        0,
        &mut arena,
        &mut amb,
        FUEL,
    );
    assert_eq!(r.unwrap_err(), EvalErr::UndefinedVariable);

    let r = eval_expr(
        &Expr::Init("x".to_string(), Box::new(Expr::Name("nope".to_string()))),
        0,
        &mut arena,
        &mut amb,
        FUEL,
    );
    assert_eq!(r.unwrap_err(), EvalErr::VoidValue);

    let r = eval_expr(
        &Expr::FunctionCall("no_such_fn".to_string(), vec![]),
        0,
        &mut arena,
        &mut amb,
        FUEL,
    );
    assert_eq!(r.unwrap_err(), EvalErr::UndefinedVariable);

    let r = eval_expr(
        &Expr::FunctionCall(
            "send".to_string(),
            vec![Expr::Value(ValueType::String("{notakey}".to_string()))],
        ),
        0,
        &mut arena,
        &mut amb,
        FUEL,
    );
    assert_eq!(r.unwrap_err(), EvalErr::ParseFail);

    let r = eval_expr(
        &Expr::FunctionCall("number_to_key".to_string(), vec![Expr::Value(
            ValueType::Number(9999),
        )]),
        0,
        &mut arena,
        &mut amb,
        FUEL,
    );
    assert_eq!(r.unwrap_err(), EvalErr::UnknownKey);

    // A negative sleep clamps to zero rather than failing.
    let before = amb.effects.len();
    eval_expr(
        &Expr::FunctionCall("sleep".to_string(), vec![Expr::Value(ValueType::Number(-5))]),
        0,
        &mut arena,
        &mut amb,
        FUEL,
    )
    .unwrap();
    match &amb.effects[before] {
        Effect::Sleep(ms) => assert_eq!(*ms, 0),
        other => panic!("expected a sleep, got {:?}", other),
    }

    let r = eval_expr(
        &Expr::FunctionCall("send".to_string(), vec![Expr::Value(ValueType::Number(1))]),
        0,
        &mut arena,
        &mut amb,
        FUEL,
    );
    assert_eq!(r.unwrap_err(), EvalErr::BadArgument);

    let r = eval_expr(&Expr::Add(num(1), num(2)), 0, &mut arena, &mut amb, 0);
    assert_eq!(r.unwrap_err(), EvalErr::OutOfFuel);

    // `continue` escaping a function body is fatal.
    let lam = Expr::Init(
        "f".to_string(),
        Box::new(Expr::Lambda(vec![], Block { statements: vec![Stmt::Continue] })),
    );
    eval_expr(&lam, 0, &mut arena, &mut amb, FUEL).unwrap();
    let r = eval_expr(
        &Expr::FunctionCall("f".to_string(), vec![]),
        0,
        &mut arena,
        &mut amb,
        FUEL,
    );
    assert_eq!(r.unwrap_err(), EvalErr::ContinueEscape);

    // Calling a non-lambda value is fatal.
    eval_expr(
        &Expr::Init("n".to_string(), num(4)),
        0,
        &mut arena,
        &mut amb,
        FUEL,
    )
    .unwrap();
    let r = eval_expr(
        &Expr::FunctionCall("n".to_string(), vec![]),
        0,
        &mut arena,
        &mut amb,
        FUEL,
    );
    assert_eq!(r.unwrap_err(), EvalErr::NotALambda);
}

#[test]
fn lambda_calls_bind_parameters() {
    // let add = |p, q| { return p + q }; add(2, 3) == 5; a missing
    // argument binds Void.
    let mut arena = VarMapArena::new_root();
    let mut amb = Ambient::new(0, None);
    let body = Block {
        statements: vec![Stmt::Return(Expr::Add(
            Box::new(Expr::Name("p".to_string())),
            Box::new(Expr::Name("q".to_string())),
        ))],
    };
    let def = Expr::Init(
        "addnums".to_string(),
        Box::new(Expr::Lambda(vec!["p".to_string(), "q".to_string()], body)),
    );
    eval_expr(&def, 0, &mut arena, &mut amb, FUEL).unwrap();
    let call = Expr::FunctionCall(
        "addnums".to_string(),
        vec![Expr::Value(ValueType::Number(2)), Expr::Value(ValueType::Number(3))],
    );
    match eval_expr(&call, 0, &mut arena, &mut amb, FUEL).unwrap() {
        ValueType::Number(n) => assert_eq!(n, 5),
        other => panic!("expected a number, got {:?}", other),
    }
    let partial = Expr::FunctionCall(
        "addnums".to_string(),
        vec![Expr::Value(ValueType::Number(2))],
    );
    let r = eval_expr(&partial, 0, &mut arena, &mut amb, FUEL);
    assert_eq!(r.unwrap_err(), EvalErr::TypeMismatch);
}

#[test]
fn builtin_conversions() {
    let mut arena = VarMapArena::new_root();
    let mut amb = Ambient::new(0, None);

    let k = Expr::FunctionCall(
        "number_to_key".to_string(),
        vec![Expr::Value(ValueType::Number(30))],
    );
    match eval_expr(&k, 0, &mut arena, &mut amb, FUEL).unwrap() {
        ValueType::String(s) => assert_eq!(s.as_str(), "{KEY_A}"),
        other => panic!("expected a string, got {:?}", other),
    }

    let c = Expr::FunctionCall(
        "number_to_char".to_string(),
        vec![Expr::Value(ValueType::Number(98))],
    );
    match eval_expr(&c, 0, &mut arena, &mut amb, FUEL).unwrap() {
        ValueType::String(s) => assert_eq!(s.as_str(), "b"),
        other => panic!("expected a string, got {:?}", other),
    }

    let n = Expr::FunctionCall(
        "char_to_number".to_string(),
        vec![Expr::Value(ValueType::String("b".to_string()))],
    );
    match eval_expr(&n, 0, &mut arena, &mut amb, FUEL).unwrap() {
        ValueType::Number(v) => assert_eq!(v, 98),
        other => panic!("expected a number, got {:?}", other),
    }

    // Printing formats numbers in decimal.
    assert_eq!(ValueType::Number(-42).to_display_string().as_str(), "-42");
    assert_eq!(ValueType::Bool(true).to_display_string().as_str(), "true");
    assert_eq!(ValueType::Void.to_display_string().as_str(), "Void");
}

#[test]
fn map_key_registers_lambda_mappings() {
    let mut arena = VarMapArena::new_root();
    let mut amb = Ambient::new(7, None);
    let call = Expr::FunctionCall(
        "map_key".to_string(),
        vec![
            Expr::Value(ValueType::String("a".to_string())),
            Expr::Lambda(vec![], Block { statements: vec![] }),
        ],
    );
    eval_expr(&call, 0, &mut arena, &mut amb, FUEL).unwrap();
    let adds: Vec<&Effect> = amb
        .effects
        .iter()
        .filter(|e| matches!(e, Effect::AddMapping(..)))
        .collect();
    assert_eq!(adds.len(), 2);
    match adds[0] {
        Effect::AddMapping(t, f, _, _, _) => {
            assert_eq!(*t, 7);
            assert_eq!(f.key, Key::new(EV_KEY, 30));
            assert_eq!(f.value, TYPE_DOWN);
        }
        _ => unreachable!(),
    }
}

#[test]
fn exit_truncates_code() {
    let mut arena = VarMapArena::new_root();
    let mut amb = Ambient::new(0, None);
    let call = Expr::FunctionCall(
        "exit".to_string(),
        vec![Expr::Value(ValueType::Number(3))],
    );
    eval_expr(&call, 0, &mut arena, &mut amb, FUEL).unwrap();
    match &amb.effects[0] {
        Effect::Exit(code) => assert_eq!(*code, 3),
        other => panic!("expected an exit, got {:?}", other),
    }
}
