//! The script evaluator: a fuel-bounded tree walk over statements and
//! expressions. Side effects are not performed here; they are appended to an
//! effect log that the caller plays out, in order, against the output device
//! and the mediator.

use vstd::prelude::*;
use crate::keys::{InputEvent, KeyAction, KeyActionWithMods, input_ev_of, spec_syn_report,
    syn_report, TYPE_DOWN};
use crate::key_names::{key_code_to_literal, key_defs, lookup_name, str_eq_str};
use crate::key_parse::{
    key_action, scan_flags, spec_key_action, spec_key_sequence, spec_to_key_actions, flags_end,
    flags_in_range, parse_key_sequence, to_key_actions, ParsedKeyAction, ParseOut, SeqOut,
    lemma_core_used, maybe_shift,
};
use crate::mediator::render_events;
use crate::script::{
    Block, Stmt, Expr, ValueType, ValueV, BlockRet, KeyMapping, KeyMappingV, MappingTo,
    MappingToV, VarMap, VarMapArena, VarMapV, spec_lookup, spec_init, spec_assign,
    spec_value_eq, clone_value, clone_block, clone_string_vec, clone_mapping,
};

verus! {

/// A fatal evaluation error; the runtime reports it and shuts down.
#[derive(PartialEq, Eq, Structural, Clone, Copy, Debug)]
pub enum EvalErr {
    TypeMismatch,
    DivByZero,
    Overflow,
    VoidValue,
    UndefinedVariable,
    NotALambda,
    ContinueEscape,
    BadArgument,
    UnknownKey,
    ParseFail,
    OutOfFuel,
}

/// One recorded side effect, in program order.
#[derive(Debug)]
pub enum Effect {
    Emit(InputEvent),
    AddMapping(u64, KeyActionWithMods, Option<String>, MappingTo, usize),
    Eat(KeyAction),
    RegisterCallback(Block, usize),
    Sleep(u64),
    Exit(i32),
    Print(String),
}

pub enum EffectV {
    Emit(InputEvent),
    AddMapping(u64, KeyActionWithMods, Option<Seq<char>>, MappingToV, int),
    Eat(KeyAction),
    RegisterCallback(int),
    Sleep(u64),
    Exit(i32),
    Print(Seq<char>),
}

impl View for Effect {
    type V = EffectV;

    open spec fn view(&self) -> EffectV {
        match self {
            Effect::Emit(ev) => EffectV::Emit(*ev),
            Effect::AddMapping(t, f, wc, to, env) => EffectV::AddMapping(*t, *f, match wc {
                Some(c) => Some(c@),
                None => None,
            }, to@, *env as int),
            Effect::Eat(a) => EffectV::Eat(*a),
            Effect::RegisterCallback(_, env) => EffectV::RegisterCallback(*env as int),
            Effect::Sleep(ms) => EffectV::Sleep(*ms),
            Effect::Exit(c) => EffectV::Exit(*c),
            Effect::Print(s) => EffectV::Print(s@),
        }
    }
}

/// The context threaded through every evaluation call: the effect log, the
/// window-cycle token mappings are registered under, and the focused window
/// class as sampled when evaluation began.
pub struct Ambient {
    pub effects: Vec<Effect>,
    pub window_cycle_token: u64,
    pub window_class: Option<String>,
}

impl Ambient {
    pub fn new(window_cycle_token: u64, window_class: Option<String>) -> (r: Ambient)
        ensures
            r.effects@ =~= Seq::<Effect>::empty(),
            r.window_cycle_token == window_cycle_token,
            r.window_class == window_class,
    {
        Ambient { effects: Vec::new(), window_cycle_token, window_class }
    }
}

pub open spec fn amb_effects(a: Ambient) -> Seq<EffectV> {
    a.effects@.map_values(|e: Effect| e@)
}

/// The log only grows: what was recorded before a call is still its prefix
/// afterwards.
pub open spec fn effects_frame(pre: Seq<EffectV>, post: Seq<EffectV>) -> bool {
    pre.len() <= post.len() && forall|i: int| 0 <= i < pre.len() ==> post[i] == pre[i]
}

pub broadcast proof fn lemma_effects_frame_trans(a: Seq<EffectV>, b: Seq<EffectV>, c: Seq<EffectV>)
    requires
        effects_frame(a, b),
        effects_frame(b, c),
    ensures
        #![trigger effects_frame(a, b), effects_frame(b, c)]
        effects_frame(a, c),
{
}

pub proof fn lemma_frame_push1(a: Seq<EffectV>, x: EffectV)
    ensures
        effects_frame(a, a.push(x)),
{
    assert forall|i: int| 0 <= i < a.len() implies a.push(x)[i] == a[i] by {
        assert(a.push(x)[i] == a[i]);
    }
}

pub proof fn lemma_frame_push2(a: Seq<EffectV>, x: EffectV, y: EffectV)
    ensures
        effects_frame(a, a.push(x).push(y)),
{
    assert forall|i: int| 0 <= i < a.len() implies a.push(x).push(y)[i] == a[i] by {
        assert(a.push(x)[i] == a[i]);
        assert(a.push(x).push(y)[i] == a.push(x)[i]);
    }
}

/// Truncating division, as machine integers divide.
pub open spec fn trunc_div(a: int, b: int) -> int {
    let q = abs_int(a) / abs_int(b);
    if (a < 0) != (b < 0) {
        -q
    } else {
        q
    }
}

pub open spec fn abs_int(a: int) -> int {
    if a < 0 {
        -a
    } else {
        a
    }
}

/// What a binary operator yields on two values.
pub open spec fn spec_binop_add(a: ValueV, b: ValueV) -> Result<ValueV, EvalErr> {
    match (a, b) {
        (ValueV::Num(x), ValueV::Num(y)) => if i64::MIN <= x + y <= i64::MAX {
            Ok(ValueV::Num(x + y))
        } else {
            Err(EvalErr::Overflow)
        },
        (ValueV::Str(x), ValueV::Str(y)) => Ok(ValueV::Str(x + y)),
        _ => Err(EvalErr::TypeMismatch),
    }
}

pub open spec fn spec_binop_sub(a: ValueV, b: ValueV) -> Result<ValueV, EvalErr> {
    match (a, b) {
        (ValueV::Num(x), ValueV::Num(y)) => if i64::MIN <= x - y <= i64::MAX {
            Ok(ValueV::Num(x - y))
        } else {
            Err(EvalErr::Overflow)
        },
        _ => Err(EvalErr::TypeMismatch),
    }
}

pub open spec fn spec_binop_mul(a: ValueV, b: ValueV) -> Result<ValueV, EvalErr> {
    match (a, b) {
        (ValueV::Num(x), ValueV::Num(y)) => if i64::MIN <= x * y <= i64::MAX {
            Ok(ValueV::Num(x * y))
        } else {
            Err(EvalErr::Overflow)
        },
        _ => Err(EvalErr::TypeMismatch),
    }
}

pub open spec fn spec_binop_div(a: ValueV, b: ValueV) -> Result<ValueV, EvalErr> {
    match (a, b) {
        (ValueV::Num(x), ValueV::Num(y)) => if y == 0 {
            Err(EvalErr::DivByZero)
        } else if x == i64::MIN && y == -1 {
            Err(EvalErr::Overflow)
        } else {
            Ok(ValueV::Num(trunc_div(x, y)))
        },
        _ => Err(EvalErr::TypeMismatch),
    }
}

/// Lexicographic order on character sequences.
pub open spec fn spec_str_lt(a: Seq<char>, b: Seq<char>) -> bool
    decreases a.len(),
{
    if b.len() == 0 {
        false
    } else if a.len() == 0 {
        true
    } else if a[0] != b[0] {
        (a[0] as int) < (b[0] as int)
    } else {
        spec_str_lt(a.drop_first(), b.drop_first())
    }
}

pub open spec fn spec_value_lt(a: ValueV, b: ValueV) -> Option<bool> {
    match (a, b) {
        (ValueV::Bool(x), ValueV::Bool(y)) => Some(!x && y),
        (ValueV::Str(x), ValueV::Str(y)) => Some(spec_str_lt(x, y)),
        (ValueV::Num(x), ValueV::Num(y)) => Some(x < y),
        _ => None,
    }
}

fn exec_str_lt(a: &str, b: &str) -> (r: bool)
    ensures
        r == spec_str_lt(a@, b@),
{
    let na = a.unicode_len();
    let nb = b.unicode_len();
    let mut i: usize = 0;
    proof {
        assert(a@.skip(0) =~= a@);
        assert(b@.skip(0) =~= b@);
    }
    loop
        invariant
            na == a@.len(),
            nb == b@.len(),
            i <= na,
            i <= nb,
            spec_str_lt(a@, b@) == spec_str_lt(a@.skip(i as int), b@.skip(i as int)),
        decreases na - i,
    {
        if i >= nb {
            proof {
                assert(b@.skip(i as int).len() == 0);
            }
            return false;
        }
        if i >= na {
            proof {
                assert(a@.skip(i as int).len() == 0);
                assert(b@.skip(i as int).len() > 0);
            }
            return true;
        }
        let ca = a.get_char(i);
        let cb = b.get_char(i);
        proof {
            assert(a@.skip(i as int)[0] == ca);
            assert(b@.skip(i as int)[0] == cb);
            assert(a@.skip(i as int).drop_first() =~= a@.skip(i as int + 1));
            assert(b@.skip(i as int).drop_first() =~= b@.skip(i as int + 1));
        }
        if ca != cb {
            return ca < cb;
        }
        i += 1;
    }
}

/// The absolute value of an i64, as a u64.
fn abs_u64(a: i64) -> (r: u64)
    ensures
        r as int == abs_int(a as int),
{
    if a >= 0 {
        a as u64
    } else if a == i64::MIN {
        9223372036854775808u64
    } else {
        (-a) as u64
    }
}

/// Add two number values, or fail exactly as the semantics say.
pub fn value_add(a: &ValueType, b: &ValueType) -> (r: Result<ValueType, EvalErr>)
    ensures
        match (r, spec_binop_add(a@, b@)) {
            (Ok(x), Ok(v)) => x@ == v,
            (Err(e1), Err(e2)) => e1 == e2,
            _ => false,
        },
{
    match (a, b) {
        (ValueType::Number(x), ValueType::Number(y)) => {
            match x.checked_add(*y) {
                Some(z) => Ok(ValueType::Number(z)),
                None => Err(EvalErr::Overflow),
            }
        },
        (ValueType::String(x), ValueType::String(y)) => {
            let s = x.clone().concat(y.as_str());
            Ok(ValueType::String(s))
        },
        _ => Err(EvalErr::TypeMismatch),
    }
}

pub fn value_sub(a: &ValueType, b: &ValueType) -> (r: Result<ValueType, EvalErr>)
    ensures
        match (r, spec_binop_sub(a@, b@)) {
            (Ok(x), Ok(v)) => x@ == v,
            (Err(e1), Err(e2)) => e1 == e2,
            _ => false,
        },
{
    match (a, b) {
        (ValueType::Number(x), ValueType::Number(y)) => {
            match x.checked_sub(*y) {
                Some(z) => Ok(ValueType::Number(z)),
                None => Err(EvalErr::Overflow),
            }
        },
        _ => Err(EvalErr::TypeMismatch),
    }
}

pub fn value_mul(a: &ValueType, b: &ValueType) -> (r: Result<ValueType, EvalErr>)
    ensures
        match (r, spec_binop_mul(a@, b@)) {
            (Ok(x), Ok(v)) => x@ == v,
            (Err(e1), Err(e2)) => e1 == e2,
            _ => false,
        },
{
    match (a, b) {
        (ValueType::Number(x), ValueType::Number(y)) => {
            match x.checked_mul(*y) {
                Some(z) => Ok(ValueType::Number(z)),
                None => Err(EvalErr::Overflow),
            }
        },
        _ => Err(EvalErr::TypeMismatch),
    }
}

pub fn value_div(a: &ValueType, b: &ValueType) -> (r: Result<ValueType, EvalErr>)
    ensures
        match (r, spec_binop_div(a@, b@)) {
            (Ok(x), Ok(v)) => x@ == v,
            (Err(e1), Err(e2)) => e1 == e2,
            _ => false,
        },
{
    match (a, b) {
        (ValueType::Number(x), ValueType::Number(y)) => {
            if *y == 0 {
                return Err(EvalErr::DivByZero);
            }
            if *x == i64::MIN && *y == -1 {
                return Err(EvalErr::Overflow);
            }
            let ua = abs_u64(*x);
            let ub = abs_u64(*y);
            let q = ua / ub;
            let neg = (*x < 0) != (*y < 0);
            if neg {
                if q == 9223372036854775808u64 {
                    Ok(ValueType::Number(i64::MIN))
                } else {
                    proof {
                        assert(q < 9223372036854775808u64) by {
                            assert(ua / ub <= ua);
                        };
                    }
                    Ok(ValueType::Number(-(q as i64)))
                }
            } else {
                proof {
                    assert(q < 9223372036854775808u64) by {
                        if ua == 9223372036854775808u64 {
                            assert(*y != -1 && *y != 0);
                            assert(ub >= 2);
                            assert(ua / ub <= ua / 2) by (nonlinear_arith)
                                requires ub >= 2 && ua >= 0,
                            ;
                        } else {
                            assert(ua / ub <= ua);
                        }
                    };
                }
                Ok(ValueType::Number(q as i64))
            }
        },
        _ => Err(EvalErr::TypeMismatch),
    }
}

/// Compare two values with `<`; cross-tag comparison yields false.
pub fn value_lt(a: &ValueType, b: &ValueType) -> (r: bool)
    ensures
        r == (match spec_value_lt(a@, b@) {
            Some(x) => x,
            None => false,
        }),
{
    match (a, b) {
        (ValueType::Bool(x), ValueType::Bool(y)) => !*x && *y,
        (ValueType::String(x), ValueType::String(y)) => exec_str_lt(x.as_str(), y.as_str()),
        (ValueType::Number(x), ValueType::Number(y)) => *x < *y,
        _ => false,
    }
}

/// The decimal digits of a number, and the printed form of each value.
pub open spec fn dec_digit(d: int) -> char {
    if d == 0 { '0' }
    else if d == 1 { '1' }
    else if d == 2 { '2' }
    else if d == 3 { '3' }
    else if d == 4 { '4' }
    else if d == 5 { '5' }
    else if d == 6 { '6' }
    else if d == 7 { '7' }
    else if d == 8 { '8' }
    else { '9' }
}

pub open spec fn dec_str(n: nat) -> Seq<char>
    decreases n,
{
    if n < 10 {
        seq![dec_digit(n as int)]
    } else {
        dec_str(n / 10) + seq![dec_digit((n % 10) as int)]
    }
}

pub open spec fn int_str(n: int) -> Seq<char> {
    if n < 0 {
        seq!['-'] + dec_str((-n) as nat)
    } else {
        dec_str(n as nat)
    }
}

/// Relies on core::fmt's Display for i64: the canonical decimal digits, with
/// a leading minus sign for a negative number.
#[verifier::external_body]
fn i64_to_string(n: i64) -> (r: String)
    ensures
        r@ == int_str(n as int),
{
    format!("{}", n)
}

/// How each value prints.
pub open spec fn spec_display(v: ValueV) -> Seq<char> {
    match v {
        ValueV::Bool(b) => if b {
            "true"@
        } else {
            "false"@
        },
        ValueV::Str(s) => s,
        ValueV::Num(n) => int_str(n),
        ValueV::Lambda(_, _) => "Lambda"@,
        ValueV::Void => "Void"@,
    }
}

impl ValueType {
    /// The printed form, as `print` writes it.
    pub fn to_display_string(&self) -> (r: String)
        ensures
            r@ == spec_display(self@),
    {
        match self {
            ValueType::Bool(b) => if *b {
                String::from_str("true")
            } else {
                String::from_str("false")
            },
            ValueType::String(s) => s.clone(),
            ValueType::Number(n) => i64_to_string(*n),
            ValueType::Lambda(_, _, _) => String::from_str("Lambda"),
            ValueType::Void => String::from_str("Void"),
        }
    }
}

/// Relies on String's FromIterator over characters: the collected string
/// holds exactly the characters of the vector, in order.
#[verifier::external_body]
pub fn string_from_chars(v: &Vec<char>) -> (r: String)
    ensures
        r@ == v@,
{
    v.iter().collect()
}

/// The mappings a mapping form with this left-hand side installs. A left-hand
/// side with an explicit state makes one entry. A bare (click) left-hand side
/// makes two: the down edge carries the target, with LEFT_SHIFT DOWN in front
/// when the key literal was a capital letter, and the up edge is swallowed.
pub open spec fn spec_key_mappings(s: Seq<char>, to: MappingToV) -> Option<Seq<KeyMappingV>> {
    let fe = flags_end(s, 0);
    let gate = flags_in_range(s, 0, fe);
    match spec_key_action(s.skip(fe)) {
        ParseOut::Fail => None,
        ParseOut::Got { action, used } => {
            if fe + used != s.len() {
                None
            } else {
                match action {
                    ParsedKeyAction::KeyAction(a) => Some(
                        seq![
                            KeyMappingV {
                                from: KeyActionWithMods {
                                    key: a.key,
                                    value: a.value,
                                    modifiers: a.modifiers.union(gate),
                                },
                                to,
                            },
                        ],
                    ),
                    ParsedKeyAction::KeyClickAction(c) => {
                        let down_to = match to {
                            MappingToV::Actions(acts) => MappingToV::Actions(
                                maybe_shift(c.modifiers) + acts,
                            ),
                            MappingToV::Lambda => MappingToV::Lambda,
                        };
                        Some(
                            seq![
                                KeyMappingV {
                                    from: KeyActionWithMods {
                                        key: c.key,
                                        value: TYPE_DOWN,
                                        modifiers: gate,
                                    },
                                    to: down_to,
                                },
                                KeyMappingV {
                                    from: KeyActionWithMods {
                                        key: c.key,
                                        value: 0i32,
                                        modifiers: gate,
                                    },
                                    to: MappingToV::Actions(seq![]),
                                },
                            ],
                        )
                    },
                }
            }
        },
    }
}

/// Build the mapping entries for a mapping form.
pub fn key_mappings_from(lhs: &str, to: MappingTo) -> (r: Result<Vec<KeyMapping>, EvalErr>)
    ensures
        match r {
            Ok(v) => spec_key_mappings(lhs@, to@) == Some(v@.map_values(|m: KeyMapping| m@)),
            Err(e) => e == EvalErr::ParseFail && spec_key_mappings(lhs@, to@) is None,
        },
{
    let n = lhs.unicode_len();
    let (fe, gate) = scan_flags(lhs);
    let tail = lhs.substring_char(fe, n);
    proof {
        assert(tail@ =~= lhs@.skip(fe as int));
    }
    match key_action(tail) {
        Ok((rest, action)) => {
            if rest.unicode_len() != 0 {
                proof {
                    lemma_core_used(tail@);
                }
                return Err(EvalErr::ParseFail);
            }
            proof {
                lemma_core_used(tail@);
                assert(fe as int + spec_key_action(tail@)->used == lhs@.len());
            }
            match action {
                ParsedKeyAction::KeyAction(a) => {
                    let mut mods = a.modifiers;
                    mods.apply_from(&gate);
                    let m = KeyMapping {
                        from: KeyActionWithMods { key: a.key, value: a.value, modifiers: mods },
                        to,
                    };
                    let mut out: Vec<KeyMapping> = Vec::new();
                    out.push(m);
                    proof {
                        assert(out@.map_values(|m2: KeyMapping| m2@) =~= spec_key_mappings(
                            lhs@,
                            to@,
                        )->0);
                    }
                    Ok(out)
                },
                ParsedKeyAction::KeyClickAction(c) => {
                    let down_to = match &to {
                        MappingTo::Actions(acts) => {
                            let mut target: Vec<KeyAction> = Vec::new();
                            if c.modifiers.shift {
                                target.push(KeyAction {
                                    key: crate::keys::Key {
                                        event_type: crate::keys::EV_KEY,
                                        code: crate::key_names::KEY_CODE_LEFTSHIFT,
                                    },
                                    value: TYPE_DOWN,
                                });
                            }
                            let mut i: usize = 0;
                            while i < acts.len()
                                invariant
                                    i <= acts.len(),
                                    target@ =~= maybe_shift(c.modifiers) + acts@.take(i as int),
                                decreases acts.len() - i,
                            {
                                target.push(acts[i]);
                                proof {
                                    assert(target@ =~= maybe_shift(c.modifiers) + acts@.take(
                                        i as int + 1,
                                    ));
                                }
                                i += 1;
                            }
                            proof {
                                assert(acts@.take(acts@.len() as int) =~= acts@);
                            }
                            MappingTo::Actions(target)
                        },
                        MappingTo::Lambda(b) => MappingTo::Lambda(clone_block(b)),
                    };
                    let m1 = KeyMapping {
                        from: KeyActionWithMods { key: c.key, value: TYPE_DOWN, modifiers: gate },
                        to: down_to,
                    };
                    let m2 = KeyMapping {
                        from: KeyActionWithMods { key: c.key, value: 0, modifiers: gate },
                        to: MappingTo::Actions(Vec::new()),
                    };
                    let mut out: Vec<KeyMapping> = Vec::new();
                    out.push(m1);
                    out.push(m2);
                    proof {
                        assert(out@.map_values(|m2x: KeyMapping| m2x@) =~= spec_key_mappings(
                            lhs@,
                            to@,
                        )->0);
                    }
                    Ok(out)
                },
            }
        },
        Err(_) => Err(EvalErr::ParseFail),
    }
}

/// Capital-letter shift injection at the mapping level: when the left-hand
/// side parses to a click of a capital letter and the target is a sequence,
/// the installed down-edge target begins with LEFT_SHIFT DOWN.
pub proof fn lemma_capital_lhs_injects_shift(s: Seq<char>, acts: Seq<KeyAction>)
    requires
        spec_key_mappings(s, MappingToV::Actions(acts)) is Some,
        spec_key_action(s.skip(flags_end(s, 0))) matches ParseOut::Got { action, used }
            && action is KeyClickAction && action.modifiers().shift,
    ensures
        ({
            let ms = spec_key_mappings(s, MappingToV::Actions(acts))->0;
            &&& ms.len() == 2
            &&& ms[0].to matches MappingToV::Actions(t) && t.len() == acts.len() + 1 && t[0] == (
            KeyAction {
                key: crate::keys::Key {
                    event_type: crate::keys::EV_KEY,
                    code: crate::key_names::KEY_CODE_LEFTSHIFT,
                },
                value: TYPE_DOWN,
            })
        }),
{
}

/// What evaluation always preserves: the effect log grows by appending, and
/// scopes are only ever added to the arena.
pub open spec fn eval_common(
    pre_arena: Seq<VarMapV>,
    pre_eff: Seq<EffectV>,
    post_arena: Seq<VarMapV>,
    post_eff: Seq<EffectV>,
) -> bool {
    effects_frame(pre_eff, post_eff) && post_arena.len() >= pre_arena.len()
}

/// Assignment never changes how many scopes the arena holds.
proof fn lemma_spec_assign_len(arena: Seq<VarMapV>, env: int, name: Seq<char>, v: ValueV)
    requires
        env >= 0,
    ensures
        match spec_assign(arena, env, name, v) {
            Some(a2) => a2.len() == arena.len(),
            None => true,
        },
    decreases env,
{
    if 0 <= env < arena.len() {
        let m = arena[env];
        let idx = crate::script::find_entry_idx(m.entries, name);
        if idx >= 0 {
        } else {
            match m.parent {
                Some(p) => {
                    if 0 <= p < env {
                        lemma_spec_assign_len(arena, p, name, v);
                    }
                },
                None => {},
            }
        }
    }
}

/// The spec-level evaluation state: the environments and the effect log.
#[verifier::ext_equal]
pub struct EvalSt {
    pub arena: Seq<VarMapV>,
    pub effects: Seq<EffectV>,
}

/// The fixed context of one evaluation: the window-cycle token and the
/// window class sampled when evaluation began.
pub struct EvalCtx {
    pub token: u64,
    pub class: Option<Seq<char>>,
}

/// The mathematical shape of how a block finished.
pub enum BlockRetV {
    Nothing,
    Continue,
    Return(ValueV),
}

impl View for BlockRet {
    type V = BlockRetV;

    open spec fn view(&self) -> BlockRetV {
        match self {
            BlockRet::Nothing => BlockRetV::Nothing,
            BlockRet::Continue => BlockRetV::Continue,
            BlockRet::Return(v) => BlockRetV::Return(v@),
        }
    }
}

pub open spec fn class_view(c: Option<String>) -> Option<Seq<char>> {
    match c {
        Some(s) => Some(s@),
        None => None,
    }
}

pub open spec fn res_matches(r: Result<ValueType, EvalErr>, s: Result<ValueV, EvalErr>) -> bool {
    match (r, s) {
        (Ok(v), Ok(vv)) => v@ == vv,
        (Err(a), Err(b)) => a == b,
        _ => false,
    }
}

pub open spec fn bres_matches(r: Result<BlockRet, EvalErr>, s: Result<BlockRetV, EvalErr>) -> bool {
    match (r, s) {
        (Ok(v), Ok(vv)) => v@ == vv,
        (Err(a), Err(b)) => a == b,
        _ => false,
    }
}

/// Saturation to i32, as the exit code is narrowed.
pub open spec fn sat_i32(n: int) -> i32 {
    if n > i32::MAX {
        i32::MAX
    } else if n < i32::MIN {
        i32::MIN
    } else {
        n as i32
    }
}

/// Saturation to a byte, as `number_to_char` narrows.
pub open spec fn sat_u8(n: int) -> u8 {
    if n > 255 {
        255u8
    } else if n < 0 {
        0u8
    } else {
        n as u8
    }
}

/// One binary operator of the language.
#[derive(Clone, Copy, Debug)]
pub enum OpTag {
    CmpEq,
    CmpNeq,
    CmpLt,
    CmpGt,
    OpAdd,
    OpSub,
    OpMul,
    OpDiv,
    OpAnd,
    OpOr,
}

/// What each binary operator yields on two values; `and` is boolean
/// equality, comparison across tags is false.
pub open spec fn apply_op(op: OpTag, a: ValueV, b: ValueV) -> Result<ValueV, EvalErr> {
    match op {
        OpTag::CmpEq => Ok(ValueV::Bool(spec_value_eq(a, b))),
        OpTag::CmpNeq => Ok(ValueV::Bool(!spec_value_eq(a, b))),
        OpTag::CmpLt => Ok(
            ValueV::Bool(
                match spec_value_lt(a, b) {
                    Some(x) => x,
                    None => false,
                },
            ),
        ),
        OpTag::CmpGt => Ok(
            ValueV::Bool(
                match spec_value_lt(b, a) {
                    Some(x) => x,
                    None => false,
                },
            ),
        ),
        OpTag::OpAdd => spec_binop_add(a, b),
        OpTag::OpSub => spec_binop_sub(a, b),
        OpTag::OpMul => spec_binop_mul(a, b),
        OpTag::OpDiv => spec_binop_div(a, b),
        OpTag::OpAnd => match (a, b) {
            (ValueV::Bool(x), ValueV::Bool(y)) => Ok(ValueV::Bool(x == y)),
            _ => Err(EvalErr::TypeMismatch),
        },
        OpTag::OpOr => match (a, b) {
            (ValueV::Bool(x), ValueV::Bool(y)) => Ok(ValueV::Bool(x || y)),
            _ => Err(EvalErr::TypeMismatch),
        },
    }
}

/// The effects a sequence of key actions logs: each action's record then one
/// SYN_REPORT; `lemma_emit_syn_grouped` shows the rendered stream is
/// SYN-grouped.
pub open spec fn emit_fx(acts: Seq<KeyAction>) -> Seq<EffectV> {
    render_events(acts).map_values(|e: InputEvent| EffectV::Emit(e))
}

proof fn lemma_render_push(a: Seq<KeyAction>, x: KeyAction)
    ensures
        render_events(a.push(x)) =~= render_events(a) + seq![
            input_ev_of(x),
            spec_syn_report(),
        ],
    decreases a.len(),
{
    if a.len() == 0 {
        assert(a.push(x).len() == 1);
        assert(a.push(x)[0] == x);
        assert(a.push(x).drop_first() =~= Seq::<KeyAction>::empty());
        assert(render_events(Seq::<KeyAction>::empty()) =~= Seq::<InputEvent>::empty());
        assert(render_events(a.push(x)) =~= seq![input_ev_of(x), spec_syn_report()]
            + render_events(a.push(x).drop_first()));
        assert(render_events(a) =~= Seq::<InputEvent>::empty());
    } else {
        assert(a.push(x)[0] == a[0]);
        assert(a.push(x).drop_first() =~= a.drop_first().push(x));
        lemma_render_push(a.drop_first(), x);
        assert(render_events(a.push(x)) =~= seq![input_ev_of(a[0]), spec_syn_report()]
            + render_events(a.drop_first().push(x)));
        assert(render_events(a) =~= seq![input_ev_of(a[0]), spec_syn_report()]
            + render_events(a.drop_first()));
    }
}

/// The value-level meaning of evaluation: the spec walks the same tree the
/// evaluator walks, over the same scope arena and effect log. `None` stands
/// for the one point the value model leaves open, a call of a user lambda,
/// whose body a value does not carry; everything else is pinned exactly.
pub open spec fn spec_eval_expr(e: Expr, env: int, st: EvalSt, ctx: EvalCtx, fuel: nat) -> Option<
    (EvalSt, Result<ValueV, EvalErr>),
>
    decreases fuel, 9int, 0int,
{
    match e {
        Expr::Eq(l, r) => spec_eval_binop(OpTag::CmpEq, *l, *r, env, st, ctx, fuel),
        Expr::Neq(l, r) => spec_eval_binop(OpTag::CmpNeq, *l, *r, env, st, ctx, fuel),
        Expr::LT(l, r) => spec_eval_binop(OpTag::CmpLt, *l, *r, env, st, ctx, fuel),
        Expr::GT(l, r) => spec_eval_binop(OpTag::CmpGt, *l, *r, env, st, ctx, fuel),
        Expr::Add(l, r) => spec_eval_binop(OpTag::OpAdd, *l, *r, env, st, ctx, fuel),
        Expr::Sub(l, r) => spec_eval_binop(OpTag::OpSub, *l, *r, env, st, ctx, fuel),
        Expr::Div(l, r) => spec_eval_binop(OpTag::OpDiv, *l, *r, env, st, ctx, fuel),
        Expr::Mul(l, r) => spec_eval_binop(OpTag::OpMul, *l, *r, env, st, ctx, fuel),
        Expr::And(l, r) => spec_eval_binop(OpTag::OpAnd, *l, *r, env, st, ctx, fuel),
        Expr::Or(l, r) => spec_eval_binop(OpTag::OpOr, *l, *r, env, st, ctx, fuel),
        Expr::Neg(sub) => if fuel == 0 {
            Some((st, Err(EvalErr::OutOfFuel)))
        } else {
            match spec_eval_expr(*sub, env, st, ctx, (fuel - 1) as nat) {
                None => None,
                Some((st1, Err(e2))) => Some((st1, Err(e2))),
                Some((st1, Ok(v))) => match v {
                    ValueV::Bool(x) => Some((st1, Ok(ValueV::Bool(!x)))),
                    _ => Some((st1, Err(EvalErr::TypeMismatch))),
                },
            }
        },
        Expr::Init(n, sub) => if fuel == 0 {
            Some((st, Err(EvalErr::OutOfFuel)))
        } else {
            match spec_eval_expr(*sub, env, st, ctx, (fuel - 1) as nat) {
                None => None,
                Some((st1, Err(e2))) => Some((st1, Err(e2))),
                Some((st1, Ok(v))) => if v is Void {
                    Some((st1, Err(EvalErr::VoidValue)))
                } else {
                    Some(
                        (
                            EvalSt { arena: spec_init(st1.arena, env, n@, v), ..st1 },
                            Ok(ValueV::Void),
                        ),
                    )
                },
            }
        },
        Expr::Assign(n, sub) => if fuel == 0 {
            Some((st, Err(EvalErr::OutOfFuel)))
        } else {
            match spec_eval_expr(*sub, env, st, ctx, (fuel - 1) as nat) {
                None => None,
                Some((st1, Err(e2))) => Some((st1, Err(e2))),
                Some((st1, Ok(v))) => if v is Void {
                    Some((st1, Err(EvalErr::VoidValue)))
                } else {
                    match spec_assign(st1.arena, env, n@, v) {
                        Some(a2) => Some((EvalSt { arena: a2, ..st1 }, Ok(ValueV::Void))),
                        None => Some((st1, Err(EvalErr::UndefinedVariable))),
                    }
                },
            }
        },
        Expr::KeyMapping(ms) => Some(
            (
                EvalSt {
                    effects: st.effects + ms@.map_values(
                        |m: KeyMapping| EffectV::AddMapping(ctx.token, m@.from, None, m@.to, env),
                    ),
                    ..st
                },
                Ok(ValueV::Void),
            ),
        ),
        Expr::Name(n) => Some((st, Ok(spec_lookup(st.arena, env, n@)))),
        Expr::Value(v) => Some((st, Ok(v@))),
        Expr::Lambda(params, _b) => Some(
            (
                EvalSt {
                    arena: st.arena.push(
                        VarMapV {
                            entries: Seq::<(Seq<char>, ValueV)>::empty(),
                            parent: Some(env),
                        },
                    ),
                    ..st
                },
                Ok(
                    ValueV::Lambda(
                        params@.map_values(|p: String| p@),
                        st.arena.len() as int,
                    ),
                ),
            ),
        ),
        Expr::KeyAction(a) => Some(
            (
                EvalSt {
                    effects: st.effects.push(EffectV::Emit(input_ev_of(a))).push(
                        EffectV::Emit(spec_syn_report()),
                    ),
                    ..st
                },
                Ok(ValueV::Void),
            ),
        ),
        Expr::EatKeyAction(a) => Some(
            (EvalSt { effects: st.effects.push(EffectV::Eat(a)), ..st }, Ok(ValueV::Void)),
        ),
        Expr::SleepAction(d) => Some(
            (EvalSt { effects: st.effects.push(EffectV::Sleep(d)), ..st }, Ok(ValueV::Void)),
        ),
        Expr::FunctionCall(name, args) => if fuel == 0 {
            Some((st, Err(EvalErr::OutOfFuel)))
        } else {
            spec_eval_call(name@, args@, env, st, ctx, (fuel - 1) as nat)
        },
    }
}

pub open spec fn spec_eval_binop(
    op: OpTag,
    l: Expr,
    r: Expr,
    env: int,
    st: EvalSt,
    ctx: EvalCtx,
    fuel: nat,
) -> Option<(EvalSt, Result<ValueV, EvalErr>)>
    decreases fuel, 8int, 0int,
{
    if fuel == 0 {
        Some((st, Err(EvalErr::OutOfFuel)))
    } else {
        match spec_eval_pair(l, r, env, st, ctx, fuel) {
            None => None,
            Some((st2, Err(e2))) => Some((st2, Err(e2))),
            Some((st2, Ok(p))) => Some((st2, apply_op(op, p.0, p.1))),
        }
    }
}

pub open spec fn spec_eval_pair(
    l: Expr,
    r: Expr,
    env: int,
    st: EvalSt,
    ctx: EvalCtx,
    fuel: nat,
) -> Option<(EvalSt, Result<(ValueV, ValueV), EvalErr>)>
    decreases fuel, 2int, 0int,
{
    if fuel == 0 {
        None
    } else {
        match spec_eval_expr(l, env, st, ctx, (fuel - 1) as nat) {
            None => None,
            Some((st1, Err(e2))) => Some((st1, Err(e2))),
            Some((st1, Ok(a))) => match spec_eval_expr(r, env, st1, ctx, (fuel - 1) as nat) {
                None => None,
                Some((st2, Err(e2))) => Some((st2, Err(e2))),
                Some((st2, Ok(b))) => Some((st2, Ok((a, b)))),
            },
        }
    }
}

/// What each built-in yields once its argument value is known.
pub open spec fn fin_exit(st: EvalSt, v: ValueV) -> (EvalSt, Result<ValueV, EvalErr>) {
    match v {
        ValueV::Num(n) => (
            EvalSt { effects: st.effects.push(EffectV::Exit(sat_i32(n))), ..st },
            Ok(ValueV::Void),
        ),
        _ => (st, Err(EvalErr::BadArgument)),
    }
}

pub open spec fn fin_send(st: EvalSt, v: ValueV) -> (EvalSt, Result<ValueV, EvalErr>) {
    match v {
        ValueV::Str(s) => match spec_key_sequence(s) {
            SeqOut::Fail => (st, Err(EvalErr::ParseFail)),
            SeqOut::Got { items } => (
                EvalSt { effects: st.effects + emit_fx(spec_to_key_actions(items)), ..st },
                Ok(ValueV::Void),
            ),
        },
        _ => (st, Err(EvalErr::BadArgument)),
    }
}

pub open spec fn fin_on_window_change(st: EvalSt, v: ValueV) -> (EvalSt, Result<ValueV, EvalErr>) {
    match v {
        ValueV::Lambda(_, envl) => (
            EvalSt { effects: st.effects.push(EffectV::RegisterCallback(envl)), ..st },
            Ok(ValueV::Void),
        ),
        _ => (st, Err(EvalErr::TypeMismatch)),
    }
}

pub open spec fn fin_sleep(st: EvalSt, v: ValueV) -> (EvalSt, Result<ValueV, EvalErr>) {
    match v {
        ValueV::Num(n) => (
            EvalSt {
                effects: st.effects.push(
                    EffectV::Sleep(
                        if n < 0 {
                            0u64
                        } else {
                            n as u64
                        },
                    ),
                ),
                ..st
            },
            Ok(ValueV::Void),
        ),
        _ => (st, Err(EvalErr::BadArgument)),
    }
}

pub open spec fn fin_print(st: EvalSt, v: ValueV) -> (EvalSt, Result<ValueV, EvalErr>) {
    (EvalSt { effects: st.effects.push(EffectV::Print(spec_display(v))), ..st }, Ok(ValueV::Void))
}

pub open spec fn fin_number_to_key(st: EvalSt, v: ValueV) -> (EvalSt, Result<ValueV, EvalErr>) {
    match v {
        ValueV::Num(n) => if n < 0 || n > 65535 {
            (st, Err(EvalErr::UnknownKey))
        } else {
            match lookup_name(key_defs(), n as u16) {
                Some(nm) => (st, Ok(ValueV::Str(seq!['{'] + nm + seq!['}']))),
                None => (st, Err(EvalErr::UnknownKey)),
            }
        },
        _ => (st, Err(EvalErr::BadArgument)),
    }
}

pub open spec fn fin_number_to_char(st: EvalSt, v: ValueV) -> (EvalSt, Result<ValueV, EvalErr>) {
    match v {
        ValueV::Num(n) => (st, Ok(ValueV::Str(seq![sat_u8(n) as char]))),
        _ => (st, Err(EvalErr::BadArgument)),
    }
}

pub open spec fn fin_char_to_number(st: EvalSt, v: ValueV) -> (EvalSt, Result<ValueV, EvalErr>) {
    match v {
        ValueV::Str(s) => if s.len() == 1 && (s[0] as int) < 128 {
            (st, Ok(ValueV::Num(s[0] as int)))
        } else {
            (st, Err(EvalErr::BadArgument))
        },
        _ => (st, Err(EvalErr::BadArgument)),
    }
}

pub open spec fn fin_map_key(st: EvalSt, v0: ValueV, v1: ValueV, ctx: EvalCtx) -> (
    EvalSt,
    Result<ValueV, EvalErr>,
) {
    match (v0, v1) {
        (ValueV::Str(from), ValueV::Lambda(_, envl)) => match spec_key_mappings(
            from,
            MappingToV::Lambda,
        ) {
            None => (st, Err(EvalErr::ParseFail)),
            Some(msv) => (
                EvalSt {
                    effects: st.effects + msv.map_values(
                        |mv: KeyMappingV| EffectV::AddMapping(ctx.token, mv.from, None, mv.to, envl),
                    ),
                    ..st
                },
                Ok(ValueV::Void),
            ),
        },
        _ => (st, Err(EvalErr::TypeMismatch)),
    }
}

/// The meaning of a call: the built-ins in full; a user lambda, whose body a
/// value does not carry, is the open point.
pub open spec fn spec_eval_call(
    name: Seq<char>,
    args: Seq<Expr>,
    env: int,
    st: EvalSt,
    ctx: EvalCtx,
    fuel: nat,
) -> Option<(EvalSt, Result<ValueV, EvalErr>)>
    decreases fuel, 8int, 0int,
{
    if fuel == 0 {
        Some((st, Err(EvalErr::OutOfFuel)))
    } else if name == "exit"@ {
        if args.len() > 0 {
            match spec_eval_expr(args[0], env, st, ctx, (fuel - 1) as nat) {
                None => None,
                Some((st1, Err(e2))) => Some((st1, Err(e2))),
                Some((st1, Ok(v))) => Some(fin_exit(st1, v)),
            }
        } else {
            Some(fin_exit(st, ValueV::Num(0)))
        }
    } else if name == "send"@ {
        if args.len() < 1 {
            Some((st, Err(EvalErr::BadArgument)))
        } else {
            match spec_eval_expr(args[0], env, st, ctx, (fuel - 1) as nat) {
                None => None,
                Some((st1, Err(e2))) => Some((st1, Err(e2))),
                Some((st1, Ok(v))) => Some(fin_send(st1, v)),
            }
        }
    } else if name == "active_window_class"@ {
        match ctx.class {
            Some(c) => Some((st, Ok(ValueV::Str(c)))),
            None => Some((st, Ok(ValueV::Void))),
        }
    } else if name == "on_window_change"@ {
        if args.len() != 1 {
            Some((st, Err(EvalErr::BadArgument)))
        } else {
            match spec_eval_expr(args[0], env, st, ctx, (fuel - 1) as nat) {
                None => None,
                Some((st1, Err(e2))) => Some((st1, Err(e2))),
                Some((st1, Ok(v))) => Some(fin_on_window_change(st1, v)),
            }
        }
    } else if name == "sleep"@ {
        if args.len() < 1 {
            Some((st, Err(EvalErr::BadArgument)))
        } else {
            match spec_eval_expr(args[0], env, st, ctx, (fuel - 1) as nat) {
                None => None,
                Some((st1, Err(e2))) => Some((st1, Err(e2))),
                Some((st1, Ok(v))) => Some(fin_sleep(st1, v)),
            }
        }
    } else if name == "print"@ {
        if args.len() < 1 {
            Some((st, Err(EvalErr::BadArgument)))
        } else {
            match spec_eval_expr(args[0], env, st, ctx, (fuel - 1) as nat) {
                None => None,
                Some((st1, Err(e2))) => Some((st1, Err(e2))),
                Some((st1, Ok(v))) => Some(fin_print(st1, v)),
            }
        }
    } else if name == "number_to_key"@ {
        if args.len() < 1 {
            Some((st, Err(EvalErr::BadArgument)))
        } else {
            match spec_eval_expr(args[0], env, st, ctx, (fuel - 1) as nat) {
                None => None,
                Some((st1, Err(e2))) => Some((st1, Err(e2))),
                Some((st1, Ok(v))) => Some(fin_number_to_key(st1, v)),
            }
        }
    } else if name == "number_to_char"@ {
        if args.len() < 1 {
            Some((st, Err(EvalErr::BadArgument)))
        } else {
            match spec_eval_expr(args[0], env, st, ctx, (fuel - 1) as nat) {
                None => None,
                Some((st1, Err(e2))) => Some((st1, Err(e2))),
                Some((st1, Ok(v))) => Some(fin_number_to_char(st1, v)),
            }
        }
    } else if name == "char_to_number"@ {
        if args.len() < 1 {
            Some((st, Err(EvalErr::BadArgument)))
        } else {
            match spec_eval_expr(args[0], env, st, ctx, (fuel - 1) as nat) {
                None => None,
                Some((st1, Err(e2))) => Some((st1, Err(e2))),
                Some((st1, Ok(v))) => Some(fin_char_to_number(st1, v)),
            }
        }
    } else if name == "map_key"@ {
        if args.len() < 2 {
            Some((st, Err(EvalErr::BadArgument)))
        } else {
            match spec_eval_expr(args[0], env, st, ctx, (fuel - 1) as nat) {
                None => None,
                Some((st1, Err(e2))) => Some((st1, Err(e2))),
                Some((st1, Ok(v0))) => match spec_eval_expr(
                    args[1],
                    env,
                    st1,
                    ctx,
                    (fuel - 1) as nat,
                ) {
                    None => None,
                    Some((st2, Err(e2))) => Some((st2, Err(e2))),
                    Some((st2, Ok(v1))) => Some(fin_map_key(st2, v0, v1, ctx)),
                },
            }
        }
    } else {
        match spec_lookup(st.arena, env, name) {
            ValueV::Lambda(_, _) => None,
            ValueV::Void => Some((st, Err(EvalErr::UndefinedVariable))),
            _ => Some((st, Err(EvalErr::NotALambda))),
        }
    }
}

/// The meaning of a block: a fresh scope under `env`, then the statements.
pub open spec fn spec_eval_block(b: Block, env: int, st: EvalSt, ctx: EvalCtx, fuel: nat) -> Option<
    (EvalSt, Result<BlockRetV, EvalErr>),
>
    decreases fuel, 8int, 0int,
{
    let st1 = EvalSt {
        arena: st.arena.push(
            VarMapV { entries: Seq::<(Seq<char>, ValueV)>::empty(), parent: Some(env) },
        ),
        ..st
    };
    spec_eval_stmts(b.statements@, 0, st.arena.len() as int, st1, ctx, fuel)
}

/// The meaning of the statements from position `i` on: the first `return`
/// yields `Return` of its value, a `continue` yields `Continue`, an `if`
/// runs its first true branch, a `for` runs init once and loops while the
/// guard is Bool(true), and fall-through yields `Nothing`.
pub open spec fn spec_eval_stmts(
    stmts: Seq<Stmt>,
    i: int,
    scope: int,
    st: EvalSt,
    ctx: EvalCtx,
    fuel: nat,
) -> Option<(EvalSt, Result<BlockRetV, EvalErr>)>
    decreases fuel, 7int, stmts.len() - i when 0 <= i <= stmts.len()
{
    if i < 0 || i >= stmts.len() {
        Some((st, Ok(BlockRetV::Nothing)))
    } else {
        match stmts[i] {
            Stmt::Expr(e) => if fuel == 0 {
                Some((st, Err(EvalErr::OutOfFuel)))
            } else {
                match spec_eval_expr(e, scope, st, ctx, (fuel - 1) as nat) {
                    None => None,
                    Some((st1, Err(e2))) => Some((st1, Err(e2))),
                    Some((st1, Ok(_))) => spec_eval_stmts(stmts, i + 1, scope, st1, ctx, fuel),
                }
            },
            Stmt::Block(b2) => if fuel == 0 {
                Some((st, Err(EvalErr::OutOfFuel)))
            } else {
                match spec_eval_block(b2, scope, st, ctx, (fuel - 1) as nat) {
                    None => None,
                    Some((st1, Err(e2))) => Some((st1, Err(e2))),
                    Some((st1, Ok(BlockRetV::Nothing))) => spec_eval_stmts(
                        stmts,
                        i + 1,
                        scope,
                        st1,
                        ctx,
                        fuel,
                    ),
                    Some((st1, Ok(other))) => Some((st1, Ok(other))),
                }
            },
            Stmt::If(pairs, els) => if fuel == 0 {
                Some((st, Err(EvalErr::OutOfFuel)))
            } else {
                match spec_eval_if(pairs@, 0, els, scope, st, ctx, fuel) {
                    None => None,
                    Some((st1, Err(e2))) => Some((st1, Err(e2))),
                    Some((st1, Ok(BlockRetV::Nothing))) => spec_eval_stmts(
                        stmts,
                        i + 1,
                        scope,
                        st1,
                        ctx,
                        fuel,
                    ),
                    Some((st1, Ok(other))) => Some((st1, Ok(other))),
                }
            },
            Stmt::For(init, cond, step, body) => if fuel == 0 {
                Some((st, Err(EvalErr::OutOfFuel)))
            } else {
                match spec_eval_expr(*init, scope, st, ctx, (fuel - 1) as nat) {
                    None => None,
                    Some((st1, Err(e2))) => Some((st1, Err(e2))),
                    Some((st1, Ok(_))) => match spec_eval_for(
                        *cond,
                        *step,
                        body,
                        scope,
                        st1,
                        ctx,
                        (fuel - 1) as nat,
                    ) {
                        None => None,
                        Some((st2, Err(e2))) => Some((st2, Err(e2))),
                        Some((st2, Ok(BlockRetV::Nothing))) => spec_eval_stmts(
                            stmts,
                            i + 1,
                            scope,
                            st2,
                            ctx,
                            fuel,
                        ),
                        Some((st2, Ok(other))) => Some((st2, Ok(other))),
                    },
                }
            },
            Stmt::Return(e) => if fuel == 0 {
                Some((st, Err(EvalErr::OutOfFuel)))
            } else {
                match spec_eval_expr(e, scope, st, ctx, (fuel - 1) as nat) {
                    None => None,
                    Some((st1, Err(e2))) => Some((st1, Err(e2))),
                    Some((st1, Ok(v))) => Some((st1, Ok(BlockRetV::Return(v)))),
                }
            },
            Stmt::Continue => Some((st, Ok(BlockRetV::Continue))),
        }
    }
}

/// The meaning of an if-chain from branch `j` on: the first guard equal to
/// Bool(true) selects its block; with none, the else block or fall-through.
pub open spec fn spec_eval_if(
    pairs: Seq<(Expr, Block)>,
    j: int,
    els: Option<Block>,
    scope: int,
    st: EvalSt,
    ctx: EvalCtx,
    fuel: nat,
) -> Option<(EvalSt, Result<BlockRetV, EvalErr>)>
    decreases fuel, 6int, pairs.len() - j when 0 <= j <= pairs.len()
{
    if fuel == 0 {
        None
    } else if j < 0 || j >= pairs.len() {
        match els {
            Some(eb) => spec_eval_block(eb, scope, st, ctx, (fuel - 1) as nat),
            None => Some((st, Ok(BlockRetV::Nothing))),
        }
    } else {
        match spec_eval_expr(pairs[j].0, scope, st, ctx, (fuel - 1) as nat) {
            None => None,
            Some((st1, Err(e2))) => Some((st1, Err(e2))),
            Some((st1, Ok(c))) => if c == ValueV::Bool(true) {
                spec_eval_block(pairs[j].1, scope, st1, ctx, (fuel - 1) as nat)
            } else {
                spec_eval_if(pairs, j + 1, els, scope, st1, ctx, fuel)
            },
        }
    }
}

/// The meaning of a for loop after its init ran: while the guard is
/// Bool(true) the body runs and then the step; a `return` from the body ends
/// the loop; a non-Bool guard is a fatal error; the loop charges one unit of
/// fuel per round.
pub open spec fn spec_eval_for(
    cond: Expr,
    step: Expr,
    body: Block,
    scope: int,
    st: EvalSt,
    ctx: EvalCtx,
    fl: nat,
) -> Option<(EvalSt, Result<BlockRetV, EvalErr>)>
    decreases fl, 5int, 0int,
{
    if fl == 0 {
        Some((st, Err(EvalErr::OutOfFuel)))
    } else {
        let f1 = (fl - 1) as nat;
        match spec_eval_expr(cond, scope, st, ctx, f1) {
            None => None,
            Some((st1, Err(e2))) => Some((st1, Err(e2))),
            Some((st1, Ok(c))) => match c {
                ValueV::Bool(go) => if !go {
                    Some((st1, Ok(BlockRetV::Nothing)))
                } else {
                    match spec_eval_block(body, scope, st1, ctx, f1) {
                        None => None,
                        Some((st2, Err(e2))) => Some((st2, Err(e2))),
                        Some((st2, Ok(BlockRetV::Return(v)))) => Some(
                            (st2, Ok(BlockRetV::Return(v))),
                        ),
                        Some((st2, Ok(_))) => match spec_eval_expr(step, scope, st2, ctx, f1) {
                            None => None,
                            Some((st3, Err(e2))) => Some((st3, Err(e2))),
                            Some((st3, Ok(_))) => spec_eval_for(
                                cond,
                                step,
                                body,
                                scope,
                                st3,
                                ctx,
                                f1,
                            ),
                        },
                    }
                },
                _ => Some((st1, Err(EvalErr::TypeMismatch))),
            },
        }
    }
}

/// Evaluate the two operands of a binary operator, left first.
#[verifier::rlimit(100)]
fn eval_pair(
    l: &Expr,
    rr: &Expr,
    env: usize,
    arena: &mut VarMapArena,
    amb: &mut Ambient,
    fuel: u64,
) -> (r: Result<(ValueType, ValueType), EvalErr>)
    requires
        fuel >= 1,
    ensures
        final(amb).window_cycle_token == old(amb).window_cycle_token,
        final(amb).window_class == old(amb).window_class,
        eval_common(
            old(arena)@,
            amb_effects(*old(amb)),
            final(arena)@,
            amb_effects(*final(amb)),
        ),
        ({
            let pre = EvalSt { arena: old(arena)@, effects: amb_effects(*old(amb)) };
            let ctx = EvalCtx {
                token: old(amb).window_cycle_token,
                class: class_view(old(amb).window_class),
            };
            match spec_eval_pair(*l, *rr, env as int, pre, ctx, fuel as nat) {
                Some(out) => final(arena)@ == out.0.arena && amb_effects(*final(amb))
                    == out.0.effects && (match (r, out.1) {
                    (Ok(p), Ok(pv)) => p.0@ == pv.0 && p.1@ == pv.1,
                    (Err(a), Err(b)) => a == b,
                    _ => false,
                }),
                None => true,
            }
        }),
    decreases fuel, 2int, 0int,
{
    broadcast use lemma_effects_frame_trans;
    proof {
        reveal_with_fuel(spec_eval_pair, 2);
        reveal_with_fuel(spec_eval_expr, 2);
    }

    proof {
        reveal_with_fuel(spec_eval_pair, 2);
        reveal_with_fuel(spec_eval_expr, 2);
    }
    let a = match eval_expr(l, env, arena, amb, fuel - 1) {
        Ok(v) => v,
        Err(er) => {
            return Err(er);
        },
    };
    let b = match eval_expr(rr, env, arena, amb, fuel - 1) {
        Ok(v) => v,
        Err(er) => {
            return Err(er);
        },
    };
    Ok((a, b))
}


/// Evaluate one binary-operator node: both operands, then the operator.
#[verifier::rlimit(100)]
fn eval_binop(
    op: OpTag,
    l: &Expr,
    rr: &Expr,
    env: usize,
    arena: &mut VarMapArena,
    amb: &mut Ambient,
    fuel: u64,
) -> (r: Result<ValueType, EvalErr>)
    ensures
        final(amb).window_cycle_token == old(amb).window_cycle_token,
        final(amb).window_class == old(amb).window_class,
        eval_common(
            old(arena)@,
            amb_effects(*old(amb)),
            final(arena)@,
            amb_effects(*final(amb)),
        ),
        ({
            let pre = EvalSt { arena: old(arena)@, effects: amb_effects(*old(amb)) };
            let ctx = EvalCtx {
                token: old(amb).window_cycle_token,
                class: class_view(old(amb).window_class),
            };
            match spec_eval_binop(op, *l, *rr, env as int, pre, ctx, fuel as nat) {
                Some(out) => final(arena)@ == out.0.arena && amb_effects(*final(amb))
                    == out.0.effects && res_matches(r, out.1),
                None => true,
            }
        }),
    decreases fuel, 8int, 0int,
{
    broadcast use lemma_effects_frame_trans;
    proof {
        reveal_with_fuel(spec_eval_binop, 2);
    }

    if fuel == 0 {
        return Err(EvalErr::OutOfFuel);
    }
    let (a, b) = match eval_pair(l, rr, env, arena, amb, fuel) {
        Ok(p) => p,
        Err(er) => {
            return Err(er);
        },
    };
    match op {
        OpTag::CmpEq => Ok(ValueType::Bool(a.eq(&b))),
        OpTag::CmpNeq => Ok(ValueType::Bool(!a.eq(&b))),
        OpTag::CmpLt => Ok(ValueType::Bool(value_lt(&a, &b))),
        OpTag::CmpGt => Ok(ValueType::Bool(value_lt(&b, &a))),
        OpTag::OpAdd => value_add(&a, &b),
        OpTag::OpSub => value_sub(&a, &b),
        OpTag::OpMul => value_mul(&a, &b),
        OpTag::OpDiv => value_div(&a, &b),
        OpTag::OpAnd => match (a, b) {
            (ValueType::Bool(x), ValueType::Bool(y)) => Ok(ValueType::Bool(x == y)),
            _ => Err(EvalErr::TypeMismatch),
        },
        OpTag::OpOr => match (a, b) {
            (ValueType::Bool(x), ValueType::Bool(y)) => Ok(ValueType::Bool(x || y)),
            _ => Err(EvalErr::TypeMismatch),
        },
    }
}

/// Evaluate one expression. Recursion is bounded by fuel; running out is the
/// `OutOfFuel` error. The result, the new scope arena and the appended
/// effects are pinned by `spec_eval_expr`; the one open point is a call of a
/// user lambda, where only the frame holds.
#[verifier::rlimit(100)]
pub fn eval_expr(
    e: &Expr,
    env: usize,
    arena: &mut VarMapArena,
    amb: &mut Ambient,
    fuel: u64,
) -> (r: Result<ValueType, EvalErr>)
    ensures
        final(amb).window_cycle_token == old(amb).window_cycle_token,
        final(amb).window_class == old(amb).window_class,
        eval_common(
            old(arena)@,
            amb_effects(*old(amb)),
            final(arena)@,
            amb_effects(*final(amb)),
        ),
        ({
            let pre = EvalSt { arena: old(arena)@, effects: amb_effects(*old(amb)) };
            let ctx = EvalCtx {
                token: old(amb).window_cycle_token,
                class: class_view(old(amb).window_class),
            };
            match spec_eval_expr(*e, env as int, pre, ctx, fuel as nat) {
                Some(out) => final(arena)@ == out.0.arena && amb_effects(*final(amb))
                    == out.0.effects && res_matches(r, out.1),
                None => true,
            }
        }),
    decreases fuel, 9int, 0int,
{
    broadcast use lemma_effects_frame_trans;
    proof {
        reveal_with_fuel(spec_eval_expr, 2);
        reveal_with_fuel(spec_eval_binop, 2);
        reveal_with_fuel(spec_eval_pair, 2);
        reveal_with_fuel(spec_eval_call, 2);
    }

    proof {
        reveal_with_fuel(spec_eval_expr, 2);
        reveal_with_fuel(spec_eval_binop, 2);
        reveal_with_fuel(spec_eval_pair, 2);
        reveal_with_fuel(spec_eval_call, 2);
    }
    match e {
        Expr::Eq(l, rr) => eval_binop(OpTag::CmpEq, l, rr, env, arena, amb, fuel),
        Expr::Neq(l, rr) => eval_binop(OpTag::CmpNeq, l, rr, env, arena, amb, fuel),
        Expr::LT(l, rr) => eval_binop(OpTag::CmpLt, l, rr, env, arena, amb, fuel),
        Expr::GT(l, rr) => eval_binop(OpTag::CmpGt, l, rr, env, arena, amb, fuel),
        Expr::Add(l, rr) => eval_binop(OpTag::OpAdd, l, rr, env, arena, amb, fuel),
        Expr::Sub(l, rr) => eval_binop(OpTag::OpSub, l, rr, env, arena, amb, fuel),
        Expr::Div(l, rr) => eval_binop(OpTag::OpDiv, l, rr, env, arena, amb, fuel),
        Expr::Mul(l, rr) => eval_binop(OpTag::OpMul, l, rr, env, arena, amb, fuel),
        Expr::And(l, rr) => eval_binop(OpTag::OpAnd, l, rr, env, arena, amb, fuel),
        Expr::Or(l, rr) => eval_binop(OpTag::OpOr, l, rr, env, arena, amb, fuel),
        Expr::Neg(sub) => {
            if fuel == 0 {
                return Err(EvalErr::OutOfFuel);
            }
            let a = match eval_expr(sub, env, arena, amb, fuel - 1) {
                Ok(v) => v,
                Err(er) => {
                    return Err(er);
                },
            };
            match a {
                ValueType::Bool(x) => Ok(ValueType::Bool(!x)),
                _ => Err(EvalErr::TypeMismatch),
            }
        },
        Expr::Init(name, sub) => {
            if fuel == 0 {
                return Err(EvalErr::OutOfFuel);
            }
            let v = match eval_expr(sub, env, arena, amb, fuel - 1) {
                Ok(v) => v,
                Err(er) => {
                    return Err(er);
                },
            };
            match v {
                ValueType::Void => Err(EvalErr::VoidValue),
                _ => {
                    arena.init(env, name, v);
                    Ok(ValueType::Void)
                },
            }
        },
        Expr::Assign(name, sub) => {
            if fuel == 0 {
                return Err(EvalErr::OutOfFuel);
            }
            let v = match eval_expr(sub, env, arena, amb, fuel - 1) {
                Ok(v) => v,
                Err(er) => {
                    return Err(er);
                },
            };
            match v {
                ValueType::Void => Err(EvalErr::VoidValue),
                _ => {
                    proof {
                        lemma_spec_assign_len(arena@, env as int, name@, v@);
                    }
                    if arena.assign(env, name, v) {
                        Ok(ValueType::Void)
                    } else {
                        Err(EvalErr::UndefinedVariable)
                    }
                },
            }
        },
        Expr::KeyMapping(ms) => {
            let ghost pre_eff = amb_effects(*amb);
            let ghost tok = amb.window_cycle_token;
            let ghost f = |m: KeyMapping| EffectV::AddMapping(tok, m@.from, None, m@.to, env as int);
            let mut i: usize = 0;
            while i < ms.len()
                invariant
                    i <= ms.len(),
                    amb.window_cycle_token == tok,
                    tok == old(amb).window_cycle_token,
                    amb.window_class == old(amb).window_class,
                    arena@ == old(arena)@,
                    pre_eff == amb_effects(*old(amb)),
                    amb_effects(*amb) =~= pre_eff + ms@.take(i as int).map_values(f),
                    f == (|m: KeyMapping| EffectV::AddMapping(
                        tok,
                        m@.from,
                        None,
                        m@.to,
                        env as int,
                    )),
                decreases ms.len() - i,
            {
                let mc = clone_mapping(&ms[i]);
                let ghost pre_push = amb_effects(*amb);
                let KeyMapping { from, to } = mc;
                amb.effects.push(
                    Effect::AddMapping(amb.window_cycle_token, from, None, to, env),
                );
                proof {
                    assert(amb_effects(*amb) =~= pre_push.push(
                        EffectV::AddMapping(tok, ms@[i as int]@.from, None, ms@[i as int]@.to, env as int),
                    ));
                    assert(ms@.take(i as int + 1).map_values(f) =~= ms@.take(
                        i as int,
                    ).map_values(f).push(f(ms@[i as int])));
                    assert(amb_effects(*amb) =~= pre_eff + ms@.take(i as int + 1).map_values(f));
                }
                i += 1;
            }
            proof {
                assert(ms@.take(ms@.len() as int) =~= ms@);
                assert forall|k: int| 0 <= k < pre_eff.len() implies amb_effects(*amb)[k]
                    == pre_eff[k] by {
                    assert(amb_effects(*amb)[k] == (pre_eff + ms@.map_values(f))[k]);
                }
                assert(effects_frame(pre_eff, amb_effects(*amb)));
            }
            Ok(ValueType::Void)
        },
        Expr::Name(n) => Ok(arena.lookup(env, n)),
        Expr::Value(v) => Ok(clone_value(v)),
        Expr::Lambda(params, b) => {
            let ps = clone_string_vec(params);
            let bb = clone_block(b);
            let idx = arena.push_scope(Some(env));
            Ok(ValueType::Lambda(ps, bb, idx))
        },
        Expr::KeyAction(a) => {
            amb.effects.push(Effect::Emit(a.to_input_ev()));
            amb.effects.push(Effect::Emit(syn_report()));
            proof {
                assert(amb_effects(*amb) =~= amb_effects(*old(amb)).push(
                    EffectV::Emit(input_ev_of(*a)),
                ).push(EffectV::Emit(spec_syn_report())));
                lemma_frame_push2(
                    amb_effects(*old(amb)),
                    EffectV::Emit(input_ev_of(*a)),
                    EffectV::Emit(spec_syn_report()),
                );
            }
            Ok(ValueType::Void)
        },
        Expr::EatKeyAction(a) => {
            amb.effects.push(Effect::Eat(*a));
            proof {
                assert(amb_effects(*amb) =~= amb_effects(*old(amb)).push(EffectV::Eat(*a)));
                lemma_frame_push1(amb_effects(*old(amb)), EffectV::Eat(*a));
            }
            Ok(ValueType::Void)
        },
        Expr::SleepAction(d) => {
            amb.effects.push(Effect::Sleep(*d));
            proof {
                assert(amb_effects(*amb) =~= amb_effects(*old(amb)).push(EffectV::Sleep(*d)));
                lemma_frame_push1(amb_effects(*old(amb)), EffectV::Sleep(*d));
            }
            Ok(ValueType::Void)
        },
        Expr::FunctionCall(name, args) => {
            if fuel == 0 {
                return Err(EvalErr::OutOfFuel);
            }
            eval_call(name, args, env, arena, amb, fuel - 1)
        },
    }
}

/// Evaluate a built-in or user-lambda call; the built-ins are pinned by
/// `spec_eval_call`, the user-lambda body by the frame alone.
#[verifier::rlimit(100)]
fn eval_call(
    name: &String,
    args: &Vec<Expr>,
    env: usize,
    arena: &mut VarMapArena,
    amb: &mut Ambient,
    fuel: u64,
) -> (r: Result<ValueType, EvalErr>)
    ensures
        final(amb).window_cycle_token == old(amb).window_cycle_token,
        final(amb).window_class == old(amb).window_class,
        eval_common(
            old(arena)@,
            amb_effects(*old(amb)),
            final(arena)@,
            amb_effects(*final(amb)),
        ),
        ({
            let pre = EvalSt { arena: old(arena)@, effects: amb_effects(*old(amb)) };
            let ctx = EvalCtx {
                token: old(amb).window_cycle_token,
                class: class_view(old(amb).window_class),
            };
            match spec_eval_call(name@, args@, env as int, pre, ctx, fuel as nat) {
                Some(out) => final(arena)@ == out.0.arena && amb_effects(*final(amb))
                    == out.0.effects && res_matches(r, out.1),
                None => true,
            }
        }),
    decreases fuel, 8int, 0int,
{
    broadcast use lemma_effects_frame_trans;
    proof {
        reveal_with_fuel(spec_eval_call, 2);
        reveal_with_fuel(spec_eval_expr, 2);
    }

    proof {
        reveal_with_fuel(spec_eval_call, 2);
        reveal_with_fuel(spec_eval_expr, 2);
    }
    if fuel == 0 {
        return Err(EvalErr::OutOfFuel);
    }
    let nm = name.as_str();
    if str_eq_str(nm, "exit") {
        let v = if args.len() > 0 {
            match eval_expr(&args[0], env, arena, amb, fuel - 1) {
                Ok(v) => v,
                Err(er) => {
                    return Err(er);
                },
            }
        } else {
            ValueType::Number(0)
        };
        match v {
            ValueType::Number(n) => {
                let code: i32 = if n > i32::MAX as i64 {
                    i32::MAX
                } else if n < i32::MIN as i64 {
                    i32::MIN
                } else {
                    n as i32
                };
                let ghost pre_push = amb_effects(*amb);
                amb.effects.push(Effect::Exit(code));
                proof {
                    assert(amb_effects(*amb) =~= pre_push.push(EffectV::Exit(code)));
                    lemma_frame_push1(pre_push, EffectV::Exit(code));
                }
                Ok(ValueType::Void)
            },
            _ => Err(EvalErr::BadArgument),
        }
    } else if str_eq_str(nm, "send") {
        eval_call_send(name, args, env, arena, amb, fuel)
    } else if str_eq_str(nm, "active_window_class") {
        match &amb.window_class {
            Some(c) => Ok(ValueType::String(c.clone())),
            None => Ok(ValueType::Void),
        }
    } else if str_eq_str(nm, "on_window_change") {
        if args.len() != 1 {
            return Err(EvalErr::BadArgument);
        }
        let v = match eval_expr(&args[0], env, arena, amb, fuel - 1) {
            Ok(v) => v,
            Err(er) => {
                return Err(er);
            },
        };
        match v {
            ValueType::Lambda(_, b, envl) => {
                let ghost pre_push = amb_effects(*amb);
                amb.effects.push(Effect::RegisterCallback(b, envl));
                proof {
                    assert(amb_effects(*amb) =~= pre_push.push(
                        EffectV::RegisterCallback(envl as int),
                    ));
                    lemma_frame_push1(pre_push, EffectV::RegisterCallback(envl as int));
                }
                Ok(ValueType::Void)
            },
            _ => Err(EvalErr::TypeMismatch),
        }
    } else if str_eq_str(nm, "sleep") {
        if args.len() < 1 {
            return Err(EvalErr::BadArgument);
        }
        let v = match eval_expr(&args[0], env, arena, amb, fuel - 1) {
            Ok(v) => v,
            Err(er) => {
                return Err(er);
            },
        };
        match v {
            ValueType::Number(n) => {
                let ms: u64 = if n < 0 {
                    0
                } else {
                    n as u64
                };
                let ghost pre_push = amb_effects(*amb);
                amb.effects.push(Effect::Sleep(ms));
                proof {
                    assert(amb_effects(*amb) =~= pre_push.push(EffectV::Sleep(ms)));
                    lemma_frame_push1(pre_push, EffectV::Sleep(ms));
                }
                Ok(ValueType::Void)
            },
            _ => Err(EvalErr::BadArgument),
        }
    } else if str_eq_str(nm, "print") {
        if args.len() < 1 {
            return Err(EvalErr::BadArgument);
        }
        let v = match eval_expr(&args[0], env, arena, amb, fuel - 1) {
            Ok(v) => v,
            Err(er) => {
                return Err(er);
            },
        };
        let text = v.to_display_string();
        let ghost pre_push = amb_effects(*amb);
        amb.effects.push(Effect::Print(text));
        proof {
            assert(amb_effects(*amb) =~= pre_push.push(EffectV::Print(spec_display(v@))));
            lemma_frame_push1(pre_push, EffectV::Print(spec_display(v@)));
        }
        Ok(ValueType::Void)
    } else if str_eq_str(nm, "number_to_key") {
        if args.len() < 1 {
            return Err(EvalErr::BadArgument);
        }
        let v = match eval_expr(&args[0], env, arena, amb, fuel - 1) {
            Ok(v) => v,
            Err(er) => {
                return Err(er);
            },
        };
        match v {
            ValueType::Number(n) => {
                if n < 0 || n > 65535 {
                    return Err(EvalErr::UnknownKey);
                }
                match key_code_to_literal(n as u16) {
                    Some(s) => Ok(ValueType::String(s)),
                    None => Err(EvalErr::UnknownKey),
                }
            },
            _ => Err(EvalErr::BadArgument),
        }
    } else if str_eq_str(nm, "number_to_char") {
        if args.len() < 1 {
            return Err(EvalErr::BadArgument);
        }
        let v = match eval_expr(&args[0], env, arena, amb, fuel - 1) {
            Ok(v) => v,
            Err(er) => {
                return Err(er);
            },
        };
        match v {
            ValueType::Number(n) => {
                let byte: u8 = if n > 255 {
                    255
                } else if n < 0 {
                    0
                } else {
                    n as u8
                };
                let c = byte as char;
                let mut chars: Vec<char> = Vec::new();
                chars.push(c);
                proof {
                    assert(chars@ =~= seq![sat_u8(n as int) as char]);
                }
                Ok(ValueType::String(string_from_chars(&chars)))
            },
            _ => Err(EvalErr::BadArgument),
        }
    } else if str_eq_str(nm, "char_to_number") {
        if args.len() < 1 {
            return Err(EvalErr::BadArgument);
        }
        let v = match eval_expr(&args[0], env, arena, amb, fuel - 1) {
            Ok(v) => v,
            Err(er) => {
                return Err(er);
            },
        };
        match v {
            ValueType::String(s) => {
                let sl = s.as_str();
                if sl.unicode_len() != 1 {
                    return Err(EvalErr::BadArgument);
                }
                let c = sl.get_char(0);
                if (c as u32) >= 128 {
                    return Err(EvalErr::BadArgument);
                }
                Ok(ValueType::Number((c as u8) as i64))
            },
            _ => Err(EvalErr::BadArgument),
        }
    } else if str_eq_str(nm, "map_key") {
        eval_call_map_key(name, args, env, arena, amb, fuel)
    } else {
        eval_call_user(name, args, env, arena, amb, fuel)
    }
}

/// The `send` built-in: parse the sequence and log each event plus a SYN.
#[verifier::rlimit(100)]
fn eval_call_send(
    name: &String,
    args: &Vec<Expr>,
    env: usize,
    arena: &mut VarMapArena,
    amb: &mut Ambient,
    fuel: u64,
) -> (r: Result<ValueType, EvalErr>)
    requires
        fuel >= 1,
        name@ == "send"@,
        name@ != "exit"@,
    ensures
        final(amb).window_cycle_token == old(amb).window_cycle_token,
        final(amb).window_class == old(amb).window_class,
        eval_common(
            old(arena)@,
            amb_effects(*old(amb)),
            final(arena)@,
            amb_effects(*final(amb)),
        ),
        ({
            let pre = EvalSt { arena: old(arena)@, effects: amb_effects(*old(amb)) };
            let ctx = EvalCtx {
                token: old(amb).window_cycle_token,
                class: class_view(old(amb).window_class),
            };
            match spec_eval_call(name@, args@, env as int, pre, ctx, fuel as nat) {
                Some(out) => final(arena)@ == out.0.arena && amb_effects(*final(amb))
                    == out.0.effects && res_matches(r, out.1),
                None => true,
            }
        }),
    decreases fuel, 7int, 0int,
{
    broadcast use lemma_effects_frame_trans;
    proof {
        reveal_with_fuel(spec_eval_call, 2);
        reveal_with_fuel(spec_eval_expr, 2);
    }

        if args.len() < 1 {
            return Err(EvalErr::BadArgument);
        }
        let v = match eval_expr(&args[0], env, arena, amb, fuel - 1) {
            Ok(v) => v,
            Err(er) => {
                return Err(er);
            },
        };
        match v {
            ValueType::String(s) => {
                match parse_key_sequence(s.as_str()) {
                    Ok(parsed) => {
                        let acts = to_key_actions(parsed);
                        let ghost st1e = amb_effects(*amb);
                        let ghost av = acts@;
                        let ghost arena1 = arena@;
                        let mut i: usize = 0;
                        proof {
                            assert(av.take(0) =~= Seq::<KeyAction>::empty());
                            assert(emit_fx(Seq::<KeyAction>::empty()) =~= Seq::<
                                EffectV,
                            >::empty());
                            assert(amb_effects(*amb) =~= st1e + emit_fx(av.take(0)));
                        }
                        while i < acts.len()
                            invariant
                                i <= acts.len(),
                                acts@ == av,
                                arena@ == arena1,
                                amb.window_cycle_token == old(amb).window_cycle_token,
                                amb.window_class == old(amb).window_class,
                                amb_effects(*amb) =~= st1e + emit_fx(av.take(i as int)),
                            decreases acts.len() - i,
                        {
                            let a = acts[i];
                            let ghost pre_push = amb_effects(*amb);
                            amb.effects.push(Effect::Emit(a.to_input_ev()));
                            amb.effects.push(Effect::Emit(syn_report()));
                            proof {
                                lemma_render_push(av.take(i as int), a);
                                assert(av.take(i as int + 1) =~= av.take(i as int).push(a));
                                assert(emit_fx(av.take(i as int + 1)) =~= emit_fx(
                                    av.take(i as int),
                                ) + seq![
                                    EffectV::Emit(input_ev_of(a)),
                                    EffectV::Emit(spec_syn_report()),
                                ]);
                                assert(amb_effects(*amb) =~= pre_push.push(
                                    EffectV::Emit(input_ev_of(a)),
                                ).push(EffectV::Emit(spec_syn_report())));
                                assert(amb_effects(*amb) =~= st1e + emit_fx(
                                    av.take(i as int + 1),
                                ));
                            }
                            i += 1;
                        }
                        proof {
                            assert(av.take(av.len() as int) =~= av);
                            assert forall|k: int| 0 <= k < st1e.len() implies amb_effects(
                                *amb,
                            )[k] == st1e[k] by {
                                assert(amb_effects(*amb)[k] == (st1e + emit_fx(av))[k]);
                            }
                            assert(effects_frame(st1e, amb_effects(*amb)));
                        }
                        Ok(ValueType::Void)
                    },
                    Err(_) => Err(EvalErr::ParseFail),
                }
            },
            _ => Err(EvalErr::BadArgument),
        }
}

/// The `map_key` built-in: parse the left-hand side and log the mappings.
#[verifier::rlimit(100)]
fn eval_call_map_key(
    name: &String,
    args: &Vec<Expr>,
    env: usize,
    arena: &mut VarMapArena,
    amb: &mut Ambient,
    fuel: u64,
) -> (r: Result<ValueType, EvalErr>)
    requires
        fuel >= 1,
        name@ == "map_key"@,
        name@ != "exit"@ &&
        name@ != "send"@ &&
        name@ != "active_window_class"@ &&
        name@ != "on_window_change"@ &&
        name@ != "sleep"@ &&
        name@ != "print"@ &&
        name@ != "number_to_key"@ &&
        name@ != "number_to_char"@ &&
        name@ != "char_to_number"@,
    ensures
        final(amb).window_cycle_token == old(amb).window_cycle_token,
        final(amb).window_class == old(amb).window_class,
        eval_common(
            old(arena)@,
            amb_effects(*old(amb)),
            final(arena)@,
            amb_effects(*final(amb)),
        ),
        ({
            let pre = EvalSt { arena: old(arena)@, effects: amb_effects(*old(amb)) };
            let ctx = EvalCtx {
                token: old(amb).window_cycle_token,
                class: class_view(old(amb).window_class),
            };
            match spec_eval_call(name@, args@, env as int, pre, ctx, fuel as nat) {
                Some(out) => final(arena)@ == out.0.arena && amb_effects(*final(amb))
                    == out.0.effects && res_matches(r, out.1),
                None => true,
            }
        }),
    decreases fuel, 7int, 0int,
{
    broadcast use lemma_effects_frame_trans;
    proof {
        reveal_with_fuel(spec_eval_call, 2);
        reveal_with_fuel(spec_eval_expr, 2);
    }

        if args.len() < 2 {
            return Err(EvalErr::BadArgument);
        }
        let v0 = match eval_expr(&args[0], env, arena, amb, fuel - 1) {
            Ok(v) => v,
            Err(er) => {
                return Err(er);
            },
        };
        let v1 = match eval_expr(&args[1], env, arena, amb, fuel - 1) {
            Ok(v) => v,
            Err(er) => {
                return Err(er);
            },
        };
        match (v0, v1) {
            (ValueType::String(from), ValueType::Lambda(_, b, envl)) => {
                let ms = match key_mappings_from(from.as_str(), MappingTo::Lambda(b)) {
                    Ok(ms) => ms,
                    Err(er) => {
                        return Err(er);
                    },
                };
                let ghost st2e = amb_effects(*amb);
                let ghost arena2 = arena@;
                let ghost tok = amb.window_cycle_token;
                let ghost msv = ms@.map_values(|m: KeyMapping| m@);
                let ghost f2 = |mv: KeyMappingV| EffectV::AddMapping(
                    tok,
                    mv.from,
                    None,
                    mv.to,
                    envl as int,
                );
                let mut k: usize = 0;
                proof {
                    assert(msv.take(0) =~= Seq::<KeyMappingV>::empty());
                    assert(amb_effects(*amb) =~= st2e + msv.take(0).map_values(f2));
                }
                while k < ms.len()
                    invariant
                        k <= ms.len(),
                        arena@ == arena2,
                        amb.window_cycle_token == tok,
                        tok == old(amb).window_cycle_token,
                        amb.window_class == old(amb).window_class,
                        msv == ms@.map_values(|m: KeyMapping| m@),
                        amb_effects(*amb) =~= st2e + msv.take(k as int).map_values(f2),
                        f2 == (|mv: KeyMappingV| EffectV::AddMapping(
                            tok,
                            mv.from,
                            None,
                            mv.to,
                            envl as int,
                        )),
                    decreases ms.len() - k,
                {
                    let mc = clone_mapping(&ms[k]);
                    let ghost pre_push = amb_effects(*amb);
                    let KeyMapping { from: mf, to: mt } = mc;
                    amb.effects.push(
                        Effect::AddMapping(amb.window_cycle_token, mf, None, mt, envl),
                    );
                    proof {
                        assert(amb_effects(*amb) =~= pre_push.push(f2(msv[k as int])));
                        assert(msv.take(k as int + 1).map_values(f2) =~= msv.take(
                            k as int,
                        ).map_values(f2).push(f2(msv[k as int])));
                        assert(amb_effects(*amb) =~= st2e + msv.take(k as int + 1).map_values(
                            f2,
                        ));
                    }
                    k += 1;
                }
                proof {
                    assert(msv.take(msv.len() as int) =~= msv);
                    assert forall|j: int| 0 <= j < st2e.len() implies amb_effects(*amb)[j]
                        == st2e[j] by {
                        assert(amb_effects(*amb)[j] == (st2e + msv.map_values(f2))[j]);
                    }
                    assert(effects_frame(st2e, amb_effects(*amb)));
                }
                Ok(ValueType::Void)
            },
            _ => Err(EvalErr::TypeMismatch),
        }
}

/// A user-lambda call: fresh scope under the lambda's captured parent,
/// parameters bound left to right (Void when omitted), then the body.
#[verifier::rlimit(100)]
fn eval_call_user(
    name: &String,
    args: &Vec<Expr>,
    env: usize,
    arena: &mut VarMapArena,
    amb: &mut Ambient,
    fuel: u64,
) -> (r: Result<ValueType, EvalErr>)
    requires
        fuel >= 1,
        name@ != "exit"@ &&
        name@ != "send"@ &&
        name@ != "active_window_class"@ &&
        name@ != "on_window_change"@ &&
        name@ != "sleep"@ &&
        name@ != "print"@ &&
        name@ != "number_to_key"@ &&
        name@ != "number_to_char"@ &&
        name@ != "char_to_number"@ &&
        name@ != "map_key"@,
    ensures
        final(amb).window_cycle_token == old(amb).window_cycle_token,
        final(amb).window_class == old(amb).window_class,
        eval_common(
            old(arena)@,
            amb_effects(*old(amb)),
            final(arena)@,
            amb_effects(*final(amb)),
        ),
        ({
            let pre = EvalSt { arena: old(arena)@, effects: amb_effects(*old(amb)) };
            let ctx = EvalCtx {
                token: old(amb).window_cycle_token,
                class: class_view(old(amb).window_class),
            };
            match spec_eval_call(name@, args@, env as int, pre, ctx, fuel as nat) {
                Some(out) => final(arena)@ == out.0.arena && amb_effects(*final(amb))
                    == out.0.effects && res_matches(r, out.1),
                None => true,
            }
        }),
    decreases fuel, 7int, 0int,
{
    broadcast use lemma_effects_frame_trans;
    proof {
        reveal_with_fuel(spec_eval_call, 2);
        reveal_with_fuel(spec_eval_expr, 2);
    }

        let looked = arena.lookup(env, name);
        match looked {
            ValueType::Lambda(params, block, lenv) => {
                let parent: Option<usize> = if lenv < arena.maps.len() {
                    arena.maps[lenv].parent
                } else {
                    None
                };
                let callee_env = arena.push_scope(parent);
                proof {
                    assert(spec_eval_call(
                        name@,
                        args@,
                        env as int,
                        EvalSt { arena: old(arena)@, effects: amb_effects(*old(amb)) },
                        EvalCtx {
                            token: old(amb).window_cycle_token,
                            class: class_view(old(amb).window_class),
                        },
                        fuel as nat,
                    ) is None);
                }
                let mut i: usize = 0;
                while i < params.len()
                    invariant
                        effects_frame(amb_effects(*old(amb)), amb_effects(*amb)),
                        amb.window_cycle_token == old(amb).window_cycle_token,
                        amb.window_class == old(amb).window_class,
                        arena@.len() >= old(arena)@.len(),
                        i <= params.len(),
                        fuel >= 1,
                        spec_eval_call(
                            name@,
                            args@,
                            env as int,
                            EvalSt { arena: old(arena)@, effects: amb_effects(*old(amb)) },
                            EvalCtx {
                                token: old(amb).window_cycle_token,
                                class: class_view(old(amb).window_class),
                            },
                            fuel as nat,
                        ) is None,
                    decreases params.len() - i,
                {
                    let v = if i < args.len() {
                        match eval_expr(&args[i], env, arena, amb, fuel - 1) {
                            Ok(v) => v,
                            Err(er) => {
                                return Err(er);
                            },
                        }
                    } else {
                        ValueType::Void
                    };
                    arena.init(callee_env, &params[i], v);
                    i += 1;
                }
                let ret = match eval_block(&block, callee_env, arena, amb, fuel - 1) {
                    Ok(rr) => rr,
                    Err(er) => {
                        return Err(er);
                    },
                };
                match ret {
                    BlockRet::Nothing => Ok(ValueType::Void),
                    BlockRet::Return(v) => Ok(v),
                    BlockRet::Continue => Err(EvalErr::ContinueEscape),
                }
            },
            ValueType::Void => Err(EvalErr::UndefinedVariable),
            _ => Err(EvalErr::NotALambda),
        }
}

/// Evaluate a block in a fresh scope under the given environment; the
/// result, the arena and the appended effects are pinned by
/// `spec_eval_block`, down to any call of a user lambda inside.
#[verifier::rlimit(100)]
pub fn eval_block(
    block: &Block,
    env: usize,
    arena: &mut VarMapArena,
    amb: &mut Ambient,
    fuel: u64,
) -> (r: Result<BlockRet, EvalErr>)
    ensures
        final(amb).window_cycle_token == old(amb).window_cycle_token,
        final(amb).window_class == old(amb).window_class,
        eval_common(
            old(arena)@,
            amb_effects(*old(amb)),
            final(arena)@,
            amb_effects(*final(amb)),
        ),
        ({
            let pre = EvalSt { arena: old(arena)@, effects: amb_effects(*old(amb)) };
            let ctx = EvalCtx {
                token: old(amb).window_cycle_token,
                class: class_view(old(amb).window_class),
            };
            match spec_eval_block(*block, env as int, pre, ctx, fuel as nat) {
                Some(out) => final(arena)@ == out.0.arena && amb_effects(*final(amb))
                    == out.0.effects && bres_matches(r, out.1),
                None => true,
            }
        }),
    decreases fuel, 8int, 0int,
{
    broadcast use lemma_effects_frame_trans;
    proof {
        reveal_with_fuel(spec_eval_block, 2);
        reveal_with_fuel(spec_eval_stmts, 2);
    }

    proof {
        reveal_with_fuel(spec_eval_block, 2);
        reveal_with_fuel(spec_eval_stmts, 2);
    }
    let scope = arena.push_scope(Some(env));
    eval_stmts(block, 0, scope, arena, amb, fuel)
}

/// Run the statements of a block from position `i` on.
#[verifier::rlimit(100)]
fn eval_stmts(
    block: &Block,
    i: usize,
    scope: usize,
    arena: &mut VarMapArena,
    amb: &mut Ambient,
    fuel: u64,
) -> (r: Result<BlockRet, EvalErr>)
    requires
        i <= block.statements.len(),
    ensures
        final(amb).window_cycle_token == old(amb).window_cycle_token,
        final(amb).window_class == old(amb).window_class,
        eval_common(
            old(arena)@,
            amb_effects(*old(amb)),
            final(arena)@,
            amb_effects(*final(amb)),
        ),
        ({
            let pre = EvalSt { arena: old(arena)@, effects: amb_effects(*old(amb)) };
            let ctx = EvalCtx {
                token: old(amb).window_cycle_token,
                class: class_view(old(amb).window_class),
            };
            match spec_eval_stmts(
                block.statements@,
                i as int,
                scope as int,
                pre,
                ctx,
                fuel as nat,
            ) {
                Some(out) => final(arena)@ == out.0.arena && amb_effects(*final(amb))
                    == out.0.effects && bres_matches(r, out.1),
                None => true,
            }
        }),
    decreases fuel, 7int, block.statements.len() - i,
{
    broadcast use lemma_effects_frame_trans;
    proof {
        reveal_with_fuel(spec_eval_stmts, 2);
        reveal_with_fuel(spec_eval_expr, 2);
        reveal_with_fuel(spec_eval_block, 2);
        reveal_with_fuel(spec_eval_if, 2);
        reveal_with_fuel(spec_eval_for, 2);
    }

    proof {
        reveal_with_fuel(spec_eval_stmts, 2);
        reveal_with_fuel(spec_eval_expr, 2);
        reveal_with_fuel(spec_eval_block, 2);
        reveal_with_fuel(spec_eval_if, 2);
        reveal_with_fuel(spec_eval_for, 2);
    }
    if i >= block.statements.len() {
        return Ok(BlockRet::Nothing);
    }
    match &block.statements[i] {
        Stmt::Expr(e) => {
            if fuel == 0 {
                return Err(EvalErr::OutOfFuel);
            }
            match eval_expr(e, scope, arena, amb, fuel - 1) {
                Ok(_) => eval_stmts(block, i + 1, scope, arena, amb, fuel),
                Err(er) => Err(er),
            }
        },
        Stmt::Block(b2) => {
            if fuel == 0 {
                return Err(EvalErr::OutOfFuel);
            }
            match eval_block(b2, scope, arena, amb, fuel - 1) {
                Err(er) => Err(er),
                Ok(ret) => match ret {
                    BlockRet::Nothing => eval_stmts(block, i + 1, scope, arena, amb, fuel),
                    other => Ok(other),
                },
            }
        },
        Stmt::If(pairs, els) => {
            if fuel == 0 {
                return Err(EvalErr::OutOfFuel);
            }
            match eval_if(pairs, 0, els, scope, arena, amb, fuel) {
                Err(er) => Err(er),
                Ok(ret) => match ret {
                    BlockRet::Nothing => eval_stmts(block, i + 1, scope, arena, amb, fuel),
                    other => Ok(other),
                },
            }
        },
        Stmt::For(init_e, cond_e, step_e, body) => {
            if fuel == 0 {
                return Err(EvalErr::OutOfFuel);
            }
            match eval_expr(init_e, scope, arena, amb, fuel - 1) {
                Ok(_) => {},
                Err(er) => {
                    return Err(er);
                },
            }
            match eval_for(cond_e, step_e, body, scope, arena, amb, fuel - 1) {
                Err(er) => Err(er),
                Ok(ret) => match ret {
                    BlockRet::Nothing => eval_stmts(block, i + 1, scope, arena, amb, fuel),
                    other => Ok(other),
                },
            }
        },
        Stmt::Return(e) => {
            if fuel == 0 {
                return Err(EvalErr::OutOfFuel);
            }
            match eval_expr(e, scope, arena, amb, fuel - 1) {
                Ok(v) => Ok(BlockRet::Return(v)),
                Err(er) => Err(er),
            }
        },
        Stmt::Continue => Ok(BlockRet::Continue),
    }
}

/// Run an if-chain from branch `j` on: the first guard equal to Bool(true)
/// selects its block; with none, the else block or fall-through.
#[verifier::rlimit(100)]
fn eval_if(
    pairs: &Vec<(Expr, Block)>,
    j: usize,
    els: &Option<Block>,
    scope: usize,
    arena: &mut VarMapArena,
    amb: &mut Ambient,
    fuel: u64,
) -> (r: Result<BlockRet, EvalErr>)
    requires
        fuel >= 1,
        j <= pairs.len(),
    ensures
        final(amb).window_cycle_token == old(amb).window_cycle_token,
        final(amb).window_class == old(amb).window_class,
        eval_common(
            old(arena)@,
            amb_effects(*old(amb)),
            final(arena)@,
            amb_effects(*final(amb)),
        ),
        ({
            let pre = EvalSt { arena: old(arena)@, effects: amb_effects(*old(amb)) };
            let ctx = EvalCtx {
                token: old(amb).window_cycle_token,
                class: class_view(old(amb).window_class),
            };
            match spec_eval_if(pairs@, j as int, *els, scope as int, pre, ctx, fuel as nat) {
                Some(out) => final(arena)@ == out.0.arena && amb_effects(*final(amb))
                    == out.0.effects && bres_matches(r, out.1),
                None => true,
            }
        }),
    decreases fuel, 6int, pairs.len() - j,
{
    broadcast use lemma_effects_frame_trans;
    proof {
        reveal_with_fuel(spec_eval_if, 2);
        reveal_with_fuel(spec_eval_expr, 2);
        reveal_with_fuel(spec_eval_block, 2);
    }

    proof {
        reveal_with_fuel(spec_eval_if, 2);
        reveal_with_fuel(spec_eval_expr, 2);
        reveal_with_fuel(spec_eval_block, 2);
    }
    if j >= pairs.len() {
        match els {
            Some(eb) => eval_block(eb, scope, arena, amb, fuel - 1),
            None => Ok(BlockRet::Nothing),
        }
    } else {
        let pair = &pairs[j];
        match eval_expr(&pair.0, scope, arena, amb, fuel - 1) {
            Err(er) => Err(er),
            Ok(c) => {
                let is_true = match c {
                    ValueType::Bool(x) => x,
                    _ => false,
                };
                if is_true {
                    eval_block(&pair.1, scope, arena, amb, fuel - 1)
                } else {
                    eval_if(pairs, j + 1, els, scope, arena, amb, fuel)
                }
            },
        }
    }
}

/// Run a for loop after its init: guard, body, step, one unit of fuel per
/// round; a `return` from the body ends the loop, a non-Bool guard is fatal.
#[verifier::rlimit(100)]
fn eval_for(
    cond: &Expr,
    step: &Expr,
    body: &Block,
    scope: usize,
    arena: &mut VarMapArena,
    amb: &mut Ambient,
    fl: u64,
) -> (r: Result<BlockRet, EvalErr>)
    ensures
        final(amb).window_cycle_token == old(amb).window_cycle_token,
        final(amb).window_class == old(amb).window_class,
        eval_common(
            old(arena)@,
            amb_effects(*old(amb)),
            final(arena)@,
            amb_effects(*final(amb)),
        ),
        ({
            let pre = EvalSt { arena: old(arena)@, effects: amb_effects(*old(amb)) };
            let ctx = EvalCtx {
                token: old(amb).window_cycle_token,
                class: class_view(old(amb).window_class),
            };
            match spec_eval_for(*cond, *step, *body, scope as int, pre, ctx, fl as nat) {
                Some(out) => final(arena)@ == out.0.arena && amb_effects(*final(amb))
                    == out.0.effects && bres_matches(r, out.1),
                None => true,
            }
        }),
    decreases fl, 5int, 0int,
{
    broadcast use lemma_effects_frame_trans;
    proof {
        reveal_with_fuel(spec_eval_for, 2);
        reveal_with_fuel(spec_eval_expr, 2);
        reveal_with_fuel(spec_eval_block, 2);
    }

    proof {
        reveal_with_fuel(spec_eval_for, 2);
        reveal_with_fuel(spec_eval_expr, 2);
        reveal_with_fuel(spec_eval_block, 2);
    }
    if fl == 0 {
        return Err(EvalErr::OutOfFuel);
    }
    let f1 = fl - 1;
    match eval_expr(cond, scope, arena, amb, f1) {
        Err(er) => Err(er),
        Ok(c) => match c {
            ValueType::Bool(go) => {
                if !go {
                    return Ok(BlockRet::Nothing);
                }
                match eval_block(body, scope, arena, amb, f1) {
                    Err(er) => Err(er),
                    Ok(ret) => match ret {
                        BlockRet::Return(v) => Ok(BlockRet::Return(v)),
                        _ => match eval_expr(step, scope, arena, amb, f1) {
                            Err(er) => Err(er),
                            Ok(_) => eval_for(cond, step, body, scope, arena, amb, f1),
                        },
                    },
                }
            },
            _ => Err(EvalErr::TypeMismatch),
        },
    }
}

} // verus!
