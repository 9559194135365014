//! The script data model: values, the statement/expression tree, key
//! mappings, and lexically scoped environments held in an arena.

use vstd::prelude::*;
use crate::keys::{KeyAction, KeyActionWithMods};

verus! {

/// A script value. Numbers are signed 64-bit integers; arithmetic that
/// leaves their range is a fatal evaluation error.
#[derive(Debug)]
pub enum ValueType {
    Bool(bool),
    String(String),
    Lambda(Vec<String>, Block, usize),
    Number(i64),
    Void,
}

/// The mathematical shape of a value; a lambda is seen as its parameter
/// names and the arena index of its captured environment.
pub enum ValueV {
    Bool(bool),
    Str(Seq<char>),
    Lambda(Seq<Seq<char>>, int),
    Num(int),
    Void,
}

impl View for ValueType {
    type V = ValueV;

    open spec fn view(&self) -> ValueV {
        match self {
            ValueType::Bool(b) => ValueV::Bool(*b),
            ValueType::String(s) => ValueV::Str(s@),
            ValueType::Lambda(params, _block, env) => ValueV::Lambda(
                params@.map_values(|p: String| p@),
                *env as int,
            ),
            ValueType::Number(n) => ValueV::Num(*n as int),
            ValueType::Void => ValueV::Void,
        }
    }
}

/// Equality of values: defined within a non-lambda tag, false across tags,
/// and lambdas never compare equal.
pub open spec fn spec_value_eq(a: ValueV, b: ValueV) -> bool {
    match (a, b) {
        (ValueV::Bool(x), ValueV::Bool(y)) => x == y,
        (ValueV::Str(x), ValueV::Str(y)) => x == y,
        (ValueV::Num(x), ValueV::Num(y)) => x == y,
        _ => false,
    }
}

impl ValueType {
    /// Equality as the script sees it.
    pub fn eq(&self, other: &ValueType) -> (r: bool)
        ensures
            r == spec_value_eq(self@, other@),
    {
        match (self, other) {
            (ValueType::Bool(x), ValueType::Bool(y)) => *x == *y,
            (ValueType::String(x), ValueType::String(y)) => *x == *y,
            (ValueType::Number(x), ValueType::Number(y)) => *x == *y,
            _ => false,
        }
    }
}

/// A block of statements.
#[derive(Debug)]
pub struct Block {
    pub statements: Vec<Stmt>,
}

impl Block {
    pub fn new() -> (r: Block)
        ensures
            r.statements@ =~= Seq::<Stmt>::empty(),
    {
        Block { statements: Vec::new() }
    }
}

#[derive(Debug)]
pub enum Stmt {
    Expr(Expr),
    Block(Block),
    If(Vec<(Expr, Block)>, Option<Block>),
    For(Box<Expr>, Box<Expr>, Box<Expr>, Block),
    Return(Expr),
    Continue,
}

/// What a key mapping rewrites to: a fixed key-action sequence, or a lambda
/// body run at trigger time.
#[derive(Debug)]
pub enum MappingTo {
    Actions(Vec<KeyAction>),
    Lambda(Block),
}

/// The mathematical shape of a mapping target; a lambda target is opaque
/// but for its kind.
pub enum MappingToV {
    Actions(Seq<KeyAction>),
    Lambda,
}

impl View for MappingTo {
    type V = MappingToV;

    open spec fn view(&self) -> MappingToV {
        match self {
            MappingTo::Actions(v) => MappingToV::Actions(v@),
            MappingTo::Lambda(_) => MappingToV::Lambda,
        }
    }
}

/// One installed rewrite: a single from-edge and its target.
#[derive(Debug)]
pub struct KeyMapping {
    pub from: KeyActionWithMods,
    pub to: MappingTo,
}

pub struct KeyMappingV {
    pub from: KeyActionWithMods,
    pub to: MappingToV,
}

impl View for KeyMapping {
    type V = KeyMappingV;

    open spec fn view(&self) -> KeyMappingV {
        KeyMappingV { from: self.from, to: self.to@ }
    }
}

#[derive(Debug)]
pub enum Expr {
    Eq(Box<Expr>, Box<Expr>),
    Neq(Box<Expr>, Box<Expr>),
    LT(Box<Expr>, Box<Expr>),
    GT(Box<Expr>, Box<Expr>),
    Add(Box<Expr>, Box<Expr>),
    Sub(Box<Expr>, Box<Expr>),
    Div(Box<Expr>, Box<Expr>),
    Mul(Box<Expr>, Box<Expr>),
    Neg(Box<Expr>),
    And(Box<Expr>, Box<Expr>),
    Or(Box<Expr>, Box<Expr>),
    Init(String, Box<Expr>),
    Assign(String, Box<Expr>),
    KeyMapping(Vec<KeyMapping>),
    Name(String),
    Value(ValueType),
    Lambda(Vec<String>, Block),
    FunctionCall(String, Vec<Expr>),
    KeyAction(KeyAction),
    EatKeyAction(KeyAction),
    SleepAction(u64),
}

/// How a block finished: fell through, hit `continue`, or returned a value.
#[derive(Debug)]
pub enum BlockRet {
    Nothing,
    Continue,
    Return(ValueType),
}

/// Copy a vector of names, keeping its view.
pub fn clone_string_vec(v: &Vec<String>) -> (r: Vec<String>)
    ensures
        r@.map_values(|p: String| p@) == v@.map_values(|p: String| p@),
{
    let mut out: Vec<String> = Vec::new();
    let mut i: usize = 0;
    while i < v.len()
        invariant
            i <= v.len(),
            out@.len() == i as int,
            forall|j: int| 0 <= j < i ==> (#[trigger] out@[j])@ == v@[j]@,
        decreases v.len() - i,
    {
        out.push(v[i].clone());
        i += 1;
    }
    proof {
        assert(out@.map_values(|p: String| p@) =~= v@.map_values(|p: String| p@));
    }
    out
}

/// Copy a value, keeping its view; a lambda's body travels along through
/// `Clone`.
pub fn clone_value(v: &ValueType) -> (r: ValueType)
    ensures
        r@ == v@,
    decreases *v,
{
    match v {
        ValueType::Bool(b) => ValueType::Bool(*b),
        ValueType::String(s) => ValueType::String(s.clone()),
        ValueType::Lambda(params, block, env) => ValueType::Lambda(
            clone_string_vec(params),
            clone_block(block),
            *env,
        ),
        ValueType::Number(n) => ValueType::Number(*n),
        ValueType::Void => ValueType::Void,
    }
}


/// Copy a block; the statement tree is rebuilt node by node.
#[verifier::loop_isolation(false)]
pub fn clone_block(b: &Block) -> (r: Block)
    decreases *b,
{
    let mut statements: Vec<Stmt> = Vec::new();
    let mut i: usize = 0;
    while i < b.statements.len()
        invariant
            i <= b.statements.len(),
        decreases b.statements.len() - i,
    {
        proof {
            assert(decreases_to!(b.statements => b.statements[i as int]));
        }
        statements.push(clone_stmt(&b.statements[i]));
        i += 1;
    }
    Block { statements }
}

#[verifier::loop_isolation(false)]
pub fn clone_stmt(s: &Stmt) -> (r: Stmt)
    decreases *s,
{
    match s {
        Stmt::Expr(e) => Stmt::Expr(clone_expr(e)),
        Stmt::Block(b) => Stmt::Block(clone_block(b)),
        Stmt::If(pairs, els) => {
            let mut out: Vec<(Expr, Block)> = Vec::new();
            let mut i: usize = 0;
            while i < pairs.len()
                invariant
                    i <= pairs.len(),
                decreases pairs.len() - i,
            {
                proof {
                    assert(decreases_to!(*pairs => pairs[i as int]));
                }
                let pair = &pairs[i];
                out.push((clone_expr(&pair.0), clone_block(&pair.1)));
                i += 1;
            }
            let e2 = match els {
                Some(b) => Some(clone_block(b)),
                None => None,
            };
            Stmt::If(out, e2)
        },
        Stmt::For(init, cond, step, body) => Stmt::For(
            Box::new(clone_expr(init)),
            Box::new(clone_expr(cond)),
            Box::new(clone_expr(step)),
            clone_block(body),
        ),
        Stmt::Return(e) => Stmt::Return(clone_expr(e)),
        Stmt::Continue => Stmt::Continue,
    }
}

/// Copy a mapping, keeping its view.
#[verifier::loop_isolation(false)]
pub fn clone_mapping(m: &KeyMapping) -> (r: KeyMapping)
    ensures
        r@ == m@,
    decreases *m,
{
    let to = match &m.to {
        MappingTo::Actions(actions) => {
            let mut out: Vec<KeyAction> = Vec::new();
            let mut i: usize = 0;
            while i < actions.len()
                invariant
                    i <= actions.len(),
                    out@ =~= actions@.take(i as int),
                decreases actions.len() - i,
            {
                out.push(actions[i]);
                proof {
                    assert(out@ =~= actions@.take(i as int + 1));
                }
                i += 1;
            }
            proof {
                assert(actions@.take(actions@.len() as int) =~= actions@);
            }
            MappingTo::Actions(out)
        },
        MappingTo::Lambda(b) => MappingTo::Lambda(clone_block(b)),
    };
    KeyMapping { from: m.from, to }
}

#[verifier::loop_isolation(false)]
pub fn clone_expr(e: &Expr) -> (r: Expr)
    decreases *e,
{
    match e {
        Expr::Eq(a, b) => Expr::Eq(Box::new(clone_expr(a)), Box::new(clone_expr(b))),
        Expr::Neq(a, b) => Expr::Neq(Box::new(clone_expr(a)), Box::new(clone_expr(b))),
        Expr::LT(a, b) => Expr::LT(Box::new(clone_expr(a)), Box::new(clone_expr(b))),
        Expr::GT(a, b) => Expr::GT(Box::new(clone_expr(a)), Box::new(clone_expr(b))),
        Expr::Add(a, b) => Expr::Add(Box::new(clone_expr(a)), Box::new(clone_expr(b))),
        Expr::Sub(a, b) => Expr::Sub(Box::new(clone_expr(a)), Box::new(clone_expr(b))),
        Expr::Div(a, b) => Expr::Div(Box::new(clone_expr(a)), Box::new(clone_expr(b))),
        Expr::Mul(a, b) => Expr::Mul(Box::new(clone_expr(a)), Box::new(clone_expr(b))),
        Expr::Neg(a) => Expr::Neg(Box::new(clone_expr(a))),
        Expr::And(a, b) => Expr::And(Box::new(clone_expr(a)), Box::new(clone_expr(b))),
        Expr::Or(a, b) => Expr::Or(Box::new(clone_expr(a)), Box::new(clone_expr(b))),
        Expr::Init(n, a) => Expr::Init(n.clone(), Box::new(clone_expr(a))),
        Expr::Assign(n, a) => Expr::Assign(n.clone(), Box::new(clone_expr(a))),
        Expr::KeyMapping(ms) => {
            let mut out: Vec<KeyMapping> = Vec::new();
            let mut i: usize = 0;
            while i < ms.len()
                invariant
                    i <= ms.len(),
                decreases ms.len() - i,
            {
                proof {
                    assert(decreases_to!(*ms => ms[i as int]));
                }
                out.push(clone_mapping(&ms[i]));
                i += 1;
            }
            Expr::KeyMapping(out)
        },
        Expr::Name(n) => Expr::Name(n.clone()),
        Expr::Value(v) => Expr::Value(clone_value(v)),
        Expr::Lambda(params, b) => Expr::Lambda(clone_string_vec(params), clone_block(b)),
        Expr::FunctionCall(n, args) => {
            let mut out: Vec<Expr> = Vec::new();
            let mut i: usize = 0;
            while i < args.len()
                invariant
                    i <= args.len(),
                decreases args.len() - i,
            {
                proof {
                    assert(decreases_to!(*args => args[i as int]));
                }
                out.push(clone_expr(&args[i]));
                i += 1;
            }
            Expr::FunctionCall(n.clone(), out)
        },
        Expr::KeyAction(a) => Expr::KeyAction(*a),
        Expr::EatKeyAction(a) => Expr::EatKeyAction(*a),
        Expr::SleepAction(d) => Expr::SleepAction(*d),
    }
}

/// One lexical scope: name/value pairs in binding order, and the arena index
/// of the enclosing scope.
#[derive(Debug)]
pub struct VarMap {
    pub scope_values: Vec<(String, ValueType)>,
    pub parent: Option<usize>,
}

impl VarMap {
    pub fn new(parent: Option<usize>) -> (r: VarMap)
        ensures
            r@ == (VarMapV { entries: Seq::<(Seq<char>, ValueV)>::empty(), parent: match parent {
                Some(p) => Some(p as int),
                None => None::<int>,
            } }),
    {
        VarMap { scope_values: Vec::new(), parent }
    }
}

#[verifier::ext_equal]
pub struct VarMapV {
    pub entries: Seq<(Seq<char>, ValueV)>,
    pub parent: Option<int>,
}

impl View for VarMap {
    type V = VarMapV;

    open spec fn view(&self) -> VarMapV {
        VarMapV {
            entries: self.scope_values@.map_values(|e: (String, ValueType)| (e.0@, e.1@)),
            parent: match self.parent {
                Some(p) => Some(p as int),
                None => None,
            },
        }
    }
}

/// All scopes ever created, addressed by index; a scope's parent always has a
/// smaller index, which the operations below check.
#[derive(Debug)]
pub struct VarMapArena {
    pub maps: Vec<VarMap>,
}

impl View for VarMapArena {
    type V = Seq<VarMapV>;

    open spec fn view(&self) -> Seq<VarMapV> {
        self.maps@.map_values(|m: VarMap| m@)
    }
}

/// The first entry of a scope bound to `name`, if any.
pub open spec fn find_entry(entries: Seq<(Seq<char>, ValueV)>, name: Seq<char>) -> Option<ValueV>
    decreases entries.len(),
{
    if entries.len() == 0 {
        None
    } else if entries[0].0 == name {
        Some(entries[0].1)
    } else {
        find_entry(entries.drop_first(), name)
    }
}

/// Index of the first entry bound to `name`, or -1.
pub open spec fn find_entry_idx(entries: Seq<(Seq<char>, ValueV)>, name: Seq<char>) -> int
    decreases entries.len(),
{
    if entries.len() == 0 {
        -1
    } else if entries[0].0 == name {
        0
    } else {
        let r = find_entry_idx(entries.drop_first(), name);
        if r == -1 {
            -1
        } else {
            r + 1
        }
    }
}

/// Name lookup walks the scope chain and yields Void when unbound.
pub open spec fn spec_lookup(arena: Seq<VarMapV>, env: int, name: Seq<char>) -> ValueV
    decreases env when env >= 0
{
    if !(0 <= env < arena.len()) {
        ValueV::Void
    } else {
        match find_entry(arena[env].entries, name) {
            Some(v) => v,
            None => match arena[env].parent {
                Some(p) => if 0 <= p < env {
                    spec_lookup(arena, p, name)
                } else {
                    ValueV::Void
                },
                None => ValueV::Void,
            },
        }
    }
}

/// `let` writes into the innermost scope: the first binding of the name is
/// replaced, else the pair is appended.
pub open spec fn spec_init(arena: Seq<VarMapV>, env: int, name: Seq<char>, v: ValueV) -> Seq<
    VarMapV,
> {
    if !(0 <= env < arena.len()) {
        arena
    } else {
        let m = arena[env];
        let idx = find_entry_idx(m.entries, name);
        if idx >= 0 {
            arena.update(env, VarMapV { entries: m.entries.update(idx, (name, v)), ..m })
        } else {
            arena.update(env, VarMapV { entries: m.entries.push((name, v)), ..m })
        }
    }
}

/// Assignment rewrites the nearest enclosing binding; `None` when unbound.
pub open spec fn spec_assign(arena: Seq<VarMapV>, env: int, name: Seq<char>, v: ValueV) -> Option<
    Seq<VarMapV>,
>
    decreases env when env >= 0
{
    if !(0 <= env < arena.len()) {
        None
    } else {
        let m = arena[env];
        let idx = find_entry_idx(m.entries, name);
        if idx >= 0 {
            Some(arena.update(env, VarMapV { entries: m.entries.update(idx, (name, v)), ..m }))
        } else {
            match m.parent {
                Some(p) => if 0 <= p < env {
                    spec_assign(arena, p, name, v)
                } else {
                    None
                },
                None => None,
            }
        }
    }
}

impl VarMapArena {
    /// An arena holding one root scope.
    pub fn new_root() -> (r: VarMapArena)
        ensures
            r@ =~= seq![
                VarMapV { entries: Seq::<(Seq<char>, ValueV)>::empty(), parent: None::<int> },
            ],
    {
        let mut maps: Vec<VarMap> = Vec::new();
        maps.push(VarMap::new(None));
        VarMapArena { maps }
    }

    /// Open a fresh scope under the given parent.
    pub fn push_scope(&mut self, parent: Option<usize>) -> (idx: usize)
        ensures
            idx as int == old(self)@.len(),
            final(self)@ =~= old(self)@.push(
                VarMapV { entries: Seq::<(Seq<char>, ValueV)>::empty(), parent: match parent {
                    Some(p) => Some(p as int),
                    None => None::<int>,
                } },
            ),
    {
        let idx = self.maps.len();
        self.maps.push(VarMap::new(parent));
        idx
    }

    fn find_in_scope(&self, env: usize, name: &String) -> (r: Option<usize>)
        requires
            (env as int) < self@.len(),
        ensures
            match r {
                Some(i) => i as int == find_entry_idx(self@[env as int].entries, name@) && (
                i as int) < self@[env as int].entries.len() && self@[env as int].entries[
                    i as int
                ].0 == name@,
                None => find_entry_idx(self@[env as int].entries, name@) == -1,
            },
    {
        let entries = &self.maps[env].scope_values;
        let ghost ev = self@[env as int].entries;
        let mut i: usize = 0;
        while i < entries.len()
            invariant
                i <= entries.len(),
                ev == self@[env as int].entries,
                (env as int) < self@.len(),
                entries == &self.maps[env as int].scope_values,
                ev.len() == entries@.len(),
                forall|j: int| 0 <= j < ev.len() ==> (#[trigger] ev[j]).0 == entries@[j].0@,
                forall|j: int| 0 <= j < i ==> (#[trigger] ev[j]).0 != name@,
            decreases entries.len() - i,
        {
            if entries[i].0 == *name {
                proof {
                    lemma_find_idx_first(ev, name@, i as int);
                }
                return Some(i);
            }
            i += 1;
        }
        proof {
            lemma_find_idx_missing(ev, name@);
        }
        None
    }

    /// Name lookup along the scope chain; Void when unbound.
    pub fn lookup(&self, env: usize, name: &String) -> (r: ValueType)
        ensures
            r@ == spec_lookup(self@, env as int, name@),
    {
        let mut cur = env;
        loop
            invariant
                spec_lookup(self@, env as int, name@) == spec_lookup(self@, cur as int, name@),
            decreases cur,
        {
            if cur >= self.maps.len() {
                return ValueType::Void;
            }
            match self.find_in_scope(cur, name) {
                Some(i) => {
                    let v = clone_value(&self.maps[cur].scope_values[i].1);
                    proof {
                        lemma_find_entry_at(self@[cur as int].entries, name@);
                    }
                    return v;
                },
                None => {
                    proof {
                        lemma_find_entry_none(self@[cur as int].entries, name@);
                    }
                    match self.maps[cur].parent {
                        Some(p) => {
                            if p < cur {
                                cur = p;
                            } else {
                                return ValueType::Void;
                            }
                        },
                        None => {
                            return ValueType::Void;
                        },
                    }
                },
            }
        }
    }

    /// `let`: bind in the innermost scope.
    pub fn init(&mut self, env: usize, name: &String, value: ValueType)
        ensures
            final(self)@ =~~= spec_init(old(self)@, env as int, name@, value@),
    {
        if env >= self.maps.len() {
            return ;
        }
        let ghost oldm = self@;
        match self.find_in_scope(env, name) {
            Some(i) => {
                let ghost vv = value@;
                self.maps[env].scope_values[i].1 = value;
                proof {
                    lemma_find_entry_at(oldm[env as int].entries, name@);
                    assert(self@[env as int].entries =~= oldm[env as int].entries.update(
                        i as int,
                        (name@, vv),
                    ));
                    assert(self@ =~~= spec_init(oldm, env as int, name@, vv));
                }
            },
            None => {
                let ghost vv = value@;
                self.maps[env].scope_values.push((name.clone(), value));
                proof {
                    assert(self@[env as int].entries =~= oldm[env as int].entries.push(
                        (name@, vv),
                    ));
                    assert(self@ =~~= spec_init(oldm, env as int, name@, vv));
                }
            },
        }
    }

    /// Assignment: rewrite the nearest enclosing binding; false when unbound.
    pub fn assign(&mut self, env: usize, name: &String, value: ValueType) -> (ok: bool)
        ensures
            match spec_assign(old(self)@, env as int, name@, value@) {
                Some(a2) => ok && final(self)@ =~~= a2,
                None => !ok && final(self)@ == old(self)@,
            },
    {
        let mut cur = env;
        loop
            invariant
                self@ == old(self)@,
                spec_assign(self@, env as int, name@, value@) == spec_assign(
                    self@,
                    cur as int,
                    name@,
                    value@,
                ),
            decreases cur,
        {
            if cur >= self.maps.len() {
                return false;
            }
            match self.find_in_scope(cur, name) {
                Some(i) => {
                    let ghost oldm = self@;
                    let ghost vv = value@;
                    self.maps[cur].scope_values[i].1 = value;
                    proof {
                        lemma_find_entry_at(oldm[cur as int].entries, name@);
                        assert(self@[cur as int].entries =~= oldm[cur as int].entries.update(
                            i as int,
                            (name@, vv),
                        ));
                        match spec_assign(oldm, cur as int, name@, vv) {
                            Some(a2) => {
                                assert(self@ =~~= a2);
                            },
                            None => {
                                assert(false);
                            },
                        }
                    }
                    return true;
                },
                None => {
                    match self.maps[cur].parent {
                        Some(p) => {
                            if p < cur {
                                cur = p;
                            } else {
                                return false;
                            }
                        },
                        None => {
                            return false;
                        },
                    }
                },
            }
        }
    }
}

proof fn lemma_find_idx_first(entries: Seq<(Seq<char>, ValueV)>, name: Seq<char>, i: int)
    requires
        0 <= i < entries.len(),
        entries[i].0 == name,
        forall|j: int| 0 <= j < i ==> (#[trigger] entries[j]).0 != name,
    ensures
        find_entry_idx(entries, name) == i,
    decreases entries.len(),
{
    if i > 0 {
        let rest = entries.drop_first();
        assert forall|j: int| 0 <= j < i - 1 implies (#[trigger] rest[j]).0 != name by {
            assert(rest[j] == entries[j + 1]);
        }
        assert(rest[i - 1] == entries[i]);
        lemma_find_idx_first(rest, name, i - 1);
    }
}

proof fn lemma_find_idx_missing(entries: Seq<(Seq<char>, ValueV)>, name: Seq<char>)
    requires
        forall|j: int| 0 <= j < entries.len() ==> (#[trigger] entries[j]).0 != name,
    ensures
        find_entry_idx(entries, name) == -1,
    decreases entries.len(),
{
    if entries.len() > 0 {
        let rest = entries.drop_first();
        assert forall|j: int| 0 <= j < rest.len() implies (#[trigger] rest[j]).0 != name by {
            assert(rest[j] == entries[j + 1]);
        }
        lemma_find_idx_missing(rest, name);
    }
}

proof fn lemma_find_entry_at(entries: Seq<(Seq<char>, ValueV)>, name: Seq<char>)
    requires
        find_entry_idx(entries, name) >= 0,
    ensures
        0 <= find_entry_idx(entries, name) < entries.len(),
        find_entry(entries, name) == Some(entries[find_entry_idx(entries, name)].1),
        entries[find_entry_idx(entries, name)].0 == name,
    decreases entries.len(),
{
    if entries.len() > 0 && entries[0].0 != name {
        lemma_find_entry_none_or(entries.drop_first(), name);
        if find_entry_idx(entries.drop_first(), name) >= 0 {
            lemma_find_entry_at(entries.drop_first(), name);
        }
    }
}

proof fn lemma_find_entry_none_or(entries: Seq<(Seq<char>, ValueV)>, name: Seq<char>)
    ensures
        find_entry_idx(entries, name) >= -1,
    decreases entries.len(),
{
    if entries.len() > 0 && entries[0].0 != name {
        lemma_find_entry_none_or(entries.drop_first(), name);
    }
}

proof fn lemma_find_entry_none(entries: Seq<(Seq<char>, ValueV)>, name: Seq<char>)
    requires
        find_entry_idx(entries, name) == -1,
    ensures
        find_entry(entries, name) is None,
    decreases entries.len(),
{
    if entries.len() > 0 && entries[0].0 != name {
        lemma_find_entry_none_or(entries.drop_first(), name);
        lemma_find_entry_none(entries.drop_first(), name);
    }
}

} // verus!
