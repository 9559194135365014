//! The runtime mediator: it owns the mapping table, the window-cycle token,
//! the callback registry and the eat set, consumes input events, and decides
//! for each one whether to forward, rewrite, swallow, or trigger a lambda.

use vstd::prelude::*;
use crate::keys::{
    InputEvent, KeyAction, KeyActionWithMods, KeyModifierFlags, input_ev_of, spec_syn_report,
    syn_report, EV_KEY,
};
use crate::script::{Block, MappingTo, MappingToV, clone_block};

verus! {

/// One installed mapping: the from-edge, the window-class predicate, the
/// window-cycle token it was registered under, the target, and the arena
/// index of the environment a lambda target runs in.
#[derive(Debug)]
pub struct MappingEntry {
    pub from: KeyActionWithMods,
    pub window_class: Option<String>,
    pub token: u64,
    pub to: MappingTo,
    pub env: usize,
}

pub struct MappingEntryV {
    pub from: KeyActionWithMods,
    pub window_class: Option<Seq<char>>,
    pub token: u64,
    pub to: MappingToV,
    pub env: int,
}

impl View for MappingEntry {
    type V = MappingEntryV;

    open spec fn view(&self) -> MappingEntryV {
        MappingEntryV {
            from: self.from,
            window_class: match &self.window_class {
                Some(c) => Some(c@),
                None => None,
            },
            token: self.token,
            to: self.to@,
            env: self.env as int,
        }
    }
}

/// A message from the evaluator to the mediator.
#[derive(Debug)]
pub enum ExecutionMessage {
    AddMapping(u64, KeyActionWithMods, Option<String>, MappingTo, usize),
    EatEv(KeyAction),
    RegisterWindowChangeCallback(Block, usize),
    Exit(i32),
}

/// What the mediator decides for one input event.
#[derive(Debug)]
pub enum DispatchOut {
    Forward(InputEvent),
    Emit(Vec<InputEvent>),
    Swallow,
    Trigger(Block, usize),
}

/// The mediator's state.
#[derive(Debug)]
pub struct MediatorState {
    pub mappings: Vec<MappingEntry>,
    pub eat_list: Vec<KeyAction>,
    pub window_cycle_token: u64,
    pub last_window_class: Option<String>,
    pub callbacks: Vec<(Block, usize)>,
    pub modifiers: KeyModifierFlags,
}

#[verifier::ext_equal]
pub struct MediatorV {
    pub mappings: Seq<MappingEntryV>,
    pub eats: Seq<KeyAction>,
    pub token: u64,
    pub last_class: Option<Seq<char>>,
    pub callback_envs: Seq<int>,
    pub modifiers: KeyModifierFlags,
}

impl View for MediatorState {
    type V = MediatorV;

    open spec fn view(&self) -> MediatorV {
        MediatorV {
            mappings: self.mappings@.map_values(|e: MappingEntry| e@),
            eats: self.eat_list@,
            token: self.window_cycle_token,
            last_class: match &self.last_window_class {
                Some(c) => Some(c@),
                None => None,
            },
            callback_envs: self.callbacks@.map_values(|c: (Block, usize)| c.1 as int),
            modifiers: self.modifiers,
        }
    }
}

/// How many pending swallows the eat set holds for an action.
pub open spec fn eat_count(s: Seq<KeyAction>, a: KeyAction) -> nat
    decreases s.len(),
{
    if s.len() == 0 {
        0
    } else {
        (if s[0] == a {
            1nat
        } else {
            0nat
        }) + eat_count(s.drop_first(), a)
    }
}

/// The eat set with one occurrence of `a` taken out.
pub open spec fn remove_first(s: Seq<KeyAction>, a: KeyAction) -> Seq<KeyAction>
    decreases s.len(),
{
    if s.len() == 0 {
        s
    } else if s[0] == a {
        s.drop_first()
    } else {
        seq![s[0]] + remove_first(s.drop_first(), a)
    }
}

/// Appending an action raises exactly its own count by one.
pub proof fn lemma_eat_count_push(s: Seq<KeyAction>, x: KeyAction, a: KeyAction)
    ensures
        eat_count(s.push(x), a) == eat_count(s, a) + (if x == a {
            1nat
        } else {
            0nat
        }),
    decreases s.len(),
{
    if s.len() == 0 {
        assert(s.push(x).len() == 1);
        assert(s.push(x)[0] == x);
        assert(s.push(x).drop_first() =~= Seq::<KeyAction>::empty());
        assert(eat_count(s.push(x).drop_first(), a) == 0);
        assert(eat_count(s.push(x), a) == (if x == a {
            1nat
        } else {
            0nat
        }) + eat_count(s.push(x).drop_first(), a));
    } else {
        assert(s.push(x)[0] == s[0]);
        assert(s.push(x).drop_first() =~= s.drop_first().push(x));
        lemma_eat_count_push(s.drop_first(), x, a);
        assert(eat_count(s.push(x), a) == (if s[0] == a {
            1nat
        } else {
            0nat
        }) + eat_count(s.drop_first().push(x), a));
    }
}

/// Taking one occurrence out lowers the count by one.
pub proof fn lemma_eat_count_remove(s: Seq<KeyAction>, a: KeyAction)
    requires
        eat_count(s, a) > 0,
    ensures
        eat_count(remove_first(s, a), a) == eat_count(s, a) - 1,
    decreases s.len(),
{
    if s[0] == a {
    } else {
        lemma_eat_count_remove(s.drop_first(), a);
        let r = seq![s[0]] + remove_first(s.drop_first(), a);
        assert(r.drop_first() =~= remove_first(s.drop_first(), a));
    }
}

/// Eat-set consumption: after one `EatEv(a)` on a state not holding `a`, the
/// count is one, and once consumed it is zero again, so the next occurrence
/// passes through.
pub proof fn lemma_eat_once(s: Seq<KeyAction>, a: KeyAction)
    requires
        eat_count(s, a) == 0,
    ensures
        eat_count(s.push(a), a) == 1,
        eat_count(remove_first(s.push(a), a), a) == 0,
{
    lemma_eat_count_push(s, a, a);
    lemma_eat_count_remove(s.push(a), a);
}

proof fn lemma_eat_count_zero(s: Seq<KeyAction>, a: KeyAction)
    requires
        forall|j: int| 0 <= j < s.len() ==> s[j] != a,
    ensures
        eat_count(s, a) == 0,
    decreases s.len(),
{
    if s.len() > 0 {
        assert forall|j: int| 0 <= j < s.drop_first().len() implies s.drop_first()[j] != a by {
            assert(s.drop_first()[j] == s[j + 1]);
        }
        lemma_eat_count_zero(s.drop_first(), a);
    }
}

proof fn lemma_remove_first_at(s: Seq<KeyAction>, a: KeyAction, i: int)
    requires
        0 <= i < s.len(),
        s[i] == a,
        forall|j: int| 0 <= j < i ==> s[j] != a,
    ensures
        remove_first(s, a) =~= s.remove(i),
        eat_count(s, a) > 0,
    decreases s.len(),
{
    if s[0] == a {
        assert(s.drop_first() =~= s.remove(0));
    } else {
        assert forall|j: int| 0 <= j < i - 1 implies s.drop_first()[j] != a by {
            assert(s.drop_first()[j] == s[j + 1]);
        }
        lemma_remove_first_at(s.drop_first(), a, i - 1);
        assert(seq![s[0]] + s.drop_first().remove(i - 1) =~= s.remove(i));
    }
}

/// The new tracked modifier state after seeing an event.
pub open spec fn upd_mods(m: KeyModifierFlags, ev: InputEvent) -> KeyModifierFlags {
    if ev.event_type == EV_KEY {
        let pressed = ev.value != 0;
        if ev.code == 42 || ev.code == 54 {
            KeyModifierFlags { shift: pressed, ..m }
        } else if ev.code == 29 || ev.code == 97 {
            KeyModifierFlags { ctrl: pressed, ..m }
        } else if ev.code == 56 || ev.code == 100 {
            KeyModifierFlags { alt: pressed, ..m }
        } else if ev.code == 125 || ev.code == 126 {
            KeyModifierFlags { meta: pressed, ..m }
        } else {
            m
        }
    } else {
        m
    }
}

/// Whether an installed mapping applies to this event under the current
/// modifier state and focused window class.
pub open spec fn entry_matches(
    e: MappingEntryV,
    a: KeyAction,
    mods: KeyModifierFlags,
    cls: Option<Seq<char>>,
) -> bool {
    &&& e.from.key == a.key
    &&& e.from.value == a.value
    &&& (e.from.modifiers == mods || e.from.modifiers.subset_of(mods))
    &&& (e.window_class is None || e.window_class == cls)
}

/// Precedence: a window-scoped mapping beats a window-agnostic one, and
/// within the same scope an exact modifier match beats a subset match.
pub open spec fn entry_score(e: MappingEntryV, mods: KeyModifierFlags) -> int {
    (if e.window_class is Some {
        2int
    } else {
        0int
    }) + (if e.from.modifiers == mods {
        1int
    } else {
        0int
    })
}

/// The wire records for a sequence of key actions: each action's event
/// followed by one SYN_REPORT.
pub open spec fn render_events(acts: Seq<KeyAction>) -> Seq<InputEvent>
    decreases acts.len(),
{
    if acts.len() == 0 {
        seq![]
    } else {
        seq![input_ev_of(acts[0]), spec_syn_report()] + render_events(acts.drop_first())
    }
}

/// Render a sequence of key actions for the output device.
pub fn emit_events(acts: &Vec<KeyAction>) -> (r: Vec<InputEvent>)
    ensures
        r@ == render_events(acts@),
{
    let mut out: Vec<InputEvent> = Vec::new();
    let mut i: usize = 0;
    proof {
        assert(acts@.skip(0) =~= acts@);
    }
    while i < acts.len()
        invariant
            i <= acts.len(),
            render_events(acts@) =~= out@ + render_events(acts@.skip(i as int)),
        decreases acts.len() - i,
    {
        let a = acts[i];
        out.push(a.to_input_ev());
        out.push(syn_report());
        proof {
            assert(acts@.skip(i as int).drop_first() =~= acts@.skip(i as int + 1));
            assert(acts@.skip(i as int)[0] == a);
            assert(render_events(acts@) =~= out@ + render_events(acts@.skip(i as int + 1)));
        }
        i += 1;
    }
    proof {
        assert(render_events(acts@.skip(acts@.len() as int)) =~= Seq::<InputEvent>::empty());
        assert(out@ + Seq::<InputEvent>::empty() =~= out@);
    }
    out
}

/// A stream that is a concatenation of groups, each ending in exactly one
/// SYN_REPORT.
pub open spec fn syn_grouped(s: Seq<InputEvent>) -> bool
    decreases s.len(),
{
    s.len() == 0 || exists|k: int|
        0 <= k < s.len() && s[k] == spec_syn_report() && (forall|j: int|
            0 <= j < k ==> s[j] != spec_syn_report()) && syn_grouped(s.skip(k + 1))
}

/// SYN pairing: whatever the actions, the rendered output stream is a
/// concatenation of groups, each ending in exactly one SYN_REPORT.
pub proof fn lemma_emit_syn_grouped(acts: Seq<KeyAction>)
    ensures
        syn_grouped(render_events(acts)),
    decreases acts.len(),
{
    if acts.len() > 0 {
        lemma_emit_syn_grouped(acts.drop_first());
        let s = render_events(acts);
        let ev = input_ev_of(acts[0]);
        if ev == spec_syn_report() {
            assert(s[0] == spec_syn_report());
            let rest = s.skip(1);
            assert(rest[0] == spec_syn_report());
            assert(rest.skip(1) =~= render_events(acts.drop_first()));
            assert(syn_grouped(rest));
            assert(syn_grouped(s));
        } else {
            assert(s[1] == spec_syn_report());
            assert(s[0] != spec_syn_report());
            assert(s.skip(2) =~= render_events(acts.drop_first()));
            assert(syn_grouped(s));
        }
    }
}

impl MediatorState {
    pub fn new() -> (r: MediatorState)
        ensures
            r@ =~= (MediatorV {
                mappings: Seq::<MappingEntryV>::empty(),
                eats: Seq::<KeyAction>::empty(),
                token: 0u64,
                last_class: None::<Seq<char>>,
                callback_envs: Seq::<int>::empty(),
                modifiers: KeyModifierFlags {
                    shift: false,
                    ctrl: false,
                    alt: false,
                    meta: false,
                },
            }),
    {
        MediatorState {
            mappings: Vec::new(),
            eat_list: Vec::new(),
            window_cycle_token: 0,
            last_window_class: None,
            callbacks: Vec::new(),
            modifiers: KeyModifierFlags::new(),
        }
    }

    fn update_modifiers(&mut self, ev: InputEvent)
        ensures
            final(self)@ =~~= (MediatorV {
                modifiers: upd_mods(old(self)@.modifiers, ev),
                ..old(self)@
            }),
    {
        if ev.event_type == EV_KEY {
            let pressed = ev.value != 0;
            if ev.code == 42 || ev.code == 54 {
                self.modifiers.shift = pressed;
            } else if ev.code == 29 || ev.code == 97 {
                self.modifiers.ctrl = pressed;
            } else if ev.code == 56 || ev.code == 100 {
                self.modifiers.alt = pressed;
            } else if ev.code == 125 || ev.code == 126 {
                self.modifiers.meta = pressed;
            }
        }
    }
}

/// Index of the first mapping with this from-edge and window predicate, or -1.
pub open spec fn find_mapping_idx(
    ms: Seq<MappingEntryV>,
    from: KeyActionWithMods,
    wc: Option<Seq<char>>,
) -> int
    decreases ms.len(),
{
    if ms.len() == 0 {
        -1
    } else if ms[0].from == from && ms[0].window_class == wc {
        0
    } else {
        let r = find_mapping_idx(ms.drop_first(), from, wc);
        if r == -1 {
            -1
        } else {
            r + 1
        }
    }
}

/// What installing a mapping does: a stale token is dropped, an existing
/// same-key binding is replaced, else the entry is appended.
pub open spec fn spec_add_mapping(
    m: MediatorV,
    token: u64,
    from: KeyActionWithMods,
    wc: Option<Seq<char>>,
    to: MappingToV,
    env: int,
) -> MediatorV {
    if token < m.token {
        m
    } else {
        let e = MappingEntryV { from, window_class: wc, token, to, env };
        let i = find_mapping_idx(m.mappings, from, wc);
        if i >= 0 {
            MediatorV { mappings: m.mappings.update(i, e), ..m }
        } else {
            MediatorV { mappings: m.mappings.push(e), ..m }
        }
    }
}

proof fn lemma_find_map_first(
    ms: Seq<MappingEntryV>,
    from: KeyActionWithMods,
    wc: Option<Seq<char>>,
    i: int,
)
    requires
        0 <= i < ms.len(),
        ms[i].from == from && ms[i].window_class == wc,
        forall|j: int| 0 <= j < i ==> !((#[trigger] ms[j]).from == from && ms[j].window_class
            == wc),
    ensures
        find_mapping_idx(ms, from, wc) == i,
    decreases ms.len(),
{
    if i > 0 {
        let rest = ms.drop_first();
        assert forall|j: int| 0 <= j < i - 1 implies !((#[trigger] rest[j]).from == from
            && rest[j].window_class == wc) by {
            assert(rest[j] == ms[j + 1]);
        }
        assert(rest[i - 1] == ms[i]);
        lemma_find_map_first(rest, from, wc, i - 1);
    }
}

proof fn lemma_find_map_missing(
    ms: Seq<MappingEntryV>,
    from: KeyActionWithMods,
    wc: Option<Seq<char>>,
)
    requires
        forall|j: int| 0 <= j < ms.len() ==> !((#[trigger] ms[j]).from == from
            && ms[j].window_class == wc),
    ensures
        find_mapping_idx(ms, from, wc) == -1,
    decreases ms.len(),
{
    if ms.len() > 0 {
        let rest = ms.drop_first();
        assert forall|j: int| 0 <= j < rest.len() implies !((#[trigger] rest[j]).from == from
            && rest[j].window_class == wc) by {
            assert(rest[j] == ms[j + 1]);
        }
        lemma_find_map_missing(rest, from, wc);
    }
}

/// No installed mapping applies to this action.
pub open spec fn no_match(m: MediatorV, a: KeyAction) -> bool {
    forall|j: int| 0 <= j < m.mappings.len() ==> !entry_matches(
        #[trigger] m.mappings[j],
        a,
        m.modifiers,
        m.last_class,
    )
}

/// The dispatch decision falls on index `j`: it applies, no applying entry
/// scores higher, and no earlier applying entry scores as high.
pub open spec fn chosen(m: MediatorV, a: KeyAction, j: int) -> bool {
    &&& 0 <= j < m.mappings.len()
    &&& entry_matches(m.mappings[j], a, m.modifiers, m.last_class)
    &&& forall|k: int| 0 <= k < m.mappings.len() && entry_matches(
        #[trigger] m.mappings[k],
        a,
        m.modifiers,
        m.last_class,
    ) ==> entry_score(m.mappings[k], m.modifiers) <= entry_score(m.mappings[j], m.modifiers)
    &&& forall|k: int| 0 <= k < j && entry_matches(
        #[trigger] m.mappings[k],
        a,
        m.modifiers,
        m.last_class,
    ) ==> entry_score(m.mappings[k], m.modifiers) < entry_score(m.mappings[j], m.modifiers)
}

/// The decision a hit entry leads to: a sequence target is rendered for the
/// output device, a lambda target is triggered in its environment.
pub open spec fn target_of(e: MappingEntryV, r: DispatchOut) -> bool {
    match (e.to, r) {
        (MappingToV::Actions(acts), DispatchOut::Emit(evs)) => evs@ == render_events(acts),
        (MappingToV::Lambda, DispatchOut::Trigger(_, env)) => env as int == e.env,
        _ => false,
    }
}

/// Everything input-event dispatch decides and changes.
pub open spec fn dispatch_post(
    pre: MediatorV,
    ev: InputEvent,
    post: MediatorV,
    r: DispatchOut,
) -> bool {
    let a = ev.spec_to_key_action();
    if ev.spec_is_syn() {
        &&& post == pre
        &&& match r {
            DispatchOut::Forward(e) => e == ev,
            _ => false,
        }
    } else if eat_count(pre.eats, a) > 0 {
        &&& post == (MediatorV {
            eats: remove_first(pre.eats, a),
            modifiers: upd_mods(pre.modifiers, ev),
            ..pre
        })
        &&& r is Swallow
    } else {
        &&& post == (MediatorV { modifiers: upd_mods(pre.modifiers, ev), ..pre })
        &&& if no_match(pre, a) {
            match r {
                DispatchOut::Forward(e) => e == ev,
                _ => false,
            }
        } else {
            exists|j: int| #[trigger] chosen(pre, a, j) && target_of(pre.mappings[j], r)
        }
    }
}

impl MediatorState {
    /// Install a mapping, register a swallow or a callback, or decide exit.
    pub fn handle_message(&mut self, msg: ExecutionMessage) -> (r: Option<i32>)
        ensures
            match msg {
                ExecutionMessage::AddMapping(token, from, wc, to, env) => r is None
                    && final(self)@ =~~= spec_add_mapping(old(self)@, token, from, (match wc {
                    Some(c) => Some(c@),
                    None => None,
                }), to@, env as int),
                ExecutionMessage::EatEv(a) => r is None && final(self)@ =~~= (MediatorV {
                    eats: old(self)@.eats.push(a),
                    ..old(self)@
                }),
                ExecutionMessage::RegisterWindowChangeCallback(_, env) => r is None
                    && final(self)@ =~~= (MediatorV {
                    callback_envs: old(self)@.callback_envs.push(env as int),
                    ..old(self)@
                }),
                ExecutionMessage::Exit(code) => r == Some(code) && final(self)@ == old(self)@,
            },
    {
        match msg {
            ExecutionMessage::AddMapping(token, from, wc, to, env) => {
                if token < self.window_cycle_token {
                    return None;
                }
                let ghost oldm = self@;
                let ghost wcv: Option<Seq<char>> = match &wc {
                    Some(c) => Some(c@),
                    None => None,
                };
                match self.find_mapping(&from, &wc) {
                    Some(i) => {
                        let e = MappingEntry { from, window_class: wc, token, to, env };
                        self.mappings[i] = e;
                        proof {
                            assert(self@.mappings =~= oldm.mappings.update(
                                i as int,
                                self@.mappings[i as int],
                            ));
                            assert(self@ =~~= spec_add_mapping(
                                oldm,
                                token,
                                from,
                                wcv,
                                self@.mappings[i as int].to,
                                env as int,
                            ));
                        }
                    },
                    None => {
                        let e = MappingEntry { from, window_class: wc, token, to, env };
                        self.mappings.push(e);
                        proof {
                            assert(self@.mappings =~= oldm.mappings.push(
                                self@.mappings[self@.mappings.len() - 1],
                            ));
                            assert(self@ =~~= spec_add_mapping(
                                oldm,
                                token,
                                from,
                                wcv,
                                self@.mappings[self@.mappings.len() - 1].to,
                                env as int,
                            ));
                        }
                    },
                }
                None
            },
            ExecutionMessage::EatEv(a) => {
                self.eat_list.push(a);
                proof {
                    assert(self@ =~~= (MediatorV { eats: old(self)@.eats.push(a), ..old(self)@ }));
                }
                None
            },
            ExecutionMessage::RegisterWindowChangeCallback(b, env) => {
                self.callbacks.push((b, env));
                proof {
                    assert(self@.callback_envs =~= old(self)@.callback_envs.push(env as int));
                    assert(self@ =~~= (MediatorV {
                        callback_envs: old(self)@.callback_envs.push(env as int),
                        ..old(self)@
                    }));
                }
                None
            },
            ExecutionMessage::Exit(code) => Some(code),
        }
    }

    fn find_mapping(&self, from: &KeyActionWithMods, wc: &Option<String>) -> (r: Option<usize>)
        ensures
            ({
                let wcv: Option<Seq<char>> = match wc {
                    Some(c) => Some(c@),
                    None => None,
                };
                match r {
                    Some(i) => i as int == find_mapping_idx(self@.mappings, *from, wcv) && (
                    i as int) < self@.mappings.len(),
                    None => find_mapping_idx(self@.mappings, *from, wcv) == -1,
                }
            }),
    {
        let ghost ms = self@.mappings;
        let ghost wcv: Option<Seq<char>> = match wc {
            Some(c) => Some(c@),
            None => None,
        };
        let mut i: usize = 0;
        while i < self.mappings.len()
            invariant
                i <= self.mappings.len(),
                ms == self@.mappings,
                ms.len() == self.mappings@.len(),
                forall|j: int| 0 <= j < ms.len() ==> (#[trigger] ms[j]) == self.mappings@[j]@,
                wcv == (match wc {
                    Some(c) => Some(c@),
                    None => None::<Seq<char>>,
                }),
                forall|j: int| 0 <= j < i ==> !((#[trigger] ms[j]).from == *from
                    && ms[j].window_class == wcv),
            decreases self.mappings.len() - i,
        {
            let same_wc = match (&self.mappings[i].window_class, wc) {
                (None, None) => true,
                (Some(x), Some(y)) => *x == *y,
                _ => false,
            };
            if self.mappings[i].from == *from && same_wc {
                proof {
                    lemma_find_map_first(ms, *from, wcv, i as int);
                }
                return Some(i);
            }
            i += 1;
        }
        proof {
            lemma_find_map_missing(ms, *from, wcv);
        }
        None
    }

    fn find_eat(&self, a: KeyAction) -> (r: Option<usize>)
        ensures
            match r {
                Some(i) => (i as int) < self@.eats.len() && self@.eats[i as int] == a && (forall|
                    j: int,
                |
                    0 <= j < i ==> self@.eats[j] != a),
                None => eat_count(self@.eats, a) == 0,
            },
    {
        let mut i: usize = 0;
        while i < self.eat_list.len()
            invariant
                i <= self.eat_list.len(),
                forall|j: int| 0 <= j < i ==> self@.eats[j] != a,
            decreases self.eat_list.len() - i,
        {
            if self.eat_list[i] == a {
                return Some(i);
            }
            i += 1;
        }
        proof {
            lemma_eat_count_zero(self@.eats, a);
        }
        None
    }

    fn entry_applies(&self, j: usize, a: KeyAction) -> (r: bool)
        requires
            (j as int) < self@.mappings.len(),
        ensures
            r == entry_matches(self@.mappings[j as int], a, self@.modifiers, self@.last_class),
    {
        let e = &self.mappings[j];
        let same_key = e.from.key == a.key && e.from.value == a.value;
        if !same_key {
            return false;
        }
        let mods_ok = e.from.modifiers == self.modifiers || (
            (!e.from.modifiers.shift || self.modifiers.shift)
            && (!e.from.modifiers.ctrl || self.modifiers.ctrl)
            && (!e.from.modifiers.alt || self.modifiers.alt)
            && (!e.from.modifiers.meta || self.modifiers.meta)
        );
        if !mods_ok {
            return false;
        }
        match (&e.window_class, &self.last_window_class) {
            (None, _) => true,
            (Some(w), Some(c)) => *w == *c,
            (Some(_), None) => false,
        }
    }

    fn entry_rank(&self, j: usize) -> (r: i32)
        requires
            (j as int) < self@.mappings.len(),
        ensures
            r as int == entry_score(self@.mappings[j as int], self@.modifiers),
    {
        let e = &self.mappings[j];
        let mut r: i32 = 0;
        if e.window_class.is_some() {
            r = r + 2;
        }
        if e.from.modifiers == self.modifiers {
            r = r + 1;
        }
        r
    }

    /// Decide one input event: forward a SYN, swallow a pending eat, rewrite
    /// or trigger on a mapping hit, forward unchanged on a miss; afterwards
    /// track the modifier state.
    pub fn dispatch_event(&mut self, ev: InputEvent) -> (r: DispatchOut)
        ensures
            dispatch_post(old(self)@, ev, final(self)@, r),
    {
        if ev.is_syn() {
            return DispatchOut::Forward(ev);
        }
        let a = ev.to_key_action();
        match self.find_eat(a) {
            Some(idx) => {
                proof {
                    lemma_remove_first_at(self@.eats, a, idx as int);
                }
                self.eat_list.remove(idx);
                self.update_modifiers(ev);
                proof {
                    assert(final(self)@ == (MediatorV {
                        eats: remove_first(old(self)@.eats, a),
                        modifiers: upd_mods(old(self)@.modifiers, ev),
                        ..old(self)@
                    }));
                }
                return DispatchOut::Swallow;
            },
            None => {},
        }
        let ghost pre = self@;
        let mut best: Option<usize> = None;
        let mut best_rank: i32 = 0;
        let mut j: usize = 0;
        while j < self.mappings.len()
            invariant
                self@ == pre,
                j <= self.mappings.len(),
                match best {
                    Some(b) => (b as int) < j as int && entry_matches(
                        pre.mappings[b as int],
                        a,
                        pre.modifiers,
                        pre.last_class,
                    ) && best_rank as int == entry_score(pre.mappings[b as int], pre.modifiers)
                        && (forall|k: int|
                        0 <= k < j && entry_matches(
                            #[trigger] pre.mappings[k],
                            a,
                            pre.modifiers,
                            pre.last_class,
                        ) ==> entry_score(pre.mappings[k], pre.modifiers) <= entry_score(
                            pre.mappings[b as int],
                            pre.modifiers,
                        )) && (forall|k: int|
                        0 <= k < b as int && entry_matches(
                            #[trigger] pre.mappings[k],
                            a,
                            pre.modifiers,
                            pre.last_class,
                        ) ==> entry_score(pre.mappings[k], pre.modifiers) < entry_score(
                            pre.mappings[b as int],
                            pre.modifiers,
                        )),
                    None => forall|k: int|
                        0 <= k < j ==> !entry_matches(
                            #[trigger] pre.mappings[k],
                            a,
                            pre.modifiers,
                            pre.last_class,
                        ),
                },
            decreases self.mappings.len() - j,
        {
            if self.entry_applies(j, a) {
                let rank = self.entry_rank(j);
                match best {
                    None => {
                        best = Some(j);
                        best_rank = rank;
                    },
                    Some(_) => {
                        if rank > best_rank {
                            best = Some(j);
                            best_rank = rank;
                        }
                    },
                }
            }
            j += 1;
        }
        match best {
            None => {
                self.update_modifiers(ev);
                DispatchOut::Forward(ev)
            },
            Some(b) => {
                let ghost bi = b as int;
                proof {
                    assert(chosen(pre, a, bi));
                }
                let out: DispatchOut;
                match &self.mappings[b].to {
                    MappingTo::Actions(acts) => {
                        let evs = emit_events(acts);
                        out = DispatchOut::Emit(evs);
                    },
                    MappingTo::Lambda(bl) => {
                        let b2 = clone_block(bl);
                        let env = self.mappings[b].env;
                        out = DispatchOut::Trigger(b2, env);
                    },
                }
                self.update_modifiers(ev);
                proof {
                    assert(target_of(pre.mappings[bi], out));
                    assert(chosen(pre, a, bi) && target_of(pre.mappings[bi], out));
                }
                out
            },
        }
    }

    /// A focus change: remember the new class and open a new window cycle.
    pub fn begin_focus_change(&mut self, new_class: Option<String>)
        requires
            old(self).window_cycle_token < u64::MAX,
        ensures
            final(self)@ =~~= (MediatorV {
                token: (old(self)@.token + 1) as u64,
                last_class: match new_class {
                    Some(c) => Some(c@),
                    None => None,
                },
                ..old(self)@
            }),
    {
        self.window_cycle_token = self.window_cycle_token + 1;
        self.last_window_class = new_class;
    }

    /// Evict every mapping whose token predates the current cycle; runs after
    /// the focus-change callbacks had their chance to re-register.
    pub fn evict_stale(&mut self)
        ensures
            final(self)@ =~~= (MediatorV {
                mappings: keep_current(old(self)@.mappings, old(self)@.token),
                ..old(self)@
            }),
    {
        let ghost pre = self@;
        let tok = self.window_cycle_token;
        let mut kept: Vec<MappingEntry> = Vec::new();
        proof {
            assert(pre.mappings.skip(0) =~= pre.mappings);
        }
        while self.mappings.len() > 0
            invariant
                tok == pre.token,
                self.window_cycle_token == pre.token,
                self.eat_list@ == pre.eats,
                self.last_window_class == old(self).last_window_class,
                self.callbacks@ == old(self).callbacks@,
                self.modifiers == pre.modifiers,
                keep_current(pre.mappings, tok) =~= kept@.map_values(|e: MappingEntry| e@)
                    + keep_current(self@.mappings, tok),
            decreases self.mappings.len(),
        {
            let ghost cur = self@.mappings;
            let e = self.mappings.remove(0);
            proof {
                assert(self@.mappings =~= cur.drop_first());
            }
            if e.token == tok {
                kept.push(e);
                proof {
                    assert(kept@.map_values(|x: MappingEntry| x@) =~= kept@.map_values(
                        |x: MappingEntry| x@,
                    ).take(kept@.len() - 1).push(e@));
                    assert(keep_current(cur, tok) =~= seq![e@] + keep_current(
                        cur.drop_first(),
                        tok,
                    ));
                    assert(keep_current(pre.mappings, tok) =~= kept@.map_values(
                        |x: MappingEntry| x@,
                    ) + keep_current(self@.mappings, tok));
                }
            } else {
                proof {
                    assert(keep_current(cur, tok) =~= keep_current(cur.drop_first(), tok));
                }
            }
        }
        self.mappings = kept;
        proof {
            assert(keep_current(pre.mappings, tok).len() >= 0);
            assert(keep_current(Seq::<MappingEntryV>::empty(), tok) =~= Seq::<
                MappingEntryV,
            >::empty());
            assert(self@.mappings =~= keep_current(pre.mappings, tok));
            assert(self@ =~~= (MediatorV { mappings: keep_current(pre.mappings, pre.token), ..pre }));
        }
    }
}

/// The mappings that survive eviction: those registered under `tok`.
pub open spec fn keep_current(ms: Seq<MappingEntryV>, tok: u64) -> Seq<MappingEntryV>
    decreases ms.len(),
{
    if ms.len() == 0 {
        ms
    } else if ms[0].token == tok {
        seq![ms[0]] + keep_current(ms.drop_first(), tok)
    } else {
        keep_current(ms.drop_first(), tok)
    }
}

/// After eviction, every installed mapping carries the current token.
pub proof fn lemma_keep_current_tokens(ms: Seq<MappingEntryV>, tok: u64)
    ensures
        forall|j: int| 0 <= j < keep_current(ms, tok).len() ==> (#[trigger] keep_current(
            ms,
            tok,
        )[j]).token == tok,
    decreases ms.len(),
{
    if ms.len() > 0 {
        lemma_keep_current_tokens(ms.drop_first(), tok);
    }
}

/// Stale-token eviction: in a state where every mapping carries the current
/// token, whatever dispatch chooses was registered in the current cycle; a
/// mapping from an earlier cycle cannot fire.
pub proof fn lemma_stale_token_eviction(m: MediatorV, a: KeyAction, j: int)
    requires
        forall|k: int| 0 <= k < m.mappings.len() ==> (#[trigger] m.mappings[k]).token == m.token,
        chosen(m, a, j),
    ensures
        m.mappings[j].token == m.token,
{
}

/// Mapping precedence: when a mapping scoped to the focused class and a
/// window-agnostic one both apply, dispatch never chooses the agnostic one.
pub proof fn lemma_mapping_precedence(
    m: MediatorV,
    a: KeyAction,
    j: int,
    j_scoped: int,
    j_agnostic: int,
)
    requires
        m.last_class is Some,
        0 <= j_scoped < m.mappings.len(),
        entry_matches(m.mappings[j_scoped], a, m.modifiers, m.last_class),
        m.mappings[j_scoped].window_class == m.last_class,
        0 <= j_agnostic < m.mappings.len(),
        entry_matches(m.mappings[j_agnostic], a, m.modifiers, m.last_class),
        m.mappings[j_agnostic].window_class is None,
        chosen(m, a, j),
    ensures
        j != j_agnostic,
        entry_score(m.mappings[j], m.modifiers) >= entry_score(
            m.mappings[j_scoped],
            m.modifiers,
        ),
{
    assert(entry_score(m.mappings[j_scoped], m.modifiers) >= 2);
    assert(entry_score(m.mappings[j_agnostic], m.modifiers) <= 1);
}

} // verus!
