//! The key-literal grammar: a key name with optional modifier-flag prefix,
//! either bare (a click) or `{NAME state}` (a single edge), and sequences of
//! such literals.

use vstd::prelude::*;
use crate::keys::{
    Key, KeyAction, KeyActionWithMods, KeyClickActionWithMods, KeyModifierFlags, EV_KEY,
    TYPE_DOWN, TYPE_UP,
};
use crate::key_names::{
    key_defs, lookup_code, lookup_name, upper_chars, spec_resolve_key, resolve_key,
    spec_is_name_char, is_name_char, spec_is_modifier_code, is_upper_letter, chars_eq_str,
    table_wf, canonical_names, lemma_lookup_round, lemma_lookup_name_in_table,
    KEY_CODE_LEFTSHIFT,
};

verus! {

/// A single parsed key literal: one edge with modifiers, or a full click.
#[derive(PartialEq, Eq, Structural, Clone, Copy, Debug)]
pub enum ParsedKeyAction {
    KeyAction(KeyActionWithMods),
    KeyClickAction(KeyClickActionWithMods),
}

impl ParsedKeyAction {
    pub open spec fn modifiers(self) -> KeyModifierFlags {
        match self {
            ParsedKeyAction::KeyAction(a) => a.modifiers,
            ParsedKeyAction::KeyClickAction(a) => a.modifiers,
        }
    }

    pub open spec fn key(self) -> Key {
        match self {
            ParsedKeyAction::KeyAction(a) => a.key,
            ParsedKeyAction::KeyClickAction(a) => a.key,
        }
    }
}

/// The parser rejects the input; the grammar is all-or-nothing.
#[derive(PartialEq, Eq, Structural, Clone, Copy, Debug)]
pub struct ParseError;

/// First position at or after `i` that does not hold a name character.
pub open spec fn name_end(s: Seq<char>, i: int) -> int
    decreases s.len() - i when 0 <= i <= s.len()
{
    if i < 0 || i >= s.len() {
        i
    } else if spec_is_name_char(s[i]) {
        name_end(s, i + 1)
    } else {
        i
    }
}

pub proof fn lemma_name_end_bounds(s: Seq<char>, i: int)
    requires
        0 <= i <= s.len(),
    ensures
        i <= name_end(s, i) <= s.len(),
    decreases s.len() - i,
{
    if i < s.len() && spec_is_name_char(s[i]) {
        lemma_name_end_bounds(s, i + 1);
    }
}

pub proof fn lemma_name_end_eq(s: Seq<char>, i: int, j: int)
    requires
        0 <= i <= j <= s.len(),
        forall|l: int| i <= l < j ==> spec_is_name_char(#[trigger] s[l]),
        j == s.len() || !spec_is_name_char(s[j]),
    ensures
        name_end(s, i) == j,
    decreases j - i,
{
    if i < j {
        lemma_name_end_eq(s, i + 1, j);
    }
}

/// A flag character of the modifier prefix.
pub open spec fn spec_is_flag_char(c: char) -> bool {
    c == '+' || c == '^' || c == '!' || c == '#'
}

#[verifier::when_used_as_spec(spec_is_flag_char)]
pub fn is_flag_char(c: char) -> (r: bool)
    ensures
        r == spec_is_flag_char(c),
{
    c == '+' || c == '^' || c == '!' || c == '#'
}

/// First position at or after `i` that does not hold a flag character.
pub open spec fn flags_end(s: Seq<char>, i: int) -> int
    decreases s.len() - i when 0 <= i <= s.len()
{
    if i < 0 || i >= s.len() {
        i
    } else if spec_is_flag_char(s[i]) {
        flags_end(s, i + 1)
    } else {
        i
    }
}

pub proof fn lemma_flags_end_eq(s: Seq<char>, i: int, j: int)
    requires
        0 <= i <= j <= s.len(),
        forall|l: int| i <= l < j ==> spec_is_flag_char(#[trigger] s[l]),
        j == s.len() || !spec_is_flag_char(s[j]),
    ensures
        flags_end(s, i) == j,
    decreases j - i,
{
    if i < j {
        lemma_flags_end_eq(s, i + 1, j);
    }
}

/// The modifiers named by the flag characters in `s[i..end)`:
/// `+` shift, `^` ctrl, `!` alt, `#` meta.
pub open spec fn flags_in_range(s: Seq<char>, i: int, end: int) -> KeyModifierFlags {
    KeyModifierFlags {
        shift: exists|j: int| i <= j < end && s[j] == '+',
        ctrl: exists|j: int| i <= j < end && s[j] == '^',
        alt: exists|j: int| i <= j < end && s[j] == '!',
        meta: exists|j: int| i <= j < end && s[j] == '#',
    }
}

/// A single capital letter; such a key literal implies a shift modifier.
pub open spec fn is_capital(name: Seq<char>) -> bool {
    name.len() == 1 && is_upper_letter(name[0])
}

pub open spec fn capital_mods(name: Seq<char>) -> KeyModifierFlags {
    KeyModifierFlags { shift: is_capital(name), ctrl: false, alt: false, meta: false }
}

/// The value of a state word inside braces.
pub open spec fn state_value(w: Seq<char>) -> Option<i32> {
    if w == "down"@ {
        Some(TYPE_DOWN)
    } else if w == "up"@ {
        Some(TYPE_UP)
    } else if w == "repeat"@ {
        Some(2i32)
    } else {
        None
    }
}

/// The core of one key literal, before any modifier-flag prefix: which key,
/// whether the name was a single capital letter, the explicit state if braced
/// with one, and how many characters were consumed.
pub enum CoreOut {
    Fail,
    Got { key: Key, capital: bool, state: Option<i32>, used: int },
}

pub open spec fn spec_key_core(s: Seq<char>) -> CoreOut {
    if s.len() == 0 {
        CoreOut::Fail
    } else if s[0] == '{' {
        let ne = name_end(s, 1);
        if ne == 1 || ne >= s.len() {
            CoreOut::Fail
        } else if s[ne] == '}' {
            let name = s.subrange(1, ne);
            match spec_resolve_key(name) {
                Some(key) => CoreOut::Got {
                    key,
                    capital: is_capital(name),
                    state: None,
                    used: ne + 1,
                },
                None => CoreOut::Fail,
            }
        } else if s[ne] == ' ' {
            let se = name_end(s, ne + 1);
            if se == ne + 1 || se >= s.len() {
                CoreOut::Fail
            } else if s[se] != '}' {
                CoreOut::Fail
            } else {
                let name = s.subrange(1, ne);
                match state_value(s.subrange(ne + 1, se)) {
                    Some(v) => match spec_resolve_key(name) {
                        Some(key) => CoreOut::Got {
                            key,
                            capital: is_capital(name),
                            state: Some(v),
                            used: se + 1,
                        },
                        None => CoreOut::Fail,
                    },
                    None => CoreOut::Fail,
                }
            }
        } else {
            CoreOut::Fail
        }
    } else {
        let ne = name_end(s, 0);
        if ne == 0 {
            CoreOut::Fail
        } else {
            let name = s.subrange(0, ne);
            match spec_resolve_key(name) {
                Some(key) => CoreOut::Got {
                    key,
                    capital: is_capital(name),
                    state: None,
                    used: ne,
                },
                None => CoreOut::Fail,
            }
        }
    }
}

/// A successful parse consumes at least one and at most all characters.
pub proof fn lemma_core_used(s: Seq<char>)
    requires
        spec_key_core(s) is Got,
    ensures
        1 <= spec_key_core(s)->used <= s.len(),
{
    if s.len() > 0 && s[0] == '{' {
        lemma_name_end_bounds(s, 1);
        let ne = name_end(s, 1);
        if !(ne == 1 || ne >= s.len()) && s[ne] == ' ' {
            lemma_name_end_bounds(s, ne + 1);
        }
    } else if s.len() > 0 {
        lemma_name_end_bounds(s, 0);
    }
}

/// What parsing one key literal yields: the action and the characters consumed.
pub enum ParseOut {
    Fail,
    Got { action: ParsedKeyAction, used: int },
}

/// One key literal without a flag prefix; a single capital letter carries the
/// shift modifier.
pub open spec fn spec_key_action(s: Seq<char>) -> ParseOut {
    match spec_key_core(s) {
        CoreOut::Fail => ParseOut::Fail,
        CoreOut::Got { key, capital, state, used } => {
            let mods = KeyModifierFlags { shift: capital, ctrl: false, alt: false, meta: false };
            match state {
                Some(v) => ParseOut::Got {
                    action: ParsedKeyAction::KeyAction(
                        KeyActionWithMods { key, value: v, modifiers: mods },
                    ),
                    used,
                },
                None => ParseOut::Got {
                    action: ParsedKeyAction::KeyClickAction(
                        KeyClickActionWithMods { key, modifiers: mods },
                    ),
                    used,
                },
            }
        },
    }
}

/// One key literal with its flag prefix merged into the modifiers.
pub open spec fn spec_key_action_with_flags(s: Seq<char>) -> ParseOut {
    let fe = flags_end(s, 0);
    let f = flags_in_range(s, 0, fe);
    match spec_key_action(s.skip(fe)) {
        ParseOut::Fail => ParseOut::Fail,
        ParseOut::Got { action, used } => {
            let merged = match action {
                ParsedKeyAction::KeyAction(a) => ParsedKeyAction::KeyAction(
                    KeyActionWithMods { key: a.key, value: a.value, modifiers: a.modifiers.union(f) },
                ),
                ParsedKeyAction::KeyClickAction(a) => ParsedKeyAction::KeyClickAction(
                    KeyClickActionWithMods { key: a.key, modifiers: a.modifiers.union(f) },
                ),
            };
            ParseOut::Got { action: merged, used: fe + used }
        },
    }
}

/// Scan a run of name characters starting at `from`.
fn scan_name(s: &str, from: usize) -> (r: (usize, Vec<char>))
    requires
        from as int <= s@.len(),
    ensures
        r.0 as int == name_end(s@, from as int),
        from <= r.0,
        r.0 as int <= s@.len(),
        r.1@ == s@.subrange(from as int, r.0 as int),
{
    let n = s.unicode_len();
    let mut j = from;
    let mut v: Vec<char> = Vec::new();
    while j < n && is_name_char(s.get_char(j))
        invariant
            n == s@.len(),
            from <= j <= n,
            forall|l: int| from <= l < j ==> spec_is_name_char(#[trigger] s@[l]),
            v@ == s@.subrange(from as int, j as int),
        decreases n - j,
    {
        v.push(s.get_char(j));
        proof {
            assert(v@ =~= s@.subrange(from as int, j as int + 1));
        }
        j += 1;
    }
    proof {
        lemma_name_end_eq(s@, from as int, j as int);
    }
    (j, v)
}

/// Scan the modifier-flag prefix.
pub fn scan_flags(s: &str) -> (r: (usize, KeyModifierFlags))
    ensures
        r.0 as int == flags_end(s@, 0),
        r.0 as int <= s@.len(),
        r.1 == flags_in_range(s@, 0, r.0 as int),
{
    let n = s.unicode_len();
    let mut j: usize = 0;
    let mut f = KeyModifierFlags::new();
    while j < n && is_flag_char(s.get_char(j))
        invariant
            n == s@.len(),
            j <= n,
            forall|l: int| 0 <= l < j ==> spec_is_flag_char(#[trigger] s@[l]),
            f.shift == exists|l: int| 0 <= l < j && s@[l] == '+',
            f.ctrl == exists|l: int| 0 <= l < j && s@[l] == '^',
            f.alt == exists|l: int| 0 <= l < j && s@[l] == '!',
            f.meta == exists|l: int| 0 <= l < j && s@[l] == '#',
        decreases n - j,
    {
        let c = s.get_char(j);
        if c == '+' {
            f.shift = true;
        } else if c == '^' {
            f.ctrl = true;
        } else if c == '!' {
            f.alt = true;
        } else {
            f.meta = true;
        }
        j += 1;
    }
    proof {
        lemma_flags_end_eq(s@, 0, j as int);
    }
    (j, f)
}

fn capital_mods_exec(name: &Vec<char>) -> (r: KeyModifierFlags)
    ensures
        r == capital_mods(name@),
{
    let mut f = KeyModifierFlags::new();
    if name.len() == 1 {
        let c = name[0];
        if 'A' <= c && c <= 'Z' {
            f.shift = true;
        }
    }
    f
}

fn state_value_exec(w: &Vec<char>) -> (r: Option<i32>)
    ensures
        r == state_value(w@),
{
    if chars_eq_str(w, "down") {
        Some(TYPE_DOWN)
    } else if chars_eq_str(w, "up") {
        Some(TYPE_UP)
    } else if chars_eq_str(w, "repeat") {
        Some(2)
    } else {
        None
    }
}

/// Parse one key literal; on success return the rest of the input and the
/// parsed action.
pub fn key_action<'a>(input: &'a str) -> (r: Result<(&'a str, ParsedKeyAction), ParseError>)
    ensures
        match r {
            Ok(p) => spec_key_action(input@) matches ParseOut::Got { action, used }
                && p.1 == action && p.0@ == input@.subrange(used, input@.len() as int),
            Err(_) => spec_key_action(input@) is Fail,
        },
{
    let n = input.unicode_len();
    if n == 0 {
        return Err(ParseError);
    }
    let c0 = input.get_char(0);
    if c0 == '{' {
        let (ne, name) = scan_name(input, 1);
        if ne == 1 || ne >= n {
            return Err(ParseError);
        }
        let cne = input.get_char(ne);
        if cne == '}' {
            match resolve_key(&name) {
                Some(key) => {
                    let mods = capital_mods_exec(&name);
                    let rest = input.substring_char(ne + 1, n);
                    Ok((rest, ParsedKeyAction::KeyClickAction(
                        KeyClickActionWithMods { key, modifiers: mods },
                    )))
                },
                None => Err(ParseError),
            }
        } else if cne == ' ' {
            let (se, w) = scan_name(input, ne + 1);
            if se == ne + 1 || se >= n {
                return Err(ParseError);
            }
            if input.get_char(se) != '}' {
                return Err(ParseError);
            }
            match state_value_exec(&w) {
                Some(v) => match resolve_key(&name) {
                    Some(key) => {
                        let mods = capital_mods_exec(&name);
                        let rest = input.substring_char(se + 1, n);
                        Ok((rest, ParsedKeyAction::KeyAction(
                            KeyActionWithMods { key, value: v, modifiers: mods },
                        )))
                    },
                    None => Err(ParseError),
                },
                None => Err(ParseError),
            }
        } else {
            Err(ParseError)
        }
    } else {
        let (ne, name) = scan_name(input, 0);
        if ne == 0 {
            return Err(ParseError);
        }
        match resolve_key(&name) {
            Some(key) => {
                let mods = capital_mods_exec(&name);
                let rest = input.substring_char(ne, n);
                Ok((rest, ParsedKeyAction::KeyClickAction(
                    KeyClickActionWithMods { key, modifiers: mods },
                )))
            },
            None => Err(ParseError),
        }
    }
}

/// Parse one key literal with its modifier-flag prefix.
pub fn key_action_with_flags<'a>(input: &'a str) -> (r: Result<
    (&'a str, ParsedKeyAction),
    ParseError,
>)
    ensures
        match r {
            Ok(p) => spec_key_action_with_flags(input@) matches ParseOut::Got { action, used }
                && p.1 == action && p.0@ == input@.subrange(used, input@.len() as int),
            Err(_) => spec_key_action_with_flags(input@) is Fail,
        },
{
    let n = input.unicode_len();
    let (fe, flags) = scan_flags(input);
    let tail = input.substring_char(fe, n);
    proof {
        assert(tail@ =~= input@.skip(fe as int));
    }
    match key_action(tail) {
        Ok((rest, mut action)) => {
            match &mut action {
                ParsedKeyAction::KeyAction(a) => {
                    a.modifiers.apply_from(&flags);
                },
                ParsedKeyAction::KeyClickAction(a) => {
                    a.modifiers.apply_from(&flags);
                },
            }
            proof {
                lemma_core_used(input@.skip(fe as int));
                let used0 = spec_key_action(input@.skip(fe as int))->used;
                assert(rest@ =~= input@.subrange(fe as int + used0, input@.len() as int));
            }
            Ok((rest, action))
        },
        Err(e) => Err(e),
    }
}


/// What parsing a key-sequence string yields.
pub enum SeqOut {
    Fail,
    Got { items: Seq<ParsedKeyAction> },
}

/// A key-sequence string: items in a row, each an optional flag prefix
/// followed by a braced literal or by one single character.
pub open spec fn spec_key_sequence(s: Seq<char>) -> SeqOut
    decreases s.len(),
{
    if s.len() == 0 {
        SeqOut::Got { items: seq![] }
    } else {
        let fe = flags_end(s, 0);
        let f = flags_in_range(s, 0, fe);
        if fe < 0 || fe >= s.len() {
            SeqOut::Fail
        } else if s[fe] == '{' {
            match spec_key_action(s.skip(fe)) {
                ParseOut::Fail => SeqOut::Fail,
                ParseOut::Got { action, used } => {
                    if used < 1 || fe + used > s.len() {
                        SeqOut::Fail
                    } else {
                        let merged = merge_flags(action, f);
                        match spec_key_sequence(s.skip(fe + used)) {
                            SeqOut::Fail => SeqOut::Fail,
                            SeqOut::Got { items } => SeqOut::Got {
                                items: seq![merged] + items,
                            },
                        }
                    }
                },
            }
        } else {
            let name = s.subrange(fe, fe + 1);
            match spec_resolve_key(name) {
                Some(key) => {
                    let merged = merge_flags(
                        ParsedKeyAction::KeyClickAction(
                            KeyClickActionWithMods { key, modifiers: capital_mods(name) },
                        ),
                        f,
                    );
                    match spec_key_sequence(s.skip(fe + 1)) {
                        SeqOut::Fail => SeqOut::Fail,
                        SeqOut::Got { items } => SeqOut::Got { items: seq![merged] + items },
                    }
                },
                None => SeqOut::Fail,
            }
        }
    }
}

/// Merge a flag prefix into a parsed action's modifiers.
pub open spec fn merge_flags(action: ParsedKeyAction, f: KeyModifierFlags) -> ParsedKeyAction {
    match action {
        ParsedKeyAction::KeyAction(a) => ParsedKeyAction::KeyAction(
            KeyActionWithMods { key: a.key, value: a.value, modifiers: a.modifiers.union(f) },
        ),
        ParsedKeyAction::KeyClickAction(a) => ParsedKeyAction::KeyClickAction(
            KeyClickActionWithMods { key: a.key, modifiers: a.modifiers.union(f) },
        ),
    }
}

fn merge_flags_exec(action: ParsedKeyAction, f: KeyModifierFlags) -> (r: ParsedKeyAction)
    ensures
        r == merge_flags(action, f),
{
    let mut a2 = action;
    match &mut a2 {
        ParsedKeyAction::KeyAction(a) => {
            a.modifiers.apply_from(&f);
        },
        ParsedKeyAction::KeyClickAction(a) => {
            a.modifiers.apply_from(&f);
        },
    }
    a2
}

/// Parse a whole key-sequence string, as the `send` built-in reads it.
pub fn parse_key_sequence(input: &str) -> (r: Result<Vec<ParsedKeyAction>, ParseError>)
    ensures
        match r {
            Ok(v) => spec_key_sequence(input@) == (SeqOut::Got { items: v@ }),
            Err(_) => spec_key_sequence(input@) is Fail,
        },
{
    let n = input.unicode_len();
    let mut acc: Vec<ParsedKeyAction> = Vec::new();
    let mut i: usize = 0;
    proof {
        assert(input@.skip(0) =~= input@);
    }
    while i < n
        invariant
            i <= n,
            n == input@.len(),
            spec_key_sequence(input@) == (match spec_key_sequence(input@.skip(i as int)) {
                SeqOut::Fail => SeqOut::Fail,
                SeqOut::Got { items } => SeqOut::Got { items: acc@ + items },
            }),
        decreases n - i,
    {
        let ghost s_i = input@.skip(i as int);
        let ghost acc0 = acc@;
        let rem = input.substring_char(i, n);
        proof {
            assert(rem@ =~= s_i);
        }
        let rn = n - i;
        let (fe, f) = scan_flags(rem);
        if fe >= rn {
            return Err(ParseError);
        }
        let cfe = rem.get_char(fe);
        let step: usize;
        let merged: ParsedKeyAction;
        if cfe == '{' {
            let sub = rem.substring_char(fe, rn);
            proof {
                assert(sub@ =~= s_i.skip(fe as int));
            }
            match key_action(sub) {
                Ok((rest, action)) => {
                    proof {
                        lemma_core_used(sub@);
                    }
                    let used = rn - fe - rest.unicode_len();
                    merged = merge_flags_exec(action, f);
                    step = fe + used;
                },
                Err(e) => {
                    return Err(e);
                },
            }
        } else {
            let mut name: Vec<char> = Vec::new();
            name.push(cfe);
            proof {
                assert(name@ =~= s_i.subrange(fe as int, fe as int + 1));
            }
            match resolve_key(&name) {
                Some(key) => {
                    let mods = capital_mods_exec(&name);
                    merged = merge_flags_exec(
                        ParsedKeyAction::KeyClickAction(
                            KeyClickActionWithMods { key, modifiers: mods },
                        ),
                        f,
                    );
                    step = fe + 1;
                },
                None => {
                    return Err(ParseError);
                },
            }
        }
        acc.push(merged);
        proof {
            assert(s_i.skip(step as int) =~= input@.skip(i as int + step as int));
            match spec_key_sequence(s_i.skip(step as int)) {
                SeqOut::Fail => {
                    assert(spec_key_sequence(s_i) is Fail);
                },
                SeqOut::Got { items } => {
                    assert(spec_key_sequence(s_i) == (SeqOut::Got {
                        items: seq![merged] + items,
                    }));
                    assert((acc0 + (seq![merged] + items)) =~= (acc@ + items));
                },
            }
        }
        i = i + step;
    }
    proof {
        assert(input@.skip(n as int) =~= Seq::<char>::empty());
        assert(acc@ + Seq::<ParsedKeyAction>::empty() =~= acc@);
    }
    Ok(acc)
}

/// The key actions a parsed literal stands for: a shift edge is injected in
/// front when the shift modifier is set, and a click becomes DOWN then UP.
pub open spec fn actions_of_parsed(p: ParsedKeyAction) -> Seq<KeyAction> {
    match p {
        ParsedKeyAction::KeyAction(a) => maybe_shift(a.modifiers) + seq![
            KeyAction { key: a.key, value: a.value },
        ],
        ParsedKeyAction::KeyClickAction(a) => maybe_shift(a.modifiers) + seq![
            KeyAction { key: a.key, value: TYPE_DOWN },
            KeyAction { key: a.key, value: TYPE_UP },
        ],
    }
}

pub open spec fn maybe_shift(m: KeyModifierFlags) -> Seq<KeyAction> {
    if m.shift {
        seq![
            KeyAction {
                key: Key { event_type: EV_KEY, code: KEY_CODE_LEFTSHIFT },
                value: TYPE_DOWN,
            },
        ]
    } else {
        seq![]
    }
}

pub open spec fn spec_to_key_actions(ps: Seq<ParsedKeyAction>) -> Seq<KeyAction>
    decreases ps.len(),
{
    if ps.len() == 0 {
        seq![]
    } else {
        actions_of_parsed(ps[0]) + spec_to_key_actions(ps.drop_first())
    }
}

/// Flatten parsed literals into the key actions they stand for.
pub fn to_key_actions(actions: Vec<ParsedKeyAction>) -> (r: Vec<KeyAction>)
    ensures
        r@ == spec_to_key_actions(actions@),
{
    let mut out: Vec<KeyAction> = Vec::new();
    let mut i: usize = 0;
    proof {
        assert(actions@.skip(0) =~= actions@);
    }
    while i < actions.len()
        invariant
            i <= actions.len(),
            spec_to_key_actions(actions@) =~= out@ + spec_to_key_actions(
                actions@.skip(i as int),
            ),
        decreases actions.len() - i,
    {
        let a = actions[i];
        proof {
            assert(actions@.skip(i as int).drop_first() =~= actions@.skip(i as int + 1));
            assert(actions@.skip(i as int)[0] == a);
        }
        match a {
            ParsedKeyAction::KeyAction(ka) => {
                if ka.modifiers.shift {
                    out.push(KeyAction {
                        key: Key { event_type: EV_KEY, code: KEY_CODE_LEFTSHIFT },
                        value: TYPE_DOWN,
                    });
                }
                out.push(KeyAction { key: ka.key, value: ka.value });
            },
            ParsedKeyAction::KeyClickAction(ka) => {
                if ka.modifiers.shift {
                    out.push(KeyAction {
                        key: Key { event_type: EV_KEY, code: KEY_CODE_LEFTSHIFT },
                        value: TYPE_DOWN,
                    });
                }
                out.push(KeyAction { key: ka.key, value: TYPE_DOWN });
                out.push(KeyAction { key: ka.key, value: TYPE_UP });
            },
        }
        proof {
            assert(spec_to_key_actions(actions@) =~= out@ + spec_to_key_actions(
                actions@.skip(i as int + 1),
            ));
        }
        i += 1;
    }
    proof {
        assert(spec_to_key_actions(actions@.skip(actions@.len() as int)) =~= Seq::<
            KeyAction,
        >::empty());
        assert(out@ + Seq::<KeyAction>::empty() =~= out@);
    }
    out
}

/// Round trip of key literals: for a well-formed table, parsing the braced
/// literal printed for a non-modifier code yields a click of that very key
/// with empty modifiers, consuming the whole string.
pub proof fn lemma_key_literal_round_trip(k: u16, n: Seq<char>)
    requires
        table_wf(key_defs()),
        lookup_name(key_defs(), k) == Some(n),
        !spec_is_modifier_code(k),
    ensures
        spec_key_action(seq!['{'] + n + seq!['}']) == (ParseOut::Got {
            action: ParsedKeyAction::KeyClickAction(
                KeyClickActionWithMods {
                    key: Key { event_type: EV_KEY, code: k },
                    modifiers: KeyModifierFlags {
                        shift: false,
                        ctrl: false,
                        alt: false,
                        meta: false,
                    },
                },
            ),
            used: n.len() as int + 2,
        }),
{
    let s = seq!['{'] + n + seq!['}'];
    lemma_lookup_name_in_table(key_defs(), k);
    let idx = choose|idx: int| 0 <= idx < key_defs().len() && key_defs()[idx].1 == n
        && key_defs()[idx].0 == k;
    assert(canonical_names(key_defs()));
    assert(upper_chars(n) == n && n.len() >= 2 && forall|j: int| 0 <= j < n.len()
        ==> spec_is_name_char(#[trigger] n[j]));
    assert(s.len() == n.len() + 2);
    assert(s[0] == '{');
    assert forall|l: int| 1 <= l < n.len() + 1 implies spec_is_name_char(#[trigger] s[l]) by {
        assert(s[l] == n[l - 1]);
    }
    assert(s[n.len() as int + 1] == '}');
    assert(!spec_is_name_char('}'));
    lemma_name_end_eq(s, 1, n.len() as int + 1);
    let ne = name_end(s, 1);
    assert(ne == n.len() + 1);
    assert(s.subrange(1, ne) =~= n);
    lemma_lookup_round(key_defs(), k);
    assert(lookup_code(key_defs(), n) == Some(k));
    assert(spec_resolve_key(n) == Some(Key { event_type: EV_KEY, code: k }));
    assert(!is_capital(n));
    assert(capital_mods(n) == (KeyModifierFlags {
        shift: false,
        ctrl: false,
        alt: false,
        meta: false,
    }));
}

/// Capital-letter shift injection: a parsed literal that carries the shift
/// modifier turns into a key-action sequence that begins with LEFT_SHIFT DOWN.
pub proof fn lemma_capital_shift_injection(p: ParsedKeyAction)
    requires
        p.modifiers().shift,
    ensures
        actions_of_parsed(p).len() >= 2,
        actions_of_parsed(p)[0] == (KeyAction {
            key: Key { event_type: EV_KEY, code: KEY_CODE_LEFTSHIFT },
            value: TYPE_DOWN,
        }),
{
}

} // verus!
