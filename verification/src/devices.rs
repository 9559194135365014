//! Device selection: regex patterns over device paths and identity fields,
//! and the keystroke handling of the device-inspection prompt.

use vstd::prelude::*;

verus! {

#[verifier::external_type_specification]
#[verifier::external_body]
pub struct ExRegex(regex::Regex);

/// Whether a pattern string is accepted by `regex::Regex::new`.
pub uninterp spec fn regex_ok(pattern: Seq<char>) -> bool;

/// Whether a pattern string is accepted by a case-insensitive build. This is
/// a different set: case folding enlarges the compiled program, so a pattern
/// near the compiled-size limit can compile case-sensitively yet fail here.
pub uninterp spec fn regex_ok_ci(pattern: Seq<char>) -> bool;

/// Whether a pattern, compiled with or without case folding, matches
/// somewhere in a text; the result of `regex::Regex::is_match`, which depends
/// on the pattern, the flag and the text alone.
pub uninterp spec fn regex_matches(pattern: Seq<char>, case_insensitive: bool, text: Seq<char>) -> bool;

/// A compiled pattern together with what it was compiled from.
pub struct CompiledPattern {
    pub re: regex::Regex,
    pub source: Ghost<Seq<char>>,
    pub case_insensitive: bool,
}

impl CompiledPattern {
    pub open spec fn wf(self) -> bool {
        compiled_from(self.re) == (self.source@, self.case_insensitive)
    }
}

/// What a `regex::Regex` value was built from: its pattern text and whether
/// case folding was switched on.
pub uninterp spec fn compiled_from(re: regex::Regex) -> (Seq<char>, bool);

/// Relies on regex::Regex::new: it succeeds exactly on valid patterns and
/// compiles the given pattern with case folding off.
#[verifier::external_body]
fn regex_compile(pattern: &str) -> (r: Option<regex::Regex>)
    ensures
        r is Some <==> regex_ok(pattern@),
        match r {
            Some(re) => compiled_from(re) == (pattern@, false),
            None => true,
        },
{
    match regex::Regex::new(pattern) {
        Ok(re) => Some(re),
        Err(_) => None,
    }
}

/// Relies on regex::RegexBuilder: `build` after `case_insensitive(true)`
/// succeeds on exactly the patterns the case-insensitive build accepts, and
/// compiles the pattern with case folding on.
#[verifier::external_body]
fn regex_compile_ci(pattern: &str) -> (r: Option<regex::Regex>)
    ensures
        r is Some <==> regex_ok_ci(pattern@),
        match r {
            Some(re) => compiled_from(re) == (pattern@, true),
            None => true,
        },
{
    match regex::RegexBuilder::new(pattern).case_insensitive(true).build() {
        Ok(re) => Some(re),
        Err(_) => None,
    }
}

/// Relies on regex::Regex::is_match: the result is a function of the
/// compiled pattern, its case flag, and the text.
#[verifier::external_body]
fn regex_is_match(re: &regex::Regex, text: &str) -> (r: bool)
    ensures
        r == regex_matches(compiled_from(*re).0, compiled_from(*re).1, text@),
{
    re.is_match(text)
}

/// Compile a device-selector pattern.
pub fn compile_pattern(pattern: &str, case_insensitive: bool) -> (r: Option<CompiledPattern>)
    ensures
        r is Some <==> (if case_insensitive {
            regex_ok_ci(pattern@)
        } else {
            regex_ok(pattern@)
        }),
        match r {
            Some(cp) => cp.wf() && cp.source@ == pattern@ && cp.case_insensitive
                == case_insensitive,
            None => true,
        },
{
    let compiled = if case_insensitive {
        regex_compile_ci(pattern)
    } else {
        regex_compile(pattern)
    };
    match compiled {
        Some(re) => Some(
            CompiledPattern { re, source: Ghost(pattern@), case_insensitive },
        ),
        None => None,
    }
}

/// Whether one compiled pattern matches a text.
pub fn pattern_matches(cp: &CompiledPattern, text: &str) -> (r: bool)
    requires
        cp.wf(),
    ensures
        r == regex_matches(cp.source@, cp.case_insensitive, text@),
{
    regex_is_match(&cp.re, text)
}

pub open spec fn patterns_wf(ps: Seq<CompiledPattern>) -> bool {
    forall|i: int| 0 <= i < ps.len() ==> (#[trigger] ps[i]).wf()
}

/// Whether any pattern of a selector list matches the path; how the device
/// enumerator picks `/dev/input` nodes.
pub open spec fn spec_any_match(ps: Seq<CompiledPattern>, text: Seq<char>) -> bool {
    exists|i: int| 0 <= i < ps.len() && regex_matches(
        (#[trigger] ps[i]).source@,
        ps[i].case_insensitive,
        text,
    )
}

pub fn path_matches_any(ps: &Vec<CompiledPattern>, text: &str) -> (r: bool)
    requires
        patterns_wf(ps@),
    ensures
        r == spec_any_match(ps@, text@),
{
    let mut i: usize = 0;
    while i < ps.len()
        invariant
            i <= ps.len(),
            patterns_wf(ps@),
            forall|j: int| 0 <= j < i ==> !regex_matches(
                (#[trigger] ps@[j]).source@,
                ps@[j].case_insensitive,
                text@,
            ),
        decreases ps.len() - i,
    {
        if pattern_matches(&ps[i], text) {
            return true;
        }
        i += 1;
    }
    false
}

/// Compile every selector line; the first bad pattern rejects the list.
pub fn compile_patterns(lines: &Vec<String>) -> (r: Option<Vec<CompiledPattern>>)
    ensures
        match r {
            Some(ps) => patterns_wf(ps@) && ps@.len() == lines@.len() && (forall|i: int|
                0 <= i < ps@.len() ==> (#[trigger] ps@[i]).source@ == lines@[i]@
                    && !ps@[i].case_insensitive && regex_ok(lines@[i]@)),
            None => exists|i: int| 0 <= i < lines@.len() && !regex_ok((#[trigger] lines@[i])@),
        },
{
    let mut out: Vec<CompiledPattern> = Vec::new();
    let mut i: usize = 0;
    while i < lines.len()
        invariant
            i <= lines.len(),
            out@.len() == i as int,
            patterns_wf(out@),
            forall|j: int| 0 <= j < i ==> (#[trigger] out@[j]).source@ == lines@[j]@
                && !out@[j].case_insensitive && regex_ok(lines@[j]@),
        decreases lines.len() - i,
    {
        match compile_pattern(lines[i].as_str(), false) {
            Some(cp) => {
                out.push(cp);
            },
            None => {
                return None;
            },
        }
        i += 1;
    }
    Some(out)
}

/// A device's identity fields, as read from the device node.
#[derive(Debug)]
pub struct DeviceInfo {
    pub name: String,
    pub phys: String,
    pub uniq: String,
}

pub struct DeviceInfoV {
    pub name: Seq<char>,
    pub phys: Seq<char>,
    pub uniq: Seq<char>,
}

impl View for DeviceInfo {
    type V = DeviceInfoV;

    open spec fn view(&self) -> DeviceInfoV {
        DeviceInfoV { name: self.name@, phys: self.phys@, uniq: self.uniq@ }
    }
}

/// Whether a device passes the inspection filter: its path matches, or any
/// known identity field matches.
pub open spec fn fd_match(
    path: Seq<char>,
    info: Option<DeviceInfoV>,
    pattern: Seq<char>,
) -> bool {
    regex_matches(pattern, true, path) || match info {
        Some(d) => regex_matches(pattern, true, d.name) || regex_matches(pattern, true, d.phys)
            || regex_matches(pattern, true, d.uniq),
        None => false,
    }
}

pub open spec fn info_view(o: Option<DeviceInfo>) -> Option<DeviceInfoV> {
    match o {
        Some(d) => Some(d@),
        None => None,
    }
}

/// The indices that survive the filter, in order, starting at `i`.
pub open spec fn kept_indices(
    paths: Seq<Seq<char>>,
    infos: Seq<Option<DeviceInfoV>>,
    pattern: Seq<char>,
    i: int,
) -> Seq<int>
    decreases paths.len() - i when 0 <= i <= paths.len() && paths.len() == infos.len()
{
    if i >= paths.len() {
        seq![]
    } else if fd_match(paths[i], infos[i], pattern) {
        seq![i] + kept_indices(paths, infos, pattern, i + 1)
    } else {
        kept_indices(paths, infos, pattern, i + 1)
    }
}

/// Filter the device list by one case-insensitive pattern: a path stays when
/// the pattern matches it, or matches a known identity field of its device.
/// The result holds the indices of the matching paths, in order; an invalid
/// pattern rejects the whole call.
pub fn filter_fd_list(
    fd_list: &Vec<String>,
    infos: &Vec<Option<DeviceInfo>>,
    pattern_str: &str,
) -> (r: Option<Vec<usize>>)
    requires
        fd_list@.len() == infos@.len(),
    ensures
        r is Some <==> regex_ok_ci(pattern_str@),
        match r {
            Some(v) => v@.map_values(|x: usize| x as int) == kept_indices(
                fd_list@.map_values(|p: String| p@),
                infos@.map_values(|o: Option<DeviceInfo>| info_view(o)),
                pattern_str@,
                0,
            ),
            None => true,
        },
{
    let cp = match compile_pattern(pattern_str, true) {
        Some(cp) => cp,
        None => {
            return None;
        },
    };
    let ghost paths = fd_list@.map_values(|p: String| p@);
    let ghost ivs = infos@.map_values(|o: Option<DeviceInfo>| info_view(o));
    let mut out: Vec<usize> = Vec::new();
    let mut i: usize = 0;
    while i < fd_list.len()
        invariant
            i <= fd_list.len(),
            cp.wf(),
            cp.source@ == pattern_str@,
            cp.case_insensitive,
            paths == fd_list@.map_values(|p: String| p@),
            ivs == infos@.map_values(|o: Option<DeviceInfo>| info_view(o)),
            paths.len() == ivs.len(),
            fd_list@.len() == infos@.len(),
            kept_indices(paths, ivs, pattern_str@, 0) == out@.map_values(|x: usize| x as int)
                + kept_indices(paths, ivs, pattern_str@, i as int),
        decreases fd_list.len() - i,
    {
        let path_hit = pattern_matches(&cp, fd_list[i].as_str());
        let hit = if path_hit {
            true
        } else {
            match &infos[i] {
                Some(d) => {
                    let a = pattern_matches(&cp, d.name.as_str());
                    let b = pattern_matches(&cp, d.phys.as_str());
                    let c = pattern_matches(&cp, d.uniq.as_str());
                    a || b || c
                },
                None => false,
            }
        };
        proof {
            assert(hit == fd_match(paths[i as int], ivs[i as int], pattern_str@));
        }
        if hit {
            out.push(i);
            proof {
                assert(out@.map_values(|x: usize| x as int) =~= out@.map_values(
                    |x: usize| x as int,
                ).take(out@.len() - 1).push(i as int));
                assert(kept_indices(paths, ivs, pattern_str@, 0) =~= out@.map_values(
                    |x: usize| x as int,
                ) + kept_indices(paths, ivs, pattern_str@, i as int + 1));
            }
        } else {
            proof {
                assert(kept_indices(paths, ivs, pattern_str@, i as int) =~= kept_indices(
                    paths,
                    ivs,
                    pattern_str@,
                    i as int + 1,
                ));
            }
        }
        i += 1;
    }
    proof {
        assert(kept_indices(paths, ivs, pattern_str@, paths.len() as int) =~= Seq::<int>::empty());
        assert(out@.map_values(|x: usize| x as int) + Seq::<int>::empty() =~= out@.map_values(
            |x: usize| x as int,
        ));
    }
    Some(out)
}

/// One keystroke of the inspection prompt: backspace deletes the last
/// character, ctrl-w clears the line, anything else is appended as a byte.
pub open spec fn spec_process_input(ch: i32, filter: Seq<char>) -> Seq<char> {
    if ch == 127 {
        if filter.len() == 0 {
            filter
        } else {
            filter.drop_last()
        }
    } else if ch == 23 {
        Seq::<char>::empty()
    } else {
        filter.push(((ch as u8) as char))
    }
}

pub fn process_input(ch: i32, filter: &mut Vec<char>)
    ensures
        final(filter)@ == spec_process_input(ch, old(filter)@),
{
    if ch == 127 {
        if filter.len() > 0 {
            filter.pop();
        }
    } else if ch == 23 {
        *filter = Vec::new();
    } else {
        let b = #[verifier::truncate] (ch as u8);
        filter.push(b as char);
    }
}

} // verus!
